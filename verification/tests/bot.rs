//! The plugin behaviours, driven through the public plugin interface.

use gauss::action::{Action, QueryRequest};
use gauss::event::{EventKind, Identity, InboundEvent};
use gauss::plugin::Plugin;
use gauss::plugins::currency::{conversion_reply, Currency};
use gauss::plugins::h::H;
use gauss::plugins::lastfm::LastFM;
use gauss::plugins::seen::{Seen, User};
use gauss::plugins::tangorin::{tangorin_reply, Tangorin, TangorinEntry};
use gauss::plugins::url::{title_reply, Url};
use gauss::privmsg_line;

fn gauss_ctx() -> Identity {
    Identity { nickname: "Gauss".to_string() }
}

fn chat(text: &str) -> InboundEvent {
    InboundEvent {
        kind: EventKind::Chat { target: "test".to_string(), text: text.to_string() },
        source: None,
        stamp: String::new(),
    }
}

fn wire(action: &Action) -> String {
    match action {
        Action::Send { target, text } => privmsg_line(target, text),
        _ => panic!("expected an outbound send"),
    }
}

fn get_time() -> String {
    "Sat, 01 Oct 2016 12:58:34 GMT".to_string()
}

#[test]
fn test_allowed() {
    let ctx = gauss_ctx();
    let mut plugin = H {};
    let message = chat("h Gauss");

    assert!(plugin.is_allowed(&ctx, &message));
    let action = plugin.execute(&ctx, &message);
    assert!(action.is_ok());

    assert_eq!("PRIVMSG test :h \r\n", &*wire(&action.unwrap()));
}

#[test]
fn test_not_allowed() {
    let ctx = gauss_ctx();
    let plugin = H {};
    let message = chat("h Holo");

    assert!(!plugin.is_allowed(&ctx, &message));
}

#[test]
fn test_seen() {
    let ctx = gauss_ctx();
    let mut plugin = Seen { users: Vec::new() };
    plugin.users.push(User { name: "Gauss".to_owned(), joined_at: get_time(), parted_at: None });
    plugin.users.push(
        User { name: "Holo".to_owned(), joined_at: get_time(), parted_at: Some(get_time()) },
    );

    let message = chat("!seen Holo");
    assert!(plugin.is_allowed(&ctx, &message));
    let action = plugin.execute(&ctx, &message);
    assert!(action.is_ok());
    assert_eq!(plugin.users.len(), 2);

    let users: Vec<String> = plugin.users.iter().map(|u| u.name.to_owned()).collect();
    assert_eq!(users, vec!["Gauss".to_owned(), "Holo".to_owned()]);

    assert_eq!(
        "PRIVMSG test :Holo joined here on Sat, 01 Oct 2016 12:58:34 GMT and parted on Sat, 01 Oct 2016 12:58:34 GMT\r\n",
        &*wire(&action.unwrap())
    );
}

#[test]
fn test_its_me() {
    let ctx = gauss_ctx();
    let mut plugin = Seen { users: Vec::new() };
    plugin.users.push(User { name: "Gauss".to_owned(), joined_at: get_time(), parted_at: None });

    let message = chat("!seen Gauss");
    assert!(plugin.is_allowed(&ctx, &message));
    let action = plugin.execute(&ctx, &message);
    assert!(action.is_ok());
    assert_eq!(plugin.users.len(), 1);

    assert_eq!("PRIVMSG test :That's me!\r\n", &*wire(&action.unwrap()));
}

#[test]
fn test_not_seen() {
    let ctx = gauss_ctx();
    let mut plugin = Seen { users: Vec::new() };
    plugin.users.push(User { name: "Gauss".to_owned(), joined_at: get_time(), parted_at: None });

    let message = chat("!seen Holo");
    assert!(plugin.is_allowed(&ctx, &message));
    let action = plugin.execute(&ctx, &message);
    assert!(action.is_ok());
    assert_eq!(plugin.users.len(), 1);

    assert_eq!("PRIVMSG test :I haven't seen Holo\r\n", &*wire(&action.unwrap()));
}

#[test]
fn test_lastsong() {
    let ctx = gauss_ctx();
    let mut plugin = LastFM { users: Vec::new() };
    let message = chat("!lastsong");

    assert!(plugin.is_allowed(&ctx, &message));
    // the transport supplied no source identity, so nothing can be asked
    assert!(plugin.execute(&ctx, &message).is_ok());
}

#[test]
fn test_add_user() {
    let ctx = gauss_ctx();
    let mut plugin = LastFM { users: Vec::new() };
    let message = chat("!addlastfmuser Gaussimandro");

    assert!(plugin.is_allowed(&ctx, &message));
    // the transport supplied no source identity, so nothing is recorded
    assert!(plugin.execute(&ctx, &message).is_ok());
}

#[test]
fn test_big_jpy_to_eur() {
    let ctx = gauss_ctx();
    let mut plugin = Currency {};
    let message = chat("5000000 JPY to EUR");

    assert!(plugin.is_allowed(&ctx, &message));
    let action = plugin.execute(&ctx, &message);
    assert!(action.is_ok());

    // the driver performs the rate lookup the action asks for
    let request = match action.unwrap() {
        Action::Query { target, request: QueryRequest::ConvertRate { value, source, target: to } } => {
            assert_eq!(target, "test");
            gauss::plugins::currency::ConvertionRequest { value, source, target: to }
        },
        other => panic!("expected a rate query, got {:?}", other),
    };
    let rate: f64 = 0.0086136;
    let converted = format!("{:.4}", request.value as f64 * rate / 1.00000000);
    let reply = conversion_reply(&request, Some(&converted));
    let msg = privmsg_line("test", &reply);

    let regex = regex::Regex::new(r"=> ([0-9]{2})").unwrap();
    let captures = regex.captures(&*msg).unwrap();
    assert_eq!(captures.get(0).map(|m| m.as_str()), Some("=> 43"));
}

#[test]
fn test_tangorin() {
    let ctx = gauss_ctx();
    let mut plugin = Tangorin {};
    let message = chat("!tangorin \u{685c}");

    assert!(plugin.is_allowed(&ctx, &message));
    let action = plugin.execute(&ctx, &message);
    assert!(action.is_ok());

    // the driver fetches and scrapes the page the action names
    let url = match action.unwrap() {
        Action::Query { target, request: QueryRequest::FetchTangorin { url } } => {
            assert_eq!(target, "test");
            url
        },
        other => panic!("expected a fetch, got {:?}", other),
    };
    assert_eq!(url, "http://tangorin.com/general/\u{685c}");
    let entry = TangorinEntry {
        kanji: "\u{685c}".to_string(),
        kana: "\u{3055}\u{304f}\u{3089}".to_string(),
        romaji: "sakura".to_string(),
        meaning: "cherry tree;\u{2009} cherry blossom".to_string(),
        info: None,
    };
    assert_eq!(
        "PRIVMSG test :[Tangorin] \u{685c} (\u{3055}\u{304f}\u{3089} - sakura): cherry tree;\u{2009} cherry blossom\r\n",
        &*privmsg_line("test", &tangorin_reply(&entry))
    );
}

#[test]
fn test_tangorin_write_explanation() {
    let ctx = gauss_ctx();
    let mut plugin = Tangorin {};
    let message = chat("!tangorin \u{9811}");

    assert!(plugin.is_allowed(&ctx, &message));
    let action = plugin.execute(&ctx, &message);
    assert!(action.is_ok());

    let entry = TangorinEntry {
        kanji: "\u{9811}\u{306a}".to_string(),
        kana: "\u{304b}\u{305f}\u{304f}\u{306a}".to_string(),
        romaji: "katakuna".to_string(),
        meaning: "obstinate".to_string(),
        info: Some("\u{2014}Usually written using kana alone.".to_string()),
    };
    assert_eq!(
        "PRIVMSG test :[Tangorin] \u{9811}\u{306a} (\u{304b}\u{305f}\u{304f}\u{306a} - katakuna): obstinate (usually written using kana alone)\r\n",
        &*privmsg_line("test", &tangorin_reply(&entry))
    );
}

#[test]
fn test_tangorin_missing_argument() {
    let ctx = gauss_ctx();
    let plugin = Tangorin {};
    let message = chat("!tangorin            ");

    assert!(!plugin.is_allowed(&ctx, &message));
}

#[test]
fn test_tangorin_not_called() {
    let ctx = gauss_ctx();
    let plugin = Tangorin {};
    let message = chat("httplol");

    assert!(!plugin.is_allowed(&ctx, &message));
}

#[test]
fn test_url() {
    let ctx = gauss_ctx();
    let mut plugin = Url {};
    let message = chat("https://github.com");

    assert!(plugin.is_allowed(&ctx, &message));
    let action = plugin.execute(&ctx, &message);
    assert!(action.is_ok());

    // the driver fetches the page and extracts its title
    let url = match action.unwrap() {
        Action::Query { target, request: QueryRequest::FetchTitle { url } } => {
            assert_eq!(target, "test");
            url
        },
        other => panic!("expected a fetch, got {:?}", other),
    };
    assert_eq!(url, "https://github.com");
    assert_eq!(
        "PRIVMSG test :[URL] How people build software \u{b7} GitHub\r\n",
        &*privmsg_line("test", &title_reply("How people build software \u{b7} GitHub"))
    );
}

#[test]
fn test_url_not_given() {
    let ctx = gauss_ctx();
    let plugin = Url {};
    let message = chat("httplol");

    assert!(!plugin.is_allowed(&ctx, &message));
}
