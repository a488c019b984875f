//! The dispatch core's observable behaviour: fan-out, gating, failure
//! containment, intake order, and the parsers' edges.

use gauss::action::{Action, DispatchOutcome, PluginError, QueryRequest};
use gauss::dispatch::{dispatch_event, run_events, PluginRegistry};
use gauss::event::{EventKind, Identity, InboundEvent};
use gauss::plugin::Plugin;
use gauss::plugins::currency::{conversion_reply, Currency};
use gauss::plugins::h::H;
use gauss::plugins::lastfm::{lastsong_reply, LastFM, LastFMUser, TrackInfo, TrackOutcome};
use gauss::plugins::probe::{CounterPlugin, EchoPlugin, FailingPlugin};
use gauss::plugins::seen::Seen;
use gauss::plugins::url::Url;
use gauss::registry::{standard_registry, AnyPlugin};

fn ctx() -> Identity {
    Identity { nickname: "Gauss".to_string() }
}

fn chat_from(source: &str, target: &str, text: &str) -> InboundEvent {
    InboundEvent {
        kind: EventKind::Chat { target: target.to_string(), text: text.to_string() },
        source: Some(source.to_string()),
        stamp: String::new(),
    }
}

#[test]
fn echo_answers_ping() {
    let mut reg: PluginRegistry<AnyPlugin> = PluginRegistry::new();
    reg.register(AnyPlugin::Echo(EchoPlugin {}));

    let outcomes = dispatch_event(&mut reg, &ctx(), &chat_from("X", "#c", "ping"));
    assert_eq!(outcomes.len(), 1);
    match &outcomes[0] {
        DispatchOutcome::Done(Action::Send { target, text }) => {
            assert_eq!(target, "#c");
            assert_eq!(text, "pong");
        },
        other => panic!("expected exactly one send, got {:?}", other),
    }
}

#[test]
fn echo_ignores_other_text() {
    let mut reg: PluginRegistry<AnyPlugin> = PluginRegistry::new();
    reg.register(AnyPlugin::Echo(EchoPlugin {}));

    let outcomes = dispatch_event(&mut reg, &ctx(), &chat_from("X", "#c", "hello"));
    assert_eq!(outcomes.len(), 1);
    assert_eq!(outcomes[0], DispatchOutcome::Skipped);
}

#[test]
fn counter_counts_every_chat_event() {
    let mut reg: PluginRegistry<AnyPlugin> = PluginRegistry::new();
    reg.register(AnyPlugin::Counter(CounterPlugin { counts: Vec::new() }));

    let mut events: Vec<InboundEvent> = Vec::new();
    for i in 0..100usize {
        events.push(chat_from("X", "#c", &format!("line {}", i)));
    }
    let log = run_events(&mut reg, &ctx(), &events);
    assert_eq!(log.len(), 100);

    match &reg.plugins[0] {
        AnyPlugin::Counter(c) => assert_eq!(c.count_of("X"), 100),
        other => panic!("expected the counter, got {:?}", registry_kind(other)),
    }
}

fn registry_kind(p: &AnyPlugin) -> &'static str {
    match p {
        AnyPlugin::H(_) => "h",
        AnyPlugin::Url(_) => "url",
        AnyPlugin::Seen(_) => "seen",
        AnyPlugin::LastFM(_) => "lastfm",
        AnyPlugin::Tangorin(_) => "tangorin",
        AnyPlugin::Currency(_) => "currency",
        AnyPlugin::Echo(_) => "echo",
        AnyPlugin::Counter(_) => "counter",
        AnyPlugin::Failing(_) => "failing",
    }
}

#[test]
fn failure_does_not_reach_other_plugins() {
    let mut reg: PluginRegistry<AnyPlugin> = PluginRegistry::new();
    reg.register(AnyPlugin::Failing(FailingPlugin {}));
    reg.register(AnyPlugin::Echo(EchoPlugin {}));

    let outcomes = dispatch_event(&mut reg, &ctx(), &chat_from("X", "#c", "ping"));
    assert_eq!(outcomes.len(), 2);
    assert_eq!(outcomes[0], DispatchOutcome::Failed(PluginError::Failure));
    match &outcomes[1] {
        DispatchOutcome::Done(Action::Send { target, text }) => {
            assert_eq!(target, "#c");
            assert_eq!(text, "pong");
        },
        other => panic!("the echo should still answer, got {:?}", other),
    }
}

#[test]
fn failure_does_not_block_later_events() {
    let mut reg: PluginRegistry<AnyPlugin> = PluginRegistry::new();
    reg.register(AnyPlugin::Failing(FailingPlugin {}));
    reg.register(AnyPlugin::Counter(CounterPlugin { counts: Vec::new() }));

    let events = vec![
        chat_from("X", "#c", "one"),
        chat_from("X", "#c", "two"),
        chat_from("X", "#c", "three"),
    ];
    let log = run_events(&mut reg, &ctx(), &events);
    assert_eq!(log.len(), 3);
    for row in &log {
        assert_eq!(row.len(), 2);
        assert_eq!(row[0], DispatchOutcome::Failed(PluginError::Failure));
        assert_eq!(row[1], DispatchOutcome::Done(Action::Idle));
    }
    match &reg.plugins[1] {
        AnyPlugin::Counter(c) => assert_eq!(c.count_of("X"), 3),
        other => panic!("expected the counter, got {:?}", registry_kind(other)),
    }
}

#[test]
fn both_willing_plugins_answer() {
    let mut reg: PluginRegistry<AnyPlugin> = PluginRegistry::new();
    reg.register(AnyPlugin::Echo(EchoPlugin {}));
    reg.register(AnyPlugin::Echo(EchoPlugin {}));

    let outcomes = dispatch_event(&mut reg, &ctx(), &chat_from("X", "#c", "ping"));
    assert_eq!(outcomes.len(), 2);
    let mut sends: usize = 0;
    for o in &outcomes {
        match o {
            DispatchOutcome::Done(Action::Send { target, text }) => {
                assert_eq!(target, "#c");
                assert_eq!(text, "pong");
                sends += 1;
            },
            other => panic!("expected a send, got {:?}", other),
        }
    }
    assert_eq!(sends, 2);
}

#[test]
fn every_pair_gets_exactly_one_outcome() {
    let mut reg: PluginRegistry<AnyPlugin> = PluginRegistry::new();
    reg.register(AnyPlugin::Echo(EchoPlugin {}));
    reg.register(AnyPlugin::Failing(FailingPlugin {}));
    reg.register(AnyPlugin::Counter(CounterPlugin { counts: Vec::new() }));

    let events = vec![chat_from("X", "#c", "ping"), chat_from("X", "#c", "quiet")];
    let log = run_events(&mut reg, &ctx(), &events);

    // one row per event, one outcome per plugin
    assert_eq!(log.len(), 2);
    assert_eq!(log[0].len(), 3);
    assert_eq!(log[1].len(), 3);
    // echo wanted only "ping"; the others wanted both
    assert!(matches!(log[0][0], DispatchOutcome::Done(_)));
    assert_eq!(log[1][0], DispatchOutcome::Skipped);
    assert!(matches!(log[0][1], DispatchOutcome::Failed(_)));
    assert!(matches!(log[1][1], DispatchOutcome::Failed(_)));
    assert!(matches!(log[0][2], DispatchOutcome::Done(_)));
    assert!(matches!(log[1][2], DispatchOutcome::Done(_)));
}

#[test]
fn standard_registry_order() {
    let reg = standard_registry();
    let kinds: Vec<&'static str> = reg.plugins.iter().map(registry_kind).collect();
    assert_eq!(kinds, vec!["h", "url", "seen", "lastfm", "tangorin", "currency"]);
}

#[test]
fn seen_records_joins_and_parts() {
    let mut plugin = Seen { users: Vec::new() };
    let c = ctx();
    let join = InboundEvent {
        kind: EventKind::Join,
        source: Some("Holo".to_string()),
        stamp: "Sat, 01 Oct 2016 12:58:34 GMT".to_string(),
    };
    assert!(plugin.is_allowed(&c, &join));
    assert!(plugin.execute(&c, &join).is_ok());
    assert_eq!(plugin.users.len(), 1);
    assert_eq!(plugin.users[0].name, "Holo");
    assert_eq!(plugin.users[0].parted_at, None);

    let part = InboundEvent {
        kind: EventKind::Part,
        source: Some("Holo".to_string()),
        stamp: "Sat, 01 Oct 2016 13:00:00 GMT".to_string(),
    };
    assert!(plugin.execute(&c, &part).is_ok());
    assert_eq!(plugin.users.len(), 1);
    assert_eq!(plugin.users[0].parted_at, Some("Sat, 01 Oct 2016 13:00:00 GMT".to_string()));
}

#[test]
fn lastfm_association_is_replaced() {
    let mut plugin = LastFM { users: Vec::new() };
    let c = ctx();

    let first = chat_from("Gauss", "test", "!addlastfmuser One");
    assert!(plugin.is_allowed(&c, &first));
    let action = plugin.execute(&c, &first).unwrap();
    match action {
        Action::Send { target, text } => {
            assert_eq!(target, "test");
            assert_eq!(text, "Gauss is now associated to the LastFM user One");
        },
        other => panic!("expected a confirmation, got {:?}", other),
    }

    let second = chat_from("Gauss", "test", "!addlastfmuser Two");
    plugin.execute(&c, &second).unwrap();
    assert_eq!(plugin.users.len(), 1);
    assert_eq!(
        plugin.users[0],
        LastFMUser { irc_username: "Gauss".to_string(), lastfm_username: "Two".to_string() }
    );
}

#[test]
fn lastsong_asks_for_the_registered_account() {
    let mut plugin = LastFM {
        users: vec![
            LastFMUser { irc_username: "Gauss".to_string(), lastfm_username: "Roxas".to_string() },
        ],
    };
    let c = ctx();
    let action = plugin.execute(&c, &chat_from("Gauss", "test", "!lastsong")).unwrap();
    assert_eq!(
        action,
        Action::Query {
            target: "test".to_string(),
            request: QueryRequest::RecentTrack {
                username: "Roxas".to_string(),
                requester: "Gauss".to_string(),
            },
        }
    );
}

#[test]
fn lastsong_replies() {
    let found = TrackOutcome::Found(TrackInfo {
        name: "Song".to_string(),
        artist: "Artist".to_string(),
        album: "Album".to_string(),
        date: Some("01 Oct 2016".to_string()),
    });
    assert_eq!(
        lastsong_reply("Roxas", "Gauss", &found),
        "The last song Roxas listened to is Song by Artist (in Album), on 01 Oct 2016)"
    );
    assert_eq!(
        lastsong_reply("Roxas", "Gauss", &TrackOutcome::Missing),
        "I don't know what is the last song Gauss listened to. Try !addlastfmuser"
    );
    assert_eq!(
        lastsong_reply("Roxas", "Gauss", &TrackOutcome::Failed("timeout".to_string())),
        "Something bad happened: timeout"
    );
}

#[test]
fn currency_normalizes_the_amount() {
    let plugin = Currency {};
    let req = plugin.grep_request("007 usd to eur").unwrap();
    assert_eq!(req.value, 7);
    assert_eq!(req.source, "usd");
    assert_eq!(req.target, "eur");
    assert_eq!(conversion_reply(&req, Some(&"6.3000".to_string())), "7 usd => 6.3000 eur");
    assert_eq!(
        conversion_reply(&req, None),
        "Error while converting given currency"
    );
}

#[test]
fn currency_amount_too_large_is_left_alone() {
    let c = ctx();
    let mut plugin = Currency {};
    let message = chat_from("X", "test", "99999999999999999999999 usd to eur");
    // the phrase is recognised, but the amount does not fit the machine word
    assert!(plugin.is_allowed(&c, &message));
    assert_eq!(plugin.execute(&c, &message), Ok(Action::Idle));
    assert_eq!(plugin.grep_request("99999999999999999999999 usd to eur"), None);
}

#[test]
fn currency_finds_the_leftmost_phrase() {
    let plugin = Currency {};
    let req = plugin.grep_request("say 12a 15 GBP To jpy thanks").unwrap();
    assert_eq!(req.value, 15);
    assert_eq!(req.source, "GBP");
    assert_eq!(req.target, "jpy");
    assert_eq!(plugin.grep_request("12 34 to x"), None);
}

#[test]
fn url_is_rewritten_onto_https() {
    let plugin = Url {};
    assert_eq!(plugin.grep_url("check http://foo.example/x out"), Some("https://foo.example/x".to_string()));
    assert_eq!(plugin.grep_url("https://bar.example"), Some("https://bar.example".to_string()));
    assert_eq!(plugin.grep_url("http:// nope"), None);
    assert_eq!(plugin.grep_url("httplol"), None);
}

#[test]
fn h_reply_names_the_sender() {
    let c = ctx();
    let mut plugin = H {};
    let message = chat_from("Holo", "#c", "  h Gauss  ");
    assert!(plugin.is_allowed(&c, &message));
    assert_eq!(
        plugin.execute(&c, &message),
        Ok(Action::Send { target: "#c".to_string(), text: "h Holo".to_string() })
    );
}

#[test]
fn seen_identical_join_recorded_once() {
    let c = ctx();
    let mut plugin = Seen { users: Vec::new() };
    let join = InboundEvent {
        kind: EventKind::Join,
        source: Some("Holo".to_string()),
        stamp: "Sat, 01 Oct 2016 12:58:34 GMT".to_string(),
    };
    assert!(plugin.execute(&c, &join).is_ok());
    assert!(plugin.execute(&c, &join).is_ok());
    assert_eq!(plugin.users.len(), 1);
}

#[test]
fn empty_registry_dispatches_nothing() {
    let mut reg: PluginRegistry<AnyPlugin> = PluginRegistry::new();
    let outcomes = dispatch_event(&mut reg, &ctx(), &chat_from("X", "#c", "ping"));
    assert!(outcomes.is_empty());
}

#[test]
fn joins_reach_only_the_sighting_log() {
    let mut reg = standard_registry();
    let join = InboundEvent {
        kind: EventKind::Join,
        source: Some("Holo".to_string()),
        stamp: "Sat, 01 Oct 2016 12:58:34 GMT".to_string(),
    };
    let outcomes = dispatch_event(&mut reg, &ctx(), &join);
    assert_eq!(outcomes.len(), 6);
    for (i, o) in outcomes.iter().enumerate() {
        if i == 2 {
            assert_eq!(*o, DispatchOutcome::Done(Action::Idle));
        } else {
            assert_eq!(*o, DispatchOutcome::Skipped);
        }
    }
    match &reg.plugins[2] {
        AnyPlugin::Seen(s) => assert_eq!(s.users.len(), 1),
        other => panic!("expected the sighting log, got {:?}", registry_kind(other)),
    }
}

#[test]
fn seen_finds_the_first_command() {
    let plugin = Seen { users: Vec::new() };
    assert_eq!(plugin.grep_username("say !seen Holo now"), Some("Holo now".to_string()));
    assert_eq!(plugin.grep_username("!seen "), None);
    assert_eq!(plugin.grep_username(""), None);
}
