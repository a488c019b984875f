//! Character-level text utilities: character classes, runs, trimming,
//! prefix tests and decimal conversions, all specified over `Seq<char>`.

use vstd::prelude::*;
use vstd::string::*;

verus! {

/// The whitespace characters (the Unicode `White_Space` set, which is what
/// both `char::is_whitespace` and a pattern's space class recognise).
pub open spec fn is_space_char(c: char) -> bool {
    c == ' ' || c == '\t' || c == '\n' || c == '\u{B}' || c == '\u{C}' || c == '\r'
        || c == '\u{85}' || c == '\u{A0}' || c == '\u{1680}'
        || (0x2000 <= c as u32 && c as u32 <= 0x200A)
        || c == '\u{2028}' || c == '\u{2029}' || c == '\u{202F}' || c == '\u{205F}'
        || c == '\u{3000}'
}

pub open spec fn is_digit_char(c: char) -> bool {
    '0' <= c && c <= '9'
}

pub open spec fn is_alpha_char(c: char) -> bool {
    ('a' <= c && c <= 'z') || ('A' <= c && c <= 'Z')
}

/// A character class a scan can run over.
#[derive(Clone, Copy)]
pub enum CharClass {
    Digit,
    Alpha,
    /// Any character but a line feed (what `.` ranges over).
    NotNewline,
    /// Any character that is not whitespace.
    NotSpace,
    Space,
}

pub open spec fn class_holds(cl: CharClass, c: char) -> bool {
    match cl {
        CharClass::Digit => is_digit_char(c),
        CharClass::Alpha => is_alpha_char(c),
        CharClass::NotNewline => c != '\n',
        CharClass::NotSpace => !is_space_char(c),
        CharClass::Space => is_space_char(c),
    }
}

pub fn is_space(c: char) -> (b: bool)
    ensures
        b == is_space_char(c),
{
    let u = c as u32;
    c == ' ' || c == '\t' || c == '\n' || u == 0xB || u == 0xC || c == '\r' || u == 0x85
        || u == 0xA0 || u == 0x1680 || (0x2000 <= u && u <= 0x200A) || u == 0x2028 || u == 0x2029
        || u == 0x202F || u == 0x205F || u == 0x3000
}

pub fn in_class(cl: CharClass, c: char) -> (b: bool)
    ensures
        b == class_holds(cl, c),
{
    match cl {
        CharClass::Digit => '0' <= c && c <= '9',
        CharClass::Alpha => ('a' <= c && c <= 'z') || ('A' <= c && c <= 'Z'),
        CharClass::NotNewline => c != '\n',
        CharClass::NotSpace => !is_space(c),
        CharClass::Space => is_space(c),
    }
}

/// The end of the run of characters of class `cl` that starts at `i`.
pub open spec fn run_end(s: Seq<char>, i: int, cl: CharClass) -> int
    decreases s.len() - i,
{
    if i < s.len() && 0 <= i && class_holds(cl, s[i]) {
        run_end(s, i + 1, cl)
    } else {
        i
    }
}

pub proof fn lemma_run_end(s: Seq<char>, i: int, cl: CharClass)
    requires
        0 <= i <= s.len(),
    ensures
        i <= run_end(s, i, cl) <= s.len(),
        forall|k: int| i <= k < run_end(s, i, cl) ==> class_holds(cl, s[k]),
        run_end(s, i, cl) < s.len() ==> !class_holds(cl, s[run_end(s, i, cl)]),
    decreases s.len() - i,
{
    if i < s.len() && class_holds(cl, s[i]) {
        lemma_run_end(s, i + 1, cl);
    }
}

/// Converts a string slice to the vector of its characters.
pub fn to_chars(s: &str) -> (v: Vec<char>)
    ensures
        v@ == s@,
{
    let n = s.unicode_len();
    let mut v: Vec<char> = Vec::new();
    let mut i: usize = 0;
    while i < n
        invariant
            i <= n,
            n == s@.len(),
            v@ == s@.subrange(0, i as int),
        decreases n - i,
    {
        let c = s.get_char(i);
        v.push(c);
        assert(v@ =~= s@.subrange(0, i + 1 as int));
        i = i + 1;
    }
    assert(v@ =~= s@);
    v
}

/// Relies on `String`'s `FromIterator<char>` implementation: collecting
/// characters yields the string of exactly those characters, in order.
#[verifier::external_body]
pub fn chars_to_string(v: &Vec<char>) -> (s: String)
    ensures
        s@ == v@,
{
    v.iter().collect()
}

/// Copies the character range `[a, b)` out of `v`.
pub fn sub_chars(v: &Vec<char>, a: usize, b: usize) -> (r: Vec<char>)
    requires
        a <= b <= v@.len(),
    ensures
        r@ == v@.subrange(a as int, b as int),
{
    let mut r: Vec<char> = Vec::new();
    let mut i: usize = a;
    while i < b
        invariant
            a <= i <= b <= v@.len(),
            r@ == v@.subrange(a as int, i as int),
        decreases b - i,
    {
        r.push(v[i]);
        assert(r@ =~= v@.subrange(a as int, i + 1 as int));
        i = i + 1;
    }
    r
}

/// The string of the character range `[a, b)` of `v`.
pub fn string_of_range(v: &Vec<char>, a: usize, b: usize) -> (s: String)
    requires
        a <= b <= v@.len(),
    ensures
        s@ == v@.subrange(a as int, b as int),
{
    let r = sub_chars(v, a, b);
    chars_to_string(&r)
}

/// The end of the run of class `cl` starting at `from`, computed by a scan.
pub fn scan_run(v: &Vec<char>, from: usize, cl: CharClass) -> (e: usize)
    requires
        from <= v@.len(),
    ensures
        e == run_end(v@, from as int, cl),
        from <= e <= v@.len(),
{
    let mut j: usize = from;
    while j < v.len() && in_class(cl, v[j])
        invariant
            from <= j <= v@.len(),
            run_end(v@, from as int, cl) == run_end(v@, j as int, cl),
        decreases v@.len() - j,
    {
        j = j + 1;
    }
    proof {
        lemma_run_end(v@, j as int, cl);
    }
    j
}

/// Whether `p` occurs in `s` as a sub-sequence starting at `i`.
pub open spec fn is_prefix_at(s: Seq<char>, p: Seq<char>, i: int) -> bool {
    0 <= i && i + p.len() <= s.len() && s.subrange(i, i + p.len()) == p
}

pub fn prefix_at(v: &Vec<char>, p: &Vec<char>, i: usize) -> (b: bool)
    requires
        i <= v@.len(),
    ensures
        b == is_prefix_at(v@, p@, i as int),
{
    let n = v.len();
    if n - i < p.len() {
        return false;
    }
    let mut k: usize = 0;
    while k < p.len()
        invariant
            k <= p@.len(),
            n == v@.len(),
            i + p@.len() <= n,
            forall|m: int| 0 <= m < k ==> v@[i + m] == p@[m],
        decreases p@.len() - k,
    {
        if v[i + k] != p[k] {
            assert(v@.subrange(i as int, i + p@.len()) != p@) by {
                assert(v@.subrange(i as int, i + p@.len())[k as int] != p@[k as int]);
            }
            return false;
        }
        k = k + 1;
    }
    assert(v@.subrange(i as int, i + p@.len()) =~= p@);
    true
}

/// Whether two character vectors hold the same characters.
pub fn chars_eq(a: &Vec<char>, b: &Vec<char>) -> (r: bool)
    ensures
        r == (a@ == b@),
{
    if a.len() != b.len() {
        return false;
    }
    let mut k: usize = 0;
    while k < a.len()
        invariant
            k <= a@.len(),
            a@.len() == b@.len(),
            forall|m: int| 0 <= m < k ==> a@[m] == b@[m],
        decreases a@.len() - k,
    {
        if a[k] != b[k] {
            return false;
        }
        k = k + 1;
    }
    assert(a@ =~= b@);
    true
}

/// Where the trailing whitespace of `s` starts.
pub open spec fn tail_start(s: Seq<char>) -> int
    decreases s.len(),
{
    if s.len() > 0 && is_space_char(s.last()) {
        tail_start(s.drop_last())
    } else {
        s.len() as int
    }
}

pub proof fn lemma_tail_start(s: Seq<char>)
    ensures
        0 <= tail_start(s) <= s.len(),
        forall|k: int| tail_start(s) <= k < s.len() ==> is_space_char(s[k]),
        tail_start(s) > 0 ==> !is_space_char(s[tail_start(s) - 1]),
    decreases s.len(),
{
    if s.len() > 0 && is_space_char(s.last()) {
        lemma_tail_start(s.drop_last());
        assert(forall|k: int| 0 <= k < s.len() - 1 ==> s.drop_last()[k] == s[k]);
    }
}

/// `s` with leading and trailing whitespace removed (what `str::trim` keeps).
pub open spec fn trim_spec(s: Seq<char>) -> Seq<char> {
    let a = run_end(s, 0, CharClass::Space);
    let b = tail_start(s);
    if a >= b {
        Seq::empty()
    } else {
        s.subrange(a, b)
    }
}

/// The trimmed copy of a character vector.
pub fn trim_chars(v: &Vec<char>) -> (r: Vec<char>)
    ensures
        r@ == trim_spec(v@),
{
    let a = scan_run(v, 0, CharClass::Space);
    let mut b: usize = v.len();
    proof {
        assert(v@.subrange(0, v@.len() as int) =~= v@);
    }
    while b > 0 && in_class(CharClass::Space, v[b - 1])
        invariant
            b <= v@.len(),
            tail_start(v@) == tail_start(v@.subrange(0, b as int)),
        decreases b,
    {
        proof {
            assert(v@.subrange(0, b as int).last() == v@[b - 1]);
            assert(v@.subrange(0, b as int).drop_last() =~= v@.subrange(0, b - 1 as int));
        }
        b = b - 1;
    }
    proof {
        if b > 0 {
            assert(v@.subrange(0, b as int).last() == v@[b - 1]);
            assert(tail_start(v@.subrange(0, b as int)) == b);
        } else {
            assert(v@.subrange(0, 0) =~= Seq::<char>::empty());
            assert(tail_start(v@.subrange(0, b as int)) == b);
        }
    }
    if a >= b {
        let r: Vec<char> = Vec::new();
        assert(r@ =~= trim_spec(v@));
        r
    } else {
        let r = sub_chars(v, a, b);
        r
    }
}

pub open spec fn digit_val(c: char) -> int {
    c as int - '0' as int
}

/// The number a sequence of decimal digits denotes.
pub open spec fn digits_value(s: Seq<char>) -> int
    decreases s.len(),
{
    if s.len() == 0 {
        0
    } else {
        digits_value(s.drop_last()) * 10 + digit_val(s.last())
    }
}

pub proof fn lemma_digits_value_nonneg(s: Seq<char>)
    requires
        forall|k: int| 0 <= k < s.len() ==> is_digit_char(#[trigger] s[k]),
    ensures
        digits_value(s) >= 0,
    decreases s.len(),
{
    if s.len() > 0 {
        assert(forall|k: int| 0 <= k < s.len() - 1 ==> s.drop_last()[k] == s[k]);
        lemma_digits_value_nonneg(s.drop_last());
    }
}

/// The value of a digit sequence, if it fits in a `u64`.
pub fn parse_u64(d: &Vec<char>) -> (r: Option<u64>)
    requires
        forall|k: int| 0 <= k < d@.len() ==> is_digit_char(#[trigger] d@[k]),
    ensures
        match r {
            Some(x) => x == digits_value(d@),
            None => digits_value(d@) > u64::MAX,
        },
{
    let mut acc: u64 = 0;
    let mut i: usize = 0;
    while i < d.len()
        invariant
            i <= d@.len(),
            forall|k: int| 0 <= k < d@.len() ==> is_digit_char(#[trigger] d@[k]),
            acc == digits_value(d@.subrange(0, i as int)),
        decreases d@.len() - i,
    {
        let c = d[i];
        let dv: u64 = (c as u32 - '0' as u32) as u64;
        assert(dv == digit_val(c) && dv <= 9);
        if acc > (u64::MAX - dv) / 10 {
            proof {
                let pre = d@.subrange(0, i + 1 as int);
                assert(pre.drop_last() =~= d@.subrange(0, i as int));
                assert(digits_value(pre) > u64::MAX);
                lemma_digits_grow(d@, i + 1 as int);
            }
            return None;
        }
        proof {
            let pre = d@.subrange(0, i + 1 as int);
            assert(pre.drop_last() =~= d@.subrange(0, i as int));
        }
        acc = acc * 10 + dv;
        i = i + 1;
    }
    assert(d@.subrange(0, d@.len() as int) =~= d@);
    Some(acc)
}

/// Appending digits never shrinks the value: the value of the whole digit
/// sequence is at least the value of any of its prefixes.
pub proof fn lemma_digits_grow(s: Seq<char>, i: int)
    requires
        0 <= i <= s.len(),
        forall|k: int| 0 <= k < s.len() ==> is_digit_char(#[trigger] s[k]),
    ensures
        digits_value(s) >= digits_value(s.subrange(0, i)),
    decreases s.len() - i,
{
    if i < s.len() {
        lemma_digits_grow(s, i + 1);
        let pre = s.subrange(0, i + 1);
        assert(pre.drop_last() =~= s.subrange(0, i));
        lemma_digits_value_nonneg(s.subrange(0, i));
        assert(digits_value(pre) == digits_value(s.subrange(0, i)) * 10 + digit_val(s[i]));
        assert(digit_val(s[i]) >= 0);
    } else {
        assert(s.subrange(0, i) =~= s);
    }
}

pub open spec fn digit_char(d: int) -> char {
    ((48 + d) as u8) as char
}

/// The decimal rendering of a non-negative number.
pub open spec fn dec_spec(n: int) -> Seq<char>
    decreases n,
{
    if n < 10 {
        seq![digit_char(if n >= 0 { n } else { 0 })]
    } else {
        dec_spec(n / 10).push(digit_char(n % 10))
    }
}

/// The decimal rendering of `n`, as characters.
pub fn u64_to_chars(n: u64) -> (r: Vec<char>)
    ensures
        r@ == dec_spec(n as int),
{
    let mut rev: Vec<char> = Vec::new();
    let mut m: u64 = n;
    if m < 10 {
        let mut r: Vec<char> = Vec::new();
        r.push((48 + m as u8) as char);
        assert(r@ =~= dec_spec(n as int));
        return r;
    }
    while m >= 10
        invariant
            dec_spec(n as int) =~= dec_spec(m as int) + rev@.reverse(),
        decreases m,
    {
        let c = (48 + (m % 10) as u8) as char;
        proof {
            assert(dec_spec(m as int) == dec_spec(m as int / 10).push(digit_char(m as int % 10)));
            assert((rev@.push(c)).reverse() =~= seq![c] + rev@.reverse());
            assert(dec_spec(m as int / 10).push(digit_char(m as int % 10)) + rev@.reverse()
                =~= dec_spec(m as int / 10) + (rev@.push(c)).reverse());
        }
        rev.push(c);
        m = m / 10;
    }
    let c0 = (48 + m as u8) as char;
    let mut r: Vec<char> = Vec::new();
    r.push(c0);
    assert(r@ =~= dec_spec(m as int));
    let mut j: usize = rev.len();
    while j > 0
        invariant
            j <= rev@.len(),
            r@ == dec_spec(m as int) + rev@.reverse().subrange(0, rev@.len() - j),
        decreases j,
    {
        let c = rev[j - 1];
        proof {
            assert(rev@.reverse()[rev@.len() - j] == rev@[j - 1]);
            assert(rev@.reverse().subrange(0, rev@.len() - j + 1 as int)
                =~= rev@.reverse().subrange(0, rev@.len() - j).push(rev@[j - 1 as int]));
        }
        r.push(c);
        j = j - 1;
    }
    proof {
        assert(rev@.reverse().subrange(0, rev@.len() as int) =~= rev@.reverse());
        assert(r@ =~= dec_spec(n as int));
    }
    r
}

/// Replaces the element at `i` of `v`.
pub fn vec_set<T>(v: &mut Vec<T>, i: usize, t: T)
    requires
        i < old(v)@.len(),
    ensures
        final(v)@ == old(v)@.update(i as int, t),
{
    let ghost tv = t;
    let _ = v.remove(i);
    v.insert(i, t);
    assert(v@ =~= old(v)@.update(i as int, tv));
}

/// Whether the pattern `cmd` followed by a non-empty greedy run of class
/// `cl` matches inside `s` at position `i`.
pub open spec fn cap_match_at(s: Seq<char>, cmd: Seq<char>, cl: CharClass, i: int) -> bool {
    is_prefix_at(s, cmd, i) && i + cmd.len() < s.len() && class_holds(cl, s[i + cmd.len()])
}

/// The least position at or after `i` where `cmd` plus a capture matches.
pub open spec fn first_cap_from(s: Seq<char>, cmd: Seq<char>, cl: CharClass, i: int) -> Option<
    int,
>
    decreases s.len() - i,
{
    if i > s.len() || i < 0 {
        None
    } else if cap_match_at(s, cmd, cl, i) {
        Some(i)
    } else if i >= s.len() {
        None
    } else {
        first_cap_from(s, cmd, cl, i + 1)
    }
}

pub proof fn lemma_first_cap_from(s: Seq<char>, cmd: Seq<char>, cl: CharClass, i: int)
    requires
        0 <= i <= s.len(),
    ensures
        match first_cap_from(s, cmd, cl, i) {
            Some(j) => i <= j && cap_match_at(s, cmd, cl, j) && forall|k: int|
                i <= k < j ==> !cap_match_at(s, cmd, cl, k),
            None => forall|k: int| i <= k ==> !cap_match_at(s, cmd, cl, k),
        },
    decreases s.len() - i,
{
    if !cap_match_at(s, cmd, cl, i) && i < s.len() {
        lemma_first_cap_from(s, cmd, cl, i + 1);
    }
    if i >= s.len() && !cap_match_at(s, cmd, cl, i) {
        assert forall|k: int| i <= k implies !cap_match_at(s, cmd, cl, k) by {
            if k + cmd.len() < s.len() {
                assert(k < s.len());
            }
        }
    }
}

/// The leftmost capture of the pattern `cmd` followed by a greedy non-empty
/// run of class `cl`, if the pattern matches anywhere in `s`.
pub open spec fn capture_spec(s: Seq<char>, cmd: Seq<char>, cl: CharClass) -> Option<Seq<char>> {
    match first_cap_from(s, cmd, cl, 0) {
        Some(i) => Some(s.subrange(i + cmd.len(), run_end(s, i + cmd.len(), cl))),
        None => None,
    }
}

/// Finds the leftmost capture, returning its character range in `v`.
pub fn find_capture(v: &Vec<char>, cmd: &Vec<char>, cl: CharClass) -> (r: Option<(usize, usize)>)
    ensures
        match r {
            Some(bounds) => bounds.0 <= bounds.1 <= v@.len() && capture_spec(v@, cmd@, cl)
                == Some(v@.subrange(bounds.0 as int, bounds.1 as int)),
            None => capture_spec(v@, cmd@, cl) is None,
        },
{
    let mut i: usize = 0;
    while i < v.len()
        invariant
            i <= v@.len(),
            forall|k: int| 0 <= k < i ==> !cap_match_at(v@, cmd@, cl, k),
        decreases v@.len() - i,
    {
        if prefix_at(v, cmd, i) {
            let a = i + cmd.len();
            if a < v.len() && in_class(cl, v[a]) {
                let b = scan_run(v, a, cl);
                proof {
                    lemma_first_cap_from(v@, cmd@, cl, 0);
                    assert(cap_match_at(v@, cmd@, cl, i as int));
                    match first_cap_from(v@, cmd@, cl, 0) {
                        Some(j) => {
                            if j < i {
                                assert(!cap_match_at(v@, cmd@, cl, j));
                            } else if j > i {
                                assert(!cap_match_at(v@, cmd@, cl, i as int));
                            }
                        },
                        None => {
                            assert(!cap_match_at(v@, cmd@, cl, i as int));
                        },
                    }
                }
                return Some((a, b));
            }
        }
        i = i + 1;
    }
    proof {
        lemma_first_cap_from(v@, cmd@, cl, 0);
        if first_cap_from(v@, cmd@, cl, 0) is Some {
            let j = first_cap_from(v@, cmd@, cl, 0)->Some_0;
            assert(j < v@.len());
            assert(!cap_match_at(v@, cmd@, cl, j));
        }
    }
    None
}

/// What `str::to_lowercase` returns for a given character sequence: the
/// result is a function of the characters alone.
pub uninterp spec fn lower_of(s: Seq<char>) -> Seq<char>;

/// Relies on `str::to_lowercase`: the lowercase mapping of a string depends
/// only on its characters, and an empty string stays empty.
#[verifier::external_body]
pub fn lowercase(s: &str) -> (r: String)
    ensures
        r@ == lower_of(s@),
        s@.len() == 0 ==> r@.len() == 0,
{
    s.to_lowercase()
}

} // verus!
