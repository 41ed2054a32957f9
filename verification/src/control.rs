//! Connection identifiers for control sessions.

use vstd::prelude::*;
use crate::text::{decimal, is_digit, lemma_decimal_digits, push_char, push_decimal};

verus! {

/// The lowercase mapping of a string (`str::to_lowercase`, Unicode rules,
/// including the context-dependent final sigma).
pub uninterp spec fn lowercase(s: Seq<char>) -> Seq<char>;

/// The Unicode `Alphabetic` or `Numeric` property of a character
/// (`char::is_alphanumeric`).
pub uninterp spec fn alphanumeric(c: char) -> bool;

/// `str::to_lowercase`: its result is the Unicode lowercase mapping of the
/// argument, a function of the argument alone (named `lowercase`; the Unicode
/// tables are not restated here).
#[verifier::external_body]
fn to_lowercase(s: &str) -> (r: String)
    ensures
        r@ == lowercase(s@),
{
    s.to_lowercase()
}

/// `char::is_alphanumeric`: whether the character has the Unicode
/// `Alphabetic` or `Numeric` property (named `alphanumeric`; the Unicode
/// tables are not restated here).
#[verifier::external_body]
fn is_alphanumeric(c: char) -> (r: bool)
    ensures
        r == alphanumeric(c),
{
    c.is_alphanumeric()
}

/// `s` with every non-alphanumeric character replaced by `-`.
pub open spec fn sanitized(s: Seq<char>) -> Seq<char> {
    Seq::new(s.len(), |i: int| if alphanumeric(s[i]) { s[i] } else { '-' })
}

/// The source id of connection number `counter` of device `alias`:
/// `{sanitized lowercase alias}-{counter}`.
pub open spec fn connection_id_spec(alias: Seq<char>, counter: u64) -> Seq<char> {
    sanitized(lowercase(alias)).push('-') + decimal(counter as nat)
}

/// Build the source id for a connection of device `alias`, e.g. `net-1-4`.
/// `counter` is the process-wide connection number handed out by the caller.
pub fn connection_id(alias: &str, counter: u64) -> (r: String)
    ensures
        r@ == connection_id_spec(alias@, counter),
{
    let lower = to_lowercase(alias);
    let l = lower.as_str();
    let n = l.unicode_len();
    let mut out = String::new();
    let mut i: usize = 0;
    while i < n
        invariant
            n == l@.len(),
            l@ == lowercase(alias@),
            i <= n,
            out@ == sanitized(l@).take(i as int),
        decreases n - i,
    {
        let c = l.get_char(i);
        let d = if is_alphanumeric(c) {
            c
        } else {
            '-'
        };
        push_char(&mut out, d);
        assert(out@ =~= sanitized(l@).take(i + 1));
        i = i + 1;
    }
    assert(sanitized(l@).take(n as int) =~= sanitized(l@));
    push_char(&mut out, '-');
    push_decimal(&mut out, counter);
    out
}

/// Connection ids with different counters differ, whatever the aliases: the
/// text after the last `-` is the counter in decimal. With a counter that
/// grows on every call, every id handed out is new.
pub proof fn law_connection_ids_differ_by_counter(a1: Seq<char>, c1: u64, a2: Seq<char>, c2: u64)
    requires
        c1 != c2,
    ensures
        connection_id_spec(a1, c1) != connection_id_spec(a2, c2),
{
    lemma_decimal_digits(c1 as nat);
    lemma_decimal_digits(c2 as nat);
    let d1 = decimal(c1 as nat);
    let d2 = decimal(c2 as nat);
    let p1 = sanitized(lowercase(a1)).push('-');
    let p2 = sanitized(lowercase(a2)).push('-');
    let s1 = connection_id_spec(a1, c1);
    let s2 = connection_id_spec(a2, c2);
    assert(s1 == p1 + d1);
    assert(s2 == p2 + d2);
    if s1 == s2 {
        let n = s1.len() as int;
        if d1.len() < d2.len() {
            let k = n - d1.len() - 1;
            assert(s1[k] == p1[p1.len() - 1]);
            assert(s1[k] == '-');
            assert(s2[k] == d2[k - p2.len()]);
            assert(is_digit(d2[k - p2.len()]));
        } else if d2.len() < d1.len() {
            let k = n - d2.len() - 1;
            assert(s2[k] == p2[p2.len() - 1]);
            assert(s2[k] == '-');
            assert(s1[k] == d1[k - p1.len()]);
            assert(is_digit(d1[k - p1.len()]));
        } else {
            assert(d1 =~= s1.subrange(p1.len() as int, n));
            assert(d2 =~= s2.subrange(p2.len() as int, n));
        }
    }
}

} // verus!
