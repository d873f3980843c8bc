//! Client identity for rate limiting, taken from forwarding headers.

use vstd::prelude::*;
use crate::text::{chars_of, string_of};

verus! {

/// The identity used when no forwarding header names the client.
pub open spec fn default_client() -> Seq<char> {
    "127.0.0.1"@
}

/// ASCII whitespace.
pub open spec fn is_ws(c: char) -> bool {
    c == ' ' || c == '\t' || c == '\n' || c == '\r' || c == '\x0B' || c == '\x0C'
}

/// The characters before the first comma (all of them when there is none).
pub open spec fn first_field(s: Seq<char>) -> Seq<char>
    decreases s.len(),
{
    if s.len() == 0 {
        s
    } else if s[0] == ',' {
        Seq::empty()
    } else {
        seq![s[0]] + first_field(s.drop_first())
    }
}

/// `s` without leading whitespace.
pub open spec fn trim_start(s: Seq<char>) -> Seq<char>
    decreases s.len(),
{
    if s.len() > 0 && is_ws(s[0]) {
        trim_start(s.drop_first())
    } else {
        s
    }
}

/// `s` without trailing whitespace.
pub open spec fn trim_end(s: Seq<char>) -> Seq<char>
    decreases s.len(),
{
    if s.len() > 0 && is_ws(s.last()) {
        trim_end(s.drop_last())
    } else {
        s
    }
}

/// The client identity: the first entry of the forwarded-for header,
/// trimmed; else the real-IP header; else the default.
pub open spec fn client_id(forwarded: Option<Seq<char>>, real_ip: Option<Seq<char>>) -> Seq<char> {
    match forwarded {
        Some(f) => trim_end(trim_start(first_field(f))),
        None => match real_ip {
            Some(r) => r,
            None => default_client(),
        },
    }
}

fn is_ws_exec(c: char) -> (r: bool)
    ensures
        r == is_ws(c),
{
    c == ' ' || c == '\t' || c == '\n' || c == '\r' || c == '\x0B' || c == '\x0C'
}

/// The characters of `s` before its first comma.
fn first_field_exec(s: &Vec<char>) -> (r: Vec<char>)
    ensures
        r@ == first_field(s@),
{
    let mut r: Vec<char> = Vec::new();
    let mut i: usize = 0;
    assert(s@.skip(0) =~= s@);
    assert(r@ + first_field(s@) =~= first_field(s@));
    while i < s.len() && s[i] != ','
        invariant
            i <= s@.len(),
            first_field(s@) == r@ + first_field(s@.skip(i as int)),
        decreases s@.len() - i,
    {
        let ghost rest = s@.skip(i as int);
        assert(rest.drop_first() =~= s@.skip(i + 1));
        assert(rest[0] == s@[i as int]);
        r.push(s[i]);
        i = i + 1;
        assert(first_field(s@) =~= r@ + first_field(s@.skip(i as int)));
    }
    assert(first_field(s@.skip(i as int)) =~= Seq::<char>::empty());
    assert(r@ + Seq::<char>::empty() =~= r@);
    r
}

/// `s` without leading or trailing whitespace.
fn trim_exec(s: &Vec<char>) -> (r: Vec<char>)
    ensures
        r@ == trim_end(trim_start(s@)),
{
    let mut i: usize = 0;
    assert(s@.skip(0) =~= s@);
    while i < s.len() && is_ws_exec(s[i])
        invariant
            i <= s@.len(),
            trim_start(s@) == trim_start(s@.skip(i as int)),
        decreases s@.len() - i,
    {
        assert(s@.skip(i as int).drop_first() =~= s@.skip(i + 1));
        i = i + 1;
    }
    let ghost t = s@.skip(i as int);
    assert(trim_start(s@) == t);
    let mut j: usize = s.len();
    assert(t.take(j - i) =~= t);
    while j > i && is_ws_exec(s[j - 1])
        invariant
            i <= j <= s@.len(),
            t == s@.skip(i as int),
            trim_end(t) == trim_end(t.take(j - i)),
        decreases j,
    {
        assert(t.take(j - i).drop_last() =~= t.take(j - 1 - i));
        j = j - 1;
    }
    let mut r: Vec<char> = Vec::new();
    let mut k: usize = i;
    while k < j
        invariant
            i <= k <= j <= s@.len(),
            t == s@.skip(i as int),
            r@ == t.take(k - i),
        decreases j - k,
    {
        r.push(s[k]);
        k = k + 1;
        assert(r@ =~= t.take(k - i));
    }
    assert(trim_end(t.take(j - i)) == t.take(j - i));
    r
}

/// The client identity from the forwarded-for and real-IP header values.
pub fn extract_client_ip(forwarded: Option<&str>, real_ip: Option<&str>) -> (r: String)
    ensures
        r@ == client_id(
            match forwarded {
                Some(f) => Some(f@),
                None => None,
            },
            match real_ip {
                Some(x) => Some(x@),
                None => None,
            },
        ),
{
    match forwarded {
        Some(f) => {
            let first = first_field_exec(&chars_of(f));
            string_of(&trim_exec(&first))
        },
        None => match real_ip {
            Some(x) => string_of(&chars_of(x)),
            None => "127.0.0.1".to_string(),
        },
    }
}

} // verus!
