//! Route keys and the affinity hash that maps a route key to a worker.

use vstd::prelude::*;
use vstd::utf8::encode_utf8;
use crate::text::{chars_of, push_char};

verus! {

/// FNV-1a offset basis.
pub const FNV_OFFSET: u64 = 0xcbf29ce484222325;

/// FNV-1a prime.
pub const FNV_PRIME: u64 = 0x100000001b3;

/// ASCII upper-casing of one character; other characters are kept.
pub open spec fn upper_char(c: char) -> char {
    if 'a' <= c && c <= 'z' {
        ((c as u32) - 32) as char
    } else {
        c
    }
}

/// ASCII upper-casing of a character sequence.
pub open spec fn upper(s: Seq<char>) -> Seq<char> {
    s.map_values(|c: char| upper_char(c))
}

/// The normalized key of a route: upper-cased method, one space, the path.
pub open spec fn route_key_of(method: Seq<char>, path: Seq<char>) -> Seq<char> {
    upper(method) + seq![' '] + path
}

/// 64-bit FNV-1a over a byte sequence.
pub open spec fn fnv1a(bytes: Seq<u8>) -> u64
    decreases bytes.len(),
{
    if bytes.len() == 0 {
        FNV_OFFSET
    } else {
        (fnv1a(bytes.drop_last()) ^ (bytes.last() as u64)).wrapping_mul(FNV_PRIME)
    }
}

/// The hash of a route key: FNV-1a over its UTF-8 bytes.
pub open spec fn route_hash(key: Seq<char>) -> usize {
    fnv1a(encode_utf8(key)) as usize
}

/// The worker that serves a route key among `count` workers.
pub open spec fn worker_index(key: Seq<char>, count: nat) -> nat
    recommends
        count > 0,
{
    (route_hash(key) as nat) % count
}

fn upper_char_exec(c: char) -> (r: char)
    ensures
        r == upper_char(c),
{
    if 'a' <= c && c <= 'z' {
        ((c as u32) - 32) as u8 as char
    } else {
        c
    }
}

/// Appends the ASCII upper-cased characters of `s` to `out`.
fn push_upper(out: &mut String, s: &str)
    ensures
        final(out)@ == old(out)@ + upper(s@),
{
    let cs = chars_of(s);
    let ghost start = out@;
    let mut i: usize = 0;
    while i < cs.len()
        invariant
            cs@ == s@,
            i <= cs@.len(),
            out@ == start + upper(s@.subrange(0, i as int)),
        decreases cs@.len() - i,
    {
        let c = upper_char_exec(cs[i]);
        push_char(out, c);
        i = i + 1;
        assert(upper(s@.subrange(0, i as int)) =~= upper(s@.subrange(0, i - 1)).push(upper_char(s@[i - 1])));
    }
    assert(s@.subrange(0, cs@.len() as int) =~= s@);
}

/// The method name, ASCII upper-cased.
pub fn normalize_method(method: &str) -> (r: String)
    ensures
        r@ == upper(method@),
{
    let mut r = String::new();
    push_upper(&mut r, method);
    assert(r@ =~= upper(method@));
    r
}

/// Builds the route key `"METHOD path"` with the method upper-cased.
pub fn create_route_key_fast(method: &str, path: &str) -> (r: String)
    ensures
        r@ == route_key_of(method@, path@),
{
    let mut r = String::new();
    push_upper(&mut r, method);
    push_char(&mut r, ' ');
    let p = chars_of(path);
    crate::text::push_chars(&mut r, &p);
    assert(r@ =~= route_key_of(method@, path@));
    r
}

/// FNV-1a hash of the route key's UTF-8 bytes.
pub fn hash_route_key(route_key: &str) -> (r: usize)
    ensures
        r == route_hash(route_key@),
{
    let b = route_key.as_bytes();
    let mut hash: u64 = FNV_OFFSET;
    let mut i: usize = 0;
    while i < b.len()
        invariant
            b@ == encode_utf8(route_key@),
            i <= b@.len(),
            hash == fnv1a(b@.subrange(0, i as int)),
        decreases b@.len() - i,
    {
        let ghost prev = b@.subrange(0, i as int);
        hash = (hash ^ (b[i] as u64)).wrapping_mul(FNV_PRIME);
        i = i + 1;
        assert(b@.subrange(0, i as int).drop_last() =~= prev);
    }
    assert(b@.subrange(0, b@.len() as int) =~= b@);
    hash as usize
}

/// Selects the worker for a route key: its hash modulo the worker count.
pub fn select_worker(route_key: &str, worker_count: usize) -> (r: usize)
    requires
        worker_count > 0,
    ensures
        r as nat == worker_index(route_key@, worker_count as nat),
        r < worker_count,
{
    hash_route_key(route_key) % worker_count
}

/// Worker selection is deterministic: equal route keys select the same
/// worker for a fixed worker count, and that worker is always in range.
pub proof fn lemma_worker_selection_deterministic(k1: Seq<char>, k2: Seq<char>, count: nat)
    requires
        count > 0,
        k1 == k2,
    ensures
        worker_index(k1, count) == worker_index(k2, count),
        worker_index(k1, count) < count,
{
}

} // verus!
