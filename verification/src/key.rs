use vstd::prelude::*;
use crate::text::str_chars;

verus! {

/// 64-bit FNV-1a offset basis.
pub const KEY_BASIS: u64 = 0xcbf29ce484222325;

/// 64-bit FNV-1a prime.
pub const KEY_PRIME: u64 = 0x100000001b3;

/// A unit that cannot be a character, fed between the components of a
/// link's identity so that no two different triples frame to the same
/// input stream.
pub const KEY_SEP: u64 = 0x110000;

/// One mixing step of the content hash.
pub open spec fn key_step(h: u64, x: u64) -> u64 {
    vstd::wrapping::u64_specs::wrapping_mul(h ^ x, KEY_PRIME)
}

/// The hash state after absorbing a character sequence.
pub open spec fn key_absorb(h: u64, s: Seq<char>) -> u64
    decreases s.len(),
{
    if s.len() == 0 {
        h
    } else {
        key_absorb(key_step(h, s[0] as u64), s.drop_first())
    }
}

/// The stable storage key of a link: a content hash of the triple
/// (source address, source account name, destination address). It depends
/// on nothing but the three texts, so re-deriving it from an unchanged
/// configuration always finds the same persisted record.
pub open spec fn key_of(server: Seq<char>, user: Seq<char>, dest: Seq<char>) -> u64 {
    key_absorb(key_step(key_absorb(key_step(key_absorb(KEY_BASIS, server), KEY_SEP), user), KEY_SEP), dest)
}

/// Law: the storage key is a function of the identity triple alone: equal
/// triples always give equal keys, however and whenever they are derived.
pub proof fn lemma_key_deterministic(
    s1: Seq<char>,
    u1: Seq<char>,
    d1: Seq<char>,
    s2: Seq<char>,
    u2: Seq<char>,
    d2: Seq<char>,
)
    requires
        s1 == s2,
        u1 == u2,
        d1 == d2,
    ensures
        key_of(s1, u1, d1) == key_of(s2, u2, d2),
{
}

fn step(h: u64, x: u64) -> (r: u64)
    ensures
        r == key_step(h, x),
{
    (h ^ x).wrapping_mul(KEY_PRIME)
}

fn absorb(h: u64, s: &Vec<char>) -> (r: u64)
    ensures
        r == key_absorb(h, s@),
{
    let n = s.len();
    let mut acc = h;
    let mut i: usize = 0;
    proof {
        assert(s@.skip(0) =~= s@);
    }
    while i < n
        invariant
            i <= n,
            n == s@.len(),
            key_absorb(h, s@) == key_absorb(acc, s@.skip(i as int)),
        decreases n - i,
    {
        let ghost rem = s@.skip(i as int);
        proof {
            assert(rem[0] == s@[i as int]);
            assert(rem.drop_first() =~= s@.skip(i + 1));
        }
        acc = step(acc, s[i] as u64);
        i += 1;
    }
    proof {
        assert(s@.skip(n as int) =~= Seq::<char>::empty());
    }
    acc
}

/// Derive the stable storage key of a link from its identity triple.
pub fn derive_key(server: &str, user: &str, dest: &str) -> (r: u64)
    ensures
        r == key_of(server@, user@, dest@),
{
    let sv = str_chars(server);
    let uv = str_chars(user);
    let dv = str_chars(dest);
    let h = absorb(KEY_BASIS, &sv);
    let h = step(h, KEY_SEP);
    let h = absorb(h, &uv);
    let h = step(h, KEY_SEP);
    absorb(h, &dv)
}

} // verus!
