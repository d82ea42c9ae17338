//! Stable keys by which an event that is delivered twice is recognised.
use std::collections::hash_map::DefaultHasher;
use std::hash::Hasher;
use vstd::prelude::*;
use vstd::std_specs::hash::*;

use crate::digits;
use crate::digits::hex_u64;

verus! {

/// What the hash of a text is made from: its bytes, closed by a byte that no text holds.
pub open spec fn hashed_bytes(s: Seq<char>) -> Seq<Seq<u8>> {
    seq![vstd::utf8::encode_utf8(s), seq![0xffu8]]
}

/// The hash of a text.
pub open spec fn hash_of(s: Seq<char>) -> u64 {
    DefaultHasher::spec_finish(hashed_bytes(s))
}

/// The hash of a text, in hexadecimal.
pub open spec fn hash_text(s: Seq<char>) -> Seq<char> {
    digits::hex(hash_of(s) as nat)
}

/// The hash of a text. The same text always has the same one.
pub fn content_hash(s: &str) -> (r: u64)
    ensures
        r == hash_of(s@),
{
    let mut h = DefaultHasher::new();
    h.write(s.as_bytes());
    let end: [u8; 1] = [0xff];
    h.write(&end);
    assert(h@ =~= hashed_bytes(s@)) by {
        assert(end@ =~= seq![0xffu8]);
    }
    h.finish()
}

/// The hash of a text, in hexadecimal.
pub fn content_hash_text(s: &str) -> (r: String)
    ensures
        r@ == hash_text(s@),
{
    hex_u64(content_hash(s))
}

/// The hash is made from the whole text: two texts hand the same bytes to the hasher only
/// where they are the same text, and then they have the same hash.
pub proof fn law_whole_text_is_hashed(s: Seq<char>, t: Seq<char>)
    ensures
        hashed_bytes(s) == hashed_bytes(t) <==> s == t,
        s == t ==> hash_text(s) == hash_text(t),
{
    vstd::utf8::encode_utf8_decode_utf8(s);
    vstd::utf8::encode_utf8_decode_utf8(t);
    if hashed_bytes(s) == hashed_bytes(t) {
        assert(hashed_bytes(s)[0] == hashed_bytes(t)[0]);
    }
}

} // verus!
