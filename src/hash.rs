//! Stable 64-bit identifiers for names.
use vstd::prelude::*;

use std::collections::hash_map::DefaultHasher;
use std::hash::Hasher;
use vstd::std_specs::hash::DefaultHasherAdditionalSpecFns;
use vstd::utf8::encode_utf8;

verus! {

/// What the standard hasher gives for a text: the text's bytes and then the
/// byte `0xff`, as `str` hashes itself.
pub open spec fn text_hash(s: Seq<char>) -> u64 {
    DefaultHasher::spec_finish(seq![encode_utf8(s), seq![0xffu8]])
}

/// A 64-bit identifier derived from a name.
pub trait HashId {
    fn id(&self) -> u64;
}

fn hash_text(s: &str) -> (r: u64)
    ensures
        r == text_hash(s@),
{
    let mut h = DefaultHasher::new();
    h.write(s.as_bytes());
    let tail: Vec<u8> = vec![0xffu8];
    h.write(tail.as_slice());
    proof {
        assert(tail@ =~= seq![0xffu8]);
        assert(h@ =~= seq![encode_utf8(s@), seq![0xffu8]]);
    }
    h.finish()
}

impl HashId for String {
    fn id(&self) -> (r: u64)
        ensures
            r == text_hash(self@),
    {
        hash_text(self.as_str())
    }
}

impl HashId for str {
    fn id(&self) -> (r: u64)
        ensures
            r == text_hash(self@),
    {
        hash_text(self)
    }
}

} // verus!
