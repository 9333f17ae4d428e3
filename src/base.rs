use vstd::prelude::*;

verus! {

/// Dense index of a node within a run.
#[derive(Clone, Copy, Debug, PartialEq, Eq, Structural, PartialOrd, Ord, Hash)]
pub struct Author(pub usize);

/// Protocol round.
#[derive(Clone, Copy, Debug, PartialEq, Eq, Structural, PartialOrd, Ord, Hash)]
pub struct Round(pub u64);

/// Protocol epoch.
#[derive(Clone, Copy, Debug, PartialEq, Eq, Structural, PartialOrd, Ord, Hash)]
pub struct EpochId(pub u64);

/// Execution state.
#[derive(Clone, Copy, Debug, PartialEq, Eq, Structural, PartialOrd, Ord, Hash)]
pub struct State(pub u64);

/// Hash of a block.
#[derive(Clone, Copy, Debug, PartialEq, Eq, Structural, PartialOrd, Ord, Hash)]
pub struct BlockHash(pub u64);

/// Hash of a quorum certificate.
#[derive(Clone, Copy, Debug, PartialEq, Eq, Structural, PartialOrd, Ord, Hash)]
pub struct QuorumCertificateHash(pub u64);

/// A command to execute in the replicated state machine.
#[derive(Clone, Copy, Debug, PartialEq, Eq, Structural, PartialOrd, Ord, Hash)]
pub struct Command {
    pub proposer: Author,
    pub index: u64,
}

/// Signature of a digest by an author.
#[derive(Clone, Copy, Debug, PartialEq, Eq, Structural, PartialOrd, Ord, Hash)]
pub struct Signature(pub u64);

/// The 64-bit hash of a sequence of words, as std's default hasher computes it.
pub uninterp spec fn words_digest(words: Seq<u64>) -> u64;

/// Relies on std's `DefaultHasher` (`new`, `Hash::hash_slice` on `u64`, `finish`): a
/// hasher made by `new` has fixed keys, so the result depends on the words alone.
#[verifier::external_body]
pub(crate) fn hash_words(words: &Vec<u64>) -> (r: u64)
    ensures
        r == words_digest(words@),
{
    let mut hasher = std::collections::hash_map::DefaultHasher::new();
    std::hash::Hash::hash_slice(words.as_slice(), &mut hasher);
    std::hash::Hasher::finish(&hasher)
}

impl Signature {
    /// What `sign(digest, author)` is.
    pub open spec fn spec_sign(digest: u64, author: Author) -> Signature {
        Signature(words_digest(seq![digest, author.0 as u64]))
    }

    /// The signing oracle: signs `digest` on behalf of `author`.
    pub fn sign(digest: u64, author: Author) -> (r: Signature)
        ensures
            r == Signature::spec_sign(digest, author),
    {
        let words: Vec<u64> = vec![digest, author.0 as u64];
        Signature(hash_words(&words))
    }

    /// Whether this signature is the one `author` gives to `digest`.
    pub fn check(&self, digest: u64, author: Author) -> (r: bool)
        ensures
            r == (*self == Signature::spec_sign(digest, author)),
    {
        let expected = Signature::sign(digest, author);
        self.0 == expected.0
    }
}

} // verus!
