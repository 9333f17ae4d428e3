use vstd::prelude::*;

use crate::base::{
    hash_words, words_digest, Author, BlockHash, Command, EpochId, QuorumCertificateHash, Round,
    Signature, State,
};
use crate::time::NodeTime;

verus! {

/// A record read from the network.
#[derive(Clone, Debug, PartialEq, Eq, PartialOrd, Ord, Hash)]
pub enum Record {
    /// Proposed block, containing a command.
    Block(Block),
    /// A single vote on a proposed block and its execution state.
    Vote(Vote),
    /// A quorum of votes related to a given block and execution state.
    QuorumCertificate(QuorumCertificate),
    /// A signal that a round of an epoch has reached a timeout.
    Timeout(Timeout),
}

#[derive(Clone, Debug, PartialEq, Eq, PartialOrd, Ord, Hash)]
pub struct Block {
    /// Command to execute in the state machine.
    pub command: Command,
    /// Time proposed for command execution.
    pub time: NodeTime,
    /// Hash of the quorum certificate of the previous block.
    pub previous_quorum_certificate_hash: QuorumCertificateHash,
    /// Number used to identify repeated attempts to propose a block.
    pub round: Round,
    /// Creator of the block.
    pub author: Author,
    /// Signs the digest of the block, that is, all the fields above.
    pub signature: Signature,
}

#[derive(Clone, Debug, PartialEq, Eq, PartialOrd, Ord, Hash)]
pub struct Vote {
    /// The current epoch.
    pub epoch_id: EpochId,
    /// The round of the voted block.
    pub round: Round,
    /// Hash of the certified block.
    pub certified_block_hash: BlockHash,
    /// Execution state.
    pub state: State,
    /// Execution state of the ancestor block (if any) that will match
    /// the commit rule when a quorum certificate is formed at this round.
    pub committed_state: Option<State>,
    /// Creator of the vote.
    pub author: Author,
    /// Signs the digest of the vote, that is, all the fields above.
    pub signature: Signature,
}

#[derive(Clone, Debug, PartialEq, Eq, PartialOrd, Ord, Hash)]
pub struct QuorumCertificate {
    /// The current epoch.
    pub epoch_id: EpochId,
    /// The round of the certified block.
    pub round: Round,
    /// Hash of the certified block.
    pub certified_block_hash: BlockHash,
    /// Execution state.
    pub state: State,
    /// Execution state of the ancestor block (if any) that matches
    /// the commit rule thanks to this certificate.
    pub committed_state: Option<State>,
    /// The votes sharing the fields above.
    pub votes: Vec<(Author, Signature)>,
    /// The leader who proposed the certified block also signs the certificate.
    pub author: Author,
    /// Signs the digest of the certificate, that is, all the fields above.
    pub signature: Signature,
}

#[derive(Clone, Debug, PartialEq, Eq, PartialOrd, Ord, Hash)]
pub struct Timeout {
    /// The current epoch.
    pub epoch_id: EpochId,
    /// The round that has timed out.
    pub round: Round,
    /// Round of the highest block with a quorum certificate. It is not part of the digest,
    /// so that timeouts of one author for one round share their digest and signature.
    pub highest_certified_block_round: Round,
    /// Creator of the timeout.
    pub author: Author,
    /// Signs the digest of the timeout, that is, its epoch, round and author.
    pub signature: Signature,
}

/// Words of an optional state: a presence word, then the state or zero.
pub open spec fn option_words(s: Option<State>) -> Seq<u64> {
    match s {
        Some(x) => seq![1u64, x.0],
        None => seq![0u64, 0u64],
    }
}

/// Words of a list of votes: author and signature of each, in order.
pub open spec fn votes_words(votes: Seq<(Author, Signature)>) -> Seq<u64>
    decreases votes.len(),
{
    if votes.len() == 0 {
        Seq::empty()
    } else {
        let last = votes.last();
        votes_words(votes.drop_last()) + seq![last.0.0 as u64, last.1.0]
    }
}

impl Record {
    /// The words that the digest of a record hashes: a word for the variant, then every
    /// field but the signature (and, for a timeout, but the highest certified round).
    pub open spec fn hashed_words(&self) -> Seq<u64> {
        match self {
            Record::Block(b) => seq![
                0u64,
                b.command.proposer.0 as u64,
                b.command.index,
                b.time.0 as u64,
                b.previous_quorum_certificate_hash.0,
                b.round.0,
                b.author.0 as u64,
            ],
            Record::Vote(v) => seq![1u64, v.epoch_id.0, v.round.0, v.certified_block_hash.0, v.state.0]
                + option_words(v.committed_state) + seq![v.author.0 as u64],
            Record::QuorumCertificate(q) => seq![
                2u64,
                q.epoch_id.0,
                q.round.0,
                q.certified_block_hash.0,
                q.state.0,
            ] + option_words(q.committed_state) + seq![q.votes@.len() as u64] + votes_words(q.votes@)
                + seq![q.author.0 as u64],
            Record::Timeout(t) => seq![3u64, t.epoch_id.0, t.round.0, t.author.0 as u64],
        }
    }

    /// The 64-bit digest of a record.
    pub open spec fn spec_digest(&self) -> u64 {
        words_digest(self.hashed_words())
    }

    /// The author of a record.
    pub open spec fn spec_author(&self) -> Author {
        match self {
            Record::Block(x) => x.author,
            Record::Vote(x) => x.author,
            Record::QuorumCertificate(x) => x.author,
            Record::Timeout(x) => x.author,
        }
    }

    /// The signature of a record.
    pub open spec fn spec_signature(&self) -> Signature {
        match self {
            Record::Block(x) => x.signature,
            Record::Vote(x) => x.signature,
            Record::QuorumCertificate(x) => x.signature,
            Record::Timeout(x) => x.signature,
        }
    }

    /// The same record with its signature replaced by `s`.
    pub open spec fn with_signature(self, s: Signature) -> Record {
        match self {
            Record::Block(x) => Record::Block(Block { signature: s, ..x }),
            Record::Vote(x) => Record::Vote(Vote { signature: s, ..x }),
            Record::QuorumCertificate(x) => Record::QuorumCertificate(
                QuorumCertificate { signature: s, ..x },
            ),
            Record::Timeout(x) => Record::Timeout(Timeout { signature: s, ..x }),
        }
    }

    /// Whether two records are of one variant and agree on every field that the digest
    /// hashes.
    pub open spec fn same_hashed_fields(&self, other: Record) -> bool {
        match (*self, other) {
            (Record::Block(x), Record::Block(y)) => x.command == y.command && x.time == y.time
                && x.previous_quorum_certificate_hash == y.previous_quorum_certificate_hash
                && x.round == y.round && x.author == y.author,
            (Record::Vote(x), Record::Vote(y)) => x.epoch_id == y.epoch_id && x.round == y.round
                && x.certified_block_hash == y.certified_block_hash && x.state == y.state
                && x.committed_state == y.committed_state && x.author == y.author,
            (Record::QuorumCertificate(x), Record::QuorumCertificate(y)) => x.epoch_id
                == y.epoch_id && x.round == y.round && x.certified_block_hash
                == y.certified_block_hash && x.state == y.state && x.committed_state
                == y.committed_state && x.votes@ == y.votes@ && x.author == y.author,
            (Record::Timeout(x), Record::Timeout(y)) => x.epoch_id == y.epoch_id && x.round
                == y.round && x.author == y.author,
            _ => false,
        }
    }

    /// Whether the signature of a record is the one its author gives to its digest.
    pub open spec fn is_signed(&self) -> bool {
        self.spec_signature() == Signature::spec_sign(self.spec_digest(), self.spec_author())
    }

    /// The words hashed by the digest.
    fn words(&self) -> (r: Vec<u64>)
        ensures
            r@ == self.hashed_words(),
    {
        match self {
            Record::Block(b) => {
                let r: Vec<u64> = vec![
                    0u64,
                    b.command.proposer.0 as u64,
                    b.command.index,
                    b.time.0 as u64,
                    b.previous_quorum_certificate_hash.0,
                    b.round.0,
                    b.author.0 as u64,
                ];
                assert(r@ =~= self.hashed_words());
                r
            },
            Record::Vote(v) => {
                let mut r: Vec<u64> = vec![1u64, v.epoch_id.0, v.round.0, v.certified_block_hash.0, v.state.0];
                push_option(&mut r, v.committed_state);
                r.push(v.author.0 as u64);
                assert(r@ =~= self.hashed_words());
                r
            },
            Record::QuorumCertificate(q) => {
                let mut r: Vec<u64> = vec![2u64, q.epoch_id.0, q.round.0, q.certified_block_hash.0, q.state.0];
                push_option(&mut r, q.committed_state);
                r.push(q.votes.len() as u64);
                let ghost prefix = r@;
                let mut i: usize = 0;
                while i < q.votes.len()
                    invariant
                        i <= q.votes@.len(),
                        r@ == prefix + votes_words(q.votes@.take(i as int)),
                    decreases q.votes@.len() - i,
                {
                    let ghost before = r@;
                    let (a, s) = q.votes[i];
                    r.push(a.0 as u64);
                    r.push(s.0);
                    proof {
                        assert(q.votes@.take(i + 1).drop_last() =~= q.votes@.take(i as int));
                        assert(r@ =~= before + seq![a.0 as u64, s.0]);
                    }
                    i = i + 1;
                }
                assert(q.votes@.take(q.votes@.len() as int) =~= q.votes@);
                r.push(q.author.0 as u64);
                assert(r@ =~= self.hashed_words());
                r
            },
            Record::Timeout(t) => {
                let r: Vec<u64> = vec![3u64, t.epoch_id.0, t.round.0, t.author.0 as u64];
                assert(r@ =~= self.hashed_words());
                r
            },
        }
    }

    /// The 64-bit digest of a record: every field but the signature is hashed.
    pub fn digest(&self) -> (r: u64)
        ensures
            r == self.spec_digest(),
    {
        let words = self.words();
        hash_words(&words)
    }

    /// The author of a record.
    pub fn author(&self) -> (r: Author)
        ensures
            r == self.spec_author(),
    {
        match self {
            Record::Block(x) => x.author,
            Record::Vote(x) => x.author,
            Record::QuorumCertificate(x) => x.author,
            Record::Timeout(x) => x.author,
        }
    }

    /// The signature of a record.
    pub fn signature(&self) -> (r: Signature)
        ensures
            r == self.spec_signature(),
    {
        match self {
            Record::Block(x) => x.signature,
            Record::Vote(x) => x.signature,
            Record::QuorumCertificate(x) => x.signature,
            Record::Timeout(x) => x.signature,
        }
    }

    /// The same record, signed by `signature`.
    fn set_signature(self, signature: Signature) -> (r: Record)
        ensures
            r == self.with_signature(signature),
    {
        match self {
            Record::Block(x) => Record::Block(Block { signature, ..x }),
            Record::Vote(x) => Record::Vote(Vote { signature, ..x }),
            Record::QuorumCertificate(x) => Record::QuorumCertificate(
                QuorumCertificate { signature, ..x },
            ),
            Record::Timeout(x) => Record::Timeout(Timeout { signature, ..x }),
        }
    }

    /// Signs an unsigned record: its digest, taken with the signature at zero, is signed
    /// by its author.
    fn seal(self) -> (r: Record)
        ensures
            r == self.with_signature(Signature::spec_sign(self.spec_digest(), self.spec_author())),
            r.is_signed(),
    {
        let hash = self.digest();
        let author = self.author();
        let signature = Signature::sign(hash, author);
        let r = self.set_signature(signature);
        assert(r.hashed_words() =~= self.hashed_words());
        r
    }

    /// A signed block.
    pub fn make_block(
        command: Command,
        time: NodeTime,
        previous_quorum_certificate_hash: QuorumCertificateHash,
        round: Round,
        author: Author,
    ) -> (r: Record)
        ensures
            r == (Record::Block(Block {
                command,
                time,
                previous_quorum_certificate_hash,
                round,
                author,
                signature: r.spec_signature(),
            })),
            r.is_signed(),
    {
        let value = Record::Block(Block {
            command,
            time,
            previous_quorum_certificate_hash,
            round,
            author,
            signature: Signature(0),
        });
        value.seal()
    }

    /// A signed vote.
    pub fn make_vote(
        epoch_id: EpochId,
        round: Round,
        certified_block_hash: BlockHash,
        state: State,
        author: Author,
        committed_state: Option<State>,
    ) -> (r: Record)
        ensures
            r == (Record::Vote(Vote {
                epoch_id,
                round,
                certified_block_hash,
                state,
                committed_state,
                author,
                signature: r.spec_signature(),
            })),
            r.is_signed(),
    {
        let value = Record::Vote(Vote {
            epoch_id,
            round,
            certified_block_hash,
            state,
            committed_state,
            author,
            signature: Signature(0),
        });
        value.seal()
    }

    /// A signed timeout.
    pub fn make_timeout(
        epoch_id: EpochId,
        round: Round,
        highest_certified_block_round: Round,
        author: Author,
    ) -> (r: Record)
        ensures
            r == (Record::Timeout(Timeout {
                epoch_id,
                round,
                highest_certified_block_round,
                author,
                signature: r.spec_signature(),
            })),
            r.is_signed(),
    {
        let value = Record::Timeout(Timeout {
            epoch_id,
            round,
            highest_certified_block_round,
            author,
            signature: Signature(0),
        });
        value.seal()
    }

    /// A signed quorum certificate.
    pub fn make_quorum_certificate(
        epoch_id: EpochId,
        round: Round,
        certified_block_hash: BlockHash,
        state: State,
        votes: Vec<(Author, Signature)>,
        committed_state: Option<State>,
        author: Author,
    ) -> (r: Record)
        ensures
            r == (Record::QuorumCertificate(QuorumCertificate {
                epoch_id,
                round,
                certified_block_hash,
                state,
                committed_state,
                votes,
                author,
                signature: r.spec_signature(),
            })),
            r.is_signed(),
    {
        let value = Record::QuorumCertificate(QuorumCertificate {
            epoch_id,
            round,
            certified_block_hash,
            state,
            committed_state,
            votes,
            author,
            signature: Signature(0),
        });
        value.seal()
    }
}

/// The digest of a record does not depend on its signature: signing a record leaves its
/// digest as it was.
pub proof fn lemma_digest_ignores_signature(r: Record, s: Signature)
    ensures
        r.with_signature(s).spec_digest() == r.spec_digest(),
{
    assert(r.with_signature(s).hashed_words() =~= r.hashed_words());
}

/// Two records with the same hashed words agree on every hashed field: the words differ
/// whenever a field other than the signature (or a timeout's highest certified round)
/// differs.
pub proof fn lemma_hashed_words_determine_fields(a: Record, b: Record)
    requires
        a.hashed_words() == b.hashed_words(),
    ensures
        a.same_hashed_fields(b),
{
    let (wa, wb) = (a.hashed_words(), b.hashed_words());
    assert(wa[0] == wb[0]);
    match (a, b) {
        (Record::Block(x), Record::Block(y)) => {
            assert(wa[1] == wb[1] && wa[3] == wb[3] && wa[6] == wb[6]);
            lemma_usize_word_injective(x.command.proposer.0, y.command.proposer.0);
            lemma_usize_word_injective(x.author.0, y.author.0);
            lemma_i64_word_injective(x.time.0, y.time.0);
            assert(wa[2] == wb[2] && wa[4] == wb[4] && wa[5] == wb[5]);
        },
        (Record::Vote(x), Record::Vote(y)) => {
            assert(wa[1] == wb[1] && wa[2] == wb[2] && wa[3] == wb[3] && wa[4] == wb[4]);
            assert(wa[5] == wb[5] && wa[6] == wb[6] && wa[7] == wb[7]);
            lemma_usize_word_injective(x.author.0, y.author.0);
        },
        (Record::QuorumCertificate(x), Record::QuorumCertificate(y)) => {
            assert(wa[1] == wb[1] && wa[2] == wb[2] && wa[3] == wb[3] && wa[4] == wb[4]);
            assert(wa[5] == wb[5] && wa[6] == wb[6] && wa[7] == wb[7]);
            lemma_votes_words_len(x.votes@);
            lemma_votes_words_len(y.votes@);
            assert(wa.len() == 9 + 2 * x.votes@.len());
            assert(wb.len() == 9 + 2 * y.votes@.len());
            assert(x.votes@.len() == y.votes@.len());
            assert(wa.last() == wb.last());
            lemma_usize_word_injective(x.author.0, y.author.0);
            let (vx, vy) = (votes_words(x.votes@), votes_words(y.votes@));
            assert(vx =~= wa.subrange(8, 8 + vx.len() as int));
            assert(vy =~= wb.subrange(8, 8 + vy.len() as int));
            lemma_votes_words_injective(x.votes@, y.votes@);
        },
        (Record::Timeout(x), Record::Timeout(y)) => {
            assert(wa[1] == wb[1] && wa[2] == wb[2] && wa[3] == wb[3]);
            lemma_usize_word_injective(x.author.0, y.author.0);
        },
        _ => {},
    }
}

proof fn lemma_usize_word_injective(x: usize, y: usize)
    requires
        x as u64 == y as u64,
    ensures
        x == y,
{
}

proof fn lemma_i64_word_injective(x: i64, y: i64)
    requires
        x as u64 == y as u64,
    ensures
        x == y,
{
    assert(x as u64 == y as u64 ==> x == y) by (bit_vector);
}

proof fn lemma_votes_words_len(votes: Seq<(Author, Signature)>)
    ensures
        votes_words(votes).len() == 2 * votes.len(),
        forall|i: int|
            0 <= i < votes.len() ==> votes_words(votes)[2 * i] == votes[i].0.0 as u64
                && votes_words(votes)[2 * i + 1] == votes[i].1.0,
    decreases votes.len(),
{
    if votes.len() > 0 {
        lemma_votes_words_len(votes.drop_last());
        assert forall|i: int| 0 <= i < votes.len() implies votes_words(votes)[2 * i]
            == votes[i].0.0 as u64 && votes_words(votes)[2 * i + 1] == votes[i].1.0 by {
            if i < votes.len() - 1 {
                assert(votes.drop_last()[i] == votes[i]);
            }
        }
    }
}

proof fn lemma_votes_words_injective(a: Seq<(Author, Signature)>, b: Seq<(Author, Signature)>)
    requires
        a.len() == b.len(),
        votes_words(a) == votes_words(b),
    ensures
        a == b,
{
    lemma_votes_words_len(a);
    lemma_votes_words_len(b);
    assert forall|i: int| 0 <= i < a.len() implies a[i] == b[i] by {
        assert(votes_words(a)[2 * i] == votes_words(b)[2 * i]);
        assert(votes_words(a)[2 * i + 1] == votes_words(b)[2 * i + 1]);
        lemma_usize_word_injective(a[i].0.0, b[i].0.0);
    }
    assert(a =~= b);
}

fn push_option(r: &mut Vec<u64>, s: Option<State>)
    ensures
        final(r)@ == old(r)@ + option_words(s),
{
    match s {
        Some(x) => {
            r.push(1u64);
            r.push(x.0);
        },
        None => {
            r.push(0u64);
            r.push(0u64);
        },
    }
    assert(r@ =~= old(r)@ + option_words(s));
}

} // verus!
