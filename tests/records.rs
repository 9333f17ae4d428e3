use bft_simulator::base::{
    Author, BlockHash, Command, EpochId, QuorumCertificateHash, Round, Signature, State,
};
use bft_simulator::record::Record;
use bft_simulator::time::NodeTime;

fn sample_vote() -> Record {
    Record::make_vote(
        EpochId(1),
        Round(7),
        BlockHash(0xabcd),
        State(42),
        Author(3),
        Some(State(41)),
    )
}

#[test]
fn vote_round_trip() {
    let vote = sample_vote();
    let digest = vote.digest();
    assert_eq!(vote.signature(), Signature::sign(digest, vote.author()));
    assert!(vote.signature().check(digest, Author(3)));
    assert!(!vote.signature().check(digest, Author(4)));

    let mut changed = vote.clone();
    if let Record::Vote(v) = &mut changed {
        v.round = Round(8);
    }
    assert_ne!(changed.digest(), vote.digest());

    let mut resigned = vote.clone();
    if let Record::Vote(v) = &mut resigned {
        v.signature = Signature(12345);
    }
    assert_eq!(resigned.digest(), vote.digest());
    assert_ne!(resigned, vote);
}

#[test]
fn constructors_sign_their_digest() {
    let records = vec![
        Record::make_block(
            Command { proposer: Author(1), index: 5 },
            NodeTime(-3),
            QuorumCertificateHash(9),
            Round(2),
            Author(1),
        ),
        sample_vote(),
        Record::make_timeout(EpochId(1), Round(4), Round(3), Author(2)),
        Record::make_quorum_certificate(
            EpochId(1),
            Round(7),
            BlockHash(0xabcd),
            State(42),
            vec![(Author(0), Signature(1)), (Author(1), Signature(2))],
            None,
            Author(0),
        ),
    ];
    for r in &records {
        assert_eq!(r.signature(), Signature::sign(r.digest(), r.author()));
        assert_ne!(r.signature(), Signature(0));
    }
    let authors: Vec<usize> = records.iter().map(|r| r.author().0).collect();
    assert_eq!(authors, vec![1, 3, 2, 0]);
}

#[test]
fn timeout_digest_skips_highest_certified_round() {
    let a = Record::make_timeout(EpochId(1), Round(4), Round(3), Author(2));
    let b = Record::make_timeout(EpochId(1), Round(4), Round(1), Author(2));
    assert_eq!(a.digest(), b.digest());
    assert_eq!(a.signature(), b.signature());
    assert_ne!(a, b);
    let c = Record::make_timeout(EpochId(1), Round(5), Round(3), Author(2));
    assert_ne!(a.digest(), c.digest());
}

#[test]
fn quorum_certificate_digest_covers_votes() {
    let make = |votes: Vec<(Author, Signature)>| {
        Record::make_quorum_certificate(
            EpochId(1),
            Round(7),
            BlockHash(1),
            State(2),
            votes,
            Some(State(1)),
            Author(0),
        )
    };
    let a = make(vec![(Author(0), Signature(1))]);
    let b = make(vec![(Author(0), Signature(2))]);
    let c = make(vec![]);
    assert_ne!(a.digest(), b.digest());
    assert_ne!(a.digest(), c.digest());
    assert_eq!(a.digest(), make(vec![(Author(0), Signature(1))]).digest());
}

#[test]
fn committed_state_is_hashed() {
    let a = Record::make_vote(EpochId(1), Round(1), BlockHash(1), State(1), Author(0), None);
    let b = Record::make_vote(EpochId(1), Round(1), BlockHash(1), State(1), Author(0), Some(State(0)));
    assert_ne!(a.digest(), b.digest());
}

#[test]
fn signing_depends_on_digest_and_author() {
    let s = Signature::sign(10, Author(0));
    assert_eq!(s, Signature::sign(10, Author(0)));
    assert_ne!(s, Signature::sign(11, Author(0)));
    assert_ne!(s, Signature::sign(10, Author(1)));
    assert_ne!(s, Signature(10));
}

#[test]
fn every_block_field_changes_the_digest() {
    let make = |proposer: usize, index: u64, time: i64, qc: u64, round: u64, author: usize| {
        Record::make_block(
            Command { proposer: Author(proposer), index },
            NodeTime(time),
            QuorumCertificateHash(qc),
            Round(round),
            Author(author),
        )
    };
    let base = make(1, 2, -3, 4, 5, 6);
    let variants = vec![
        make(9, 2, -3, 4, 5, 6),
        make(1, 9, -3, 4, 5, 6),
        make(1, 2, 3, 4, 5, 6),
        make(1, 2, -3, 9, 5, 6),
        make(1, 2, -3, 4, 9, 6),
        make(1, 2, -3, 4, 5, 9),
    ];
    for v in &variants {
        assert_ne!(v.digest(), base.digest());
    }
    assert_eq!(make(1, 2, -3, 4, 5, 6).digest(), base.digest());
}
