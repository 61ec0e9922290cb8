use anchor_lang::prelude::Pubkey;
use voting::address::{derive_vote_address, derive_voting_address, key_bytes, same_key, u64_le_bytes};
use voting::error::VotingError;
use voting::ledger::{initialize_voting, vote, InitializeVoting, Ledger, Vote};

const PROGRAM: [u8; 32] = [7u8; 32];
const AUTHORITY: [u8; 32] = [9u8; 32];
const P1: [u8; 32] = [1u8; 32];
const P2: [u8; 32] = [2u8; 32];

fn strings(items: &[&str]) -> Vec<String> {
    items.iter().map(|s| s.to_string()).collect()
}

fn topic_address(ledger: &Ledger, company_id: u64, voting_id: u64) -> [u8; 32] {
    derive_voting_address(&ledger.program_id(), company_id, voting_id).unwrap().0
}

fn ledger_with_topic(options: &[&str]) -> Ledger {
    let mut ledger = Ledger::new(PROGRAM);
    let ctx = InitializeVoting { authority: AUTHORITY };
    assert_eq!(initialize_voting(&mut ledger, &ctx, 1, 1, "Q".to_string(), strings(options)), Ok(()));
    ledger
}

fn tallies(ledger: &Ledger, company_id: u64, voting_id: u64) -> (Vec<u64>, u64) {
    let t = ledger.get_tally(&topic_address(ledger, company_id, voting_id)).unwrap();
    (t.votes.clone(), t.total_votes)
}

#[test]
fn scenario_single_vote_then_repeat_rejected() {
    let mut ledger = ledger_with_topic(&["Yes", "No"]);
    let topic = ledger.get_tally(&topic_address(&ledger, 1, 1)).unwrap();
    assert_eq!(topic.company_id, 1);
    assert_eq!(topic.voting_id, 1);
    assert_eq!(topic.question, "Q");
    assert_eq!(topic.options, strings(&["Yes", "No"]));
    assert_eq!(tallies(&ledger, 1, 1), (vec![0, 0], 0));

    assert_eq!(vote(&mut ledger, &Vote { voter: P1 }, 1, 1, 0), Ok(()));
    assert_eq!(tallies(&ledger, 1, 1), (vec![1, 0], 1));

    assert_eq!(vote(&mut ledger, &Vote { voter: P1 }, 1, 1, 1), Err(VotingError::AlreadyVoted));
    assert_eq!(tallies(&ledger, 1, 1), (vec![1, 0], 1));
}

#[test]
fn scenario_four_options_rejected() {
    let mut ledger = Ledger::new(PROGRAM);
    let ctx = InitializeVoting { authority: AUTHORITY };
    let r = initialize_voting(&mut ledger, &ctx, 1, 1, "Q".to_string(), strings(&["A", "B", "C", "D"]));
    assert_eq!(r, Err(VotingError::InvalidOptionsCount));
    let t = topic_address(&ledger, 1, 1);
    assert_eq!(ledger.get_tally(&t).err(), Some(VotingError::TopicNotFound));
}

#[test]
fn scenario_option_out_of_range() {
    let mut ledger = ledger_with_topic(&["Yes", "No"]);
    assert_eq!(vote(&mut ledger, &Vote { voter: P2 }, 1, 1, 5), Err(VotingError::InvalidOption));
    assert_eq!(tallies(&ledger, 1, 1), (vec![0, 0], 0));
    // The rejected attempt stored no vote: the participant can still vote.
    assert_eq!(vote(&mut ledger, &Vote { voter: P2 }, 1, 1, 1), Ok(()));
    assert_eq!(tallies(&ledger, 1, 1), (vec![0, 1], 1));
}

#[test]
fn scenario_same_vote_twice() {
    let mut ledger = ledger_with_topic(&["Yes", "No"]);
    let first = vote(&mut ledger, &Vote { voter: P1 }, 1, 1, 0);
    let second = vote(&mut ledger, &Vote { voter: P1 }, 1, 1, 0);
    assert_eq!(first, Ok(()));
    assert_eq!(second, Err(VotingError::AlreadyVoted));
    assert_eq!(tallies(&ledger, 1, 1), (vec![1, 0], 1));
}

#[test]
fn one_option_rejected() {
    let mut ledger = Ledger::new(PROGRAM);
    let ctx = InitializeVoting { authority: AUTHORITY };
    let r = initialize_voting(&mut ledger, &ctx, 3, 4, "Q".to_string(), strings(&["Only"]));
    assert_eq!(r, Err(VotingError::InvalidOptionsCount));
    let r = initialize_voting(&mut ledger, &ctx, 3, 4, "Q".to_string(), Vec::new());
    assert_eq!(r, Err(VotingError::InvalidOptionsCount));
    assert_eq!(ledger.get_tally(&topic_address(&ledger, 3, 4)).err(), Some(VotingError::TopicNotFound));
}

#[test]
fn three_options_accepted() {
    let ledger = ledger_with_topic(&["A", "B", "C"]);
    assert_eq!(tallies(&ledger, 1, 1), (vec![0, 0, 0], 0));
}

#[test]
fn reinitialize_rejected_and_unchanged() {
    let mut ledger = ledger_with_topic(&["Yes", "No"]);
    assert_eq!(vote(&mut ledger, &Vote { voter: P1 }, 1, 1, 1), Ok(()));
    let ctx = InitializeVoting { authority: AUTHORITY };
    let r = initialize_voting(&mut ledger, &ctx, 1, 1, "Other".to_string(), strings(&["A", "B", "C"]));
    assert_eq!(r, Err(VotingError::TopicAlreadyExists));
    // Even with an invalid number of options the taken address decides.
    let r = initialize_voting(&mut ledger, &ctx, 1, 1, "Other".to_string(), strings(&["A"]));
    assert_eq!(r, Err(VotingError::TopicAlreadyExists));
    let t = ledger.get_tally(&topic_address(&ledger, 1, 1)).unwrap();
    assert_eq!(t.question, "Q");
    assert_eq!(t.options, strings(&["Yes", "No"]));
    assert_eq!((t.votes.clone(), t.total_votes), (vec![0, 1], 1));
}

#[test]
fn vote_on_missing_topic() {
    let mut ledger = ledger_with_topic(&["Yes", "No"]);
    assert_eq!(vote(&mut ledger, &Vote { voter: P1 }, 1, 2, 0), Err(VotingError::TopicNotFound));
    assert_eq!(vote(&mut ledger, &Vote { voter: P1 }, 2, 1, 0), Err(VotingError::TopicNotFound));
    assert_eq!(tallies(&ledger, 1, 1), (vec![0, 0], 0));
}

#[test]
fn many_voters_keep_totals() {
    let mut ledger = ledger_with_topic(&["A", "B", "C"]);
    for i in 0..10u8 {
        let voter = [i + 100; 32];
        assert_eq!(vote(&mut ledger, &Vote { voter }, 1, 1, i % 3), Ok(()));
    }
    for i in 0..10u8 {
        let voter = [i + 100; 32];
        assert_eq!(vote(&mut ledger, &Vote { voter }, 1, 1, 0), Err(VotingError::AlreadyVoted));
    }
    let (votes, total) = tallies(&ledger, 1, 1);
    assert_eq!(votes, vec![4, 3, 3]);
    assert_eq!(total, 10);
    assert_eq!(votes.iter().sum::<u64>(), total);
}

#[test]
fn same_voter_on_two_topics() {
    let mut ledger = ledger_with_topic(&["Yes", "No"]);
    let ctx = InitializeVoting { authority: AUTHORITY };
    assert_eq!(initialize_voting(&mut ledger, &ctx, 1, 2, "R".to_string(), strings(&["x", "y"])), Ok(()));
    assert_eq!(vote(&mut ledger, &Vote { voter: P1 }, 1, 1, 0), Ok(()));
    assert_eq!(vote(&mut ledger, &Vote { voter: P1 }, 1, 2, 1), Ok(()));
    assert_eq!(tallies(&ledger, 1, 1), (vec![1, 0], 1));
    assert_eq!(tallies(&ledger, 1, 2), (vec![0, 1], 1));
}

#[test]
fn has_vote_follows_votes() {
    let mut ledger = ledger_with_topic(&["Yes", "No"]);
    let t = topic_address(&ledger, 1, 1);
    let w = derive_vote_address(&PROGRAM, &t, &P1).unwrap().0;
    assert!(!ledger.has_vote(&w));
    assert_eq!(vote(&mut ledger, &Vote { voter: P1 }, 1, 1, 0), Ok(()));
    assert!(ledger.has_vote(&w));
    let other = derive_vote_address(&PROGRAM, &t, &P2).unwrap().0;
    assert!(!ledger.has_vote(&other));
}

#[test]
fn voting_address_matches_program_derivation() {
    let (address, bump) = derive_voting_address(&PROGRAM, 1, 2).unwrap();
    let expected = Pubkey::find_program_address(
        &[b"voting", &1u64.to_le_bytes(), &2u64.to_le_bytes()],
        &Pubkey::new_from_array(PROGRAM),
    );
    assert_eq!(address, expected.0.to_bytes());
    assert_eq!(bump, expected.1);
    assert_ne!(address, PROGRAM);
}

#[test]
fn vote_address_matches_program_derivation() {
    let t = derive_voting_address(&PROGRAM, 1, 1).unwrap().0;
    let (address, bump) = derive_vote_address(&PROGRAM, &t, &P1).unwrap();
    let expected = Pubkey::find_program_address(&[b"vote", &t, &P1], &Pubkey::new_from_array(PROGRAM));
    assert_eq!(address, expected.0.to_bytes());
    assert_eq!(bump, expected.1);
    assert_ne!(address, t);
    assert_ne!(address, P1);
}

#[test]
fn derivation_is_deterministic_and_keyed() {
    let a = derive_voting_address(&PROGRAM, 5, 6).unwrap();
    assert_eq!(derive_voting_address(&PROGRAM, 5, 6).unwrap(), a);
    assert_ne!(derive_voting_address(&PROGRAM, 6, 5).unwrap().0, a.0);
    assert_ne!(derive_voting_address(&[8u8; 32], 5, 6).unwrap().0, a.0);
    let v1 = derive_vote_address(&PROGRAM, &a.0, &P1).unwrap().0;
    let v2 = derive_vote_address(&PROGRAM, &a.0, &P2).unwrap().0;
    assert_ne!(v1, v2);
}

#[test]
fn topics_are_per_program() {
    let mut ledger = Ledger::new([3u8; 32]);
    assert_eq!(ledger.program_id(), [3u8; 32]);
    let ctx = InitializeVoting { authority: AUTHORITY };
    assert_eq!(initialize_voting(&mut ledger, &ctx, 1, 1, "Q".to_string(), strings(&["a", "b"])), Ok(()));
    let elsewhere = derive_voting_address(&PROGRAM, 1, 1).unwrap().0;
    assert_eq!(ledger.get_tally(&elsewhere).err(), Some(VotingError::TopicNotFound));
}

#[test]
fn little_endian_bytes() {
    assert_eq!(u64_le_bytes(0x0102030405060708), vec![8, 7, 6, 5, 4, 3, 2, 1]);
    assert_eq!(u64_le_bytes(0), vec![0; 8]);
    assert_eq!(u64_le_bytes(u64::MAX), vec![255; 8]);
    assert_eq!(u64_le_bytes(300), 300u64.to_le_bytes().to_vec());
}

#[test]
fn key_helpers() {
    let mut k = [0u8; 32];
    for (i, b) in k.iter_mut().enumerate() {
        *b = i as u8;
    }
    assert_eq!(key_bytes(&k), k.to_vec());
    assert!(same_key(&k, &k.clone()));
    let mut other = k;
    other[31] = 200;
    assert!(!same_key(&k, &other));
}

#[test]
fn error_messages() {
    assert_eq!(VotingError::InvalidOptionsCount.message(), "Invalid number of options. Must be 2 or 3.");
    assert_eq!(VotingError::InvalidOption.message(), "Selected option does not exist.");
    assert_ne!(VotingError::AlreadyVoted.message(), VotingError::TopicNotFound.message());
}
