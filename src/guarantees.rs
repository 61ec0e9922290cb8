//! What holds of every sequence of operations on the ledger.
use vstd::prelude::*;

use crate::address::{program_address, vote_seeds, voting_seeds};
use crate::error::VotingError;
use crate::ledger::{initialize_outcome, sum, vote_outcome, Ledger, LedgerView, VotingView};

verus! {

/// The topic `company_id`, `voting_id` is stored in `l`.
pub open spec fn has_topic(l: LedgerView, company_id: u64, voting_id: u64) -> bool {
    match program_address(voting_seeds(company_id, voting_id), l.program_id) {
        Some(t) => l.votings.contains_key(t.0),
        None => false,
    }
}

/// A vote of `voter` on the topic `company_id`, `voting_id` is stored in `l`.
pub open spec fn has_voted(l: LedgerView, company_id: u64, voting_id: u64, voter: [u8; 32]) -> bool {
    match program_address(voting_seeds(company_id, voting_id), l.program_id) {
        Some(t) => match program_address(vote_seeds(t.0, voter@), l.program_id) {
            Some(w) => l.votes.contains_key(w.0),
            None => false,
        },
        None => false,
    }
}

/// Records are never removed: every topic and every vote stored before an
/// operation is still stored, unchanged in the case of a vote, after it.
pub open spec fn keeps_records(pre: LedgerView, post: LedgerView) -> bool {
    &&& post.program_id == pre.program_id
    &&& pre.votings.dom().subset_of(post.votings.dom())
    &&& pre.votes.submap_of(post.votes)
}

/// A topic is created only with two or three options: with any other number
/// the creation fails and the ledger is unchanged, with
/// `InvalidOptionsCount` where no topic is stored at the address yet.
pub proof fn topic_needs_two_or_three_options(
    pre: LedgerView,
    company_id: u64,
    voting_id: u64,
    question: Seq<char>,
    options: Seq<Seq<char>>,
    post: LedgerView,
    r: Result<(), VotingError>,
)
    requires
        initialize_outcome(pre, company_id, voting_id, question, options, post, r),
    ensures
        r is Ok ==> 2 <= options.len() <= 3 && has_topic(post, company_id, voting_id),
        !(2 <= options.len() <= 3) ==> r is Err && post == pre,
        !(2 <= options.len() <= 3) && !has_topic(pre, company_id, voting_id)
            && program_address(voting_seeds(company_id, voting_id), pre.program_id) is Some
            ==> r == Err::<(), VotingError>(VotingError::InvalidOptionsCount),
{
}

/// Creating a topic a second time fails with `TopicAlreadyExists`, whatever
/// the question and options, and leaves the ledger unchanged.
pub proof fn initialize_twice_fails(
    l0: LedgerView,
    company_id: u64,
    voting_id: u64,
    question1: Seq<char>,
    options1: Seq<Seq<char>>,
    l1: LedgerView,
    r1: Result<(), VotingError>,
    question2: Seq<char>,
    options2: Seq<Seq<char>>,
    l2: LedgerView,
    r2: Result<(), VotingError>,
)
    requires
        initialize_outcome(l0, company_id, voting_id, question1, options1, l1, r1),
        r1 is Ok,
        initialize_outcome(l1, company_id, voting_id, question2, options2, l2, r2),
    ensures
        r2 == Err::<(), VotingError>(VotingError::TopicAlreadyExists),
        l2 == l1,
{
}

/// Once a topic is stored, every later creation of it fails with
/// `TopicAlreadyExists` and leaves the ledger unchanged.
pub proof fn stored_topic_blocks_initialize(
    pre: LedgerView,
    company_id: u64,
    voting_id: u64,
    question: Seq<char>,
    options: Seq<Seq<char>>,
    post: LedgerView,
    r: Result<(), VotingError>,
)
    requires
        has_topic(pre, company_id, voting_id),
        initialize_outcome(pre, company_id, voting_id, question, options, post, r),
    ensures
        r == Err::<(), VotingError>(VotingError::TopicAlreadyExists),
        post == pre,
{
}

/// Creating a topic keeps every record.
pub proof fn initialize_keeps_records(
    pre: LedgerView,
    company_id: u64,
    voting_id: u64,
    question: Seq<char>,
    options: Seq<Seq<char>>,
    post: LedgerView,
    r: Result<(), VotingError>,
)
    requires
        initialize_outcome(pre, company_id, voting_id, question, options, post, r),
    ensures
        keeps_records(pre, post),
{
}

/// Casting a vote keeps every record.
pub proof fn vote_keeps_records(
    pre: LedgerView,
    company_id: u64,
    voting_id: u64,
    voter: [u8; 32],
    selected_option: u8,
    post: LedgerView,
    r: Result<(), VotingError>,
)
    requires
        vote_outcome(pre, company_id, voting_id, voter, selected_option, post, r),
    ensures
        keeps_records(pre, post),
{
}

/// Keeping every record keeps every topic.
pub proof fn kept_records_keep_topics(pre: LedgerView, post: LedgerView, company_id: u64, voting_id: u64)
    requires
        keeps_records(pre, post),
    ensures
        has_topic(pre, company_id, voting_id) ==> has_topic(post, company_id, voting_id),
{
}

/// Keeping every record keeps every vote of a participant.
pub proof fn kept_records_keep_votes(
    pre: LedgerView,
    post: LedgerView,
    company_id: u64,
    voting_id: u64,
    voter: [u8; 32],
)
    requires
        keeps_records(pre, post),
    ensures
        has_voted(pre, company_id, voting_id, voter) ==> has_voted(post, company_id, voting_id, voter),
{
}

/// A successful vote stores the participant's vote on the topic.
pub proof fn successful_vote_is_stored(
    pre: LedgerView,
    company_id: u64,
    voting_id: u64,
    voter: [u8; 32],
    selected_option: u8,
    post: LedgerView,
    r: Result<(), VotingError>,
)
    requires
        vote_outcome(pre, company_id, voting_id, voter, selected_option, post, r),
        r is Ok,
    ensures
        !has_voted(pre, company_id, voting_id, voter),
        has_voted(post, company_id, voting_id, voter),
{
}

/// Once a participant's vote on a topic is stored, every later vote of that
/// participant on that topic fails and leaves the ledger unchanged: with
/// `AlreadyVoted` for any option the topic has. With the two laws above, at
/// most one vote per participant and topic succeeds in any sequence of
/// operations.
pub proof fn stored_vote_blocks_vote(
    pre: LedgerView,
    company_id: u64,
    voting_id: u64,
    voter: [u8; 32],
    selected_option: u8,
    post: LedgerView,
    r: Result<(), VotingError>,
)
    requires
        has_voted(pre, company_id, voting_id, voter),
        has_topic(pre, company_id, voting_id),
        vote_outcome(pre, company_id, voting_id, voter, selected_option, post, r),
    ensures
        r is Err,
        post == pre,
        ({
            let t = program_address(voting_seeds(company_id, voting_id), pre.program_id)->Some_0.0;
            selected_option < pre.votings[t].options.len() ==> r == Err::<(), VotingError>(VotingError::AlreadyVoted)
        }),
{
}

/// Voting twice in a row for the same participant and topic: the second vote
/// fails and leaves the ledger unchanged.
pub proof fn vote_twice_fails(
    l0: LedgerView,
    company_id: u64,
    voting_id: u64,
    voter: [u8; 32],
    option1: u8,
    l1: LedgerView,
    r1: Result<(), VotingError>,
    option2: u8,
    l2: LedgerView,
    r2: Result<(), VotingError>,
)
    requires
        vote_outcome(l0, company_id, voting_id, voter, option1, l1, r1),
        r1 is Ok,
        vote_outcome(l1, company_id, voting_id, voter, option2, l2, r2),
    ensures
        r2 is Err,
        l2 == l1,
        ({
            let t = program_address(voting_seeds(company_id, voting_id), l1.program_id)->Some_0.0;
            option2 < l1.votings[t].options.len() ==> r2 == Err::<(), VotingError>(VotingError::AlreadyVoted)
        }),
{
}

/// A vote for an option that the topic does not have fails with
/// `InvalidOption` and leaves the ledger unchanged.
pub proof fn invalid_option_rejected(
    pre: LedgerView,
    company_id: u64,
    voting_id: u64,
    voter: [u8; 32],
    selected_option: u8,
    post: LedgerView,
    r: Result<(), VotingError>,
)
    requires
        has_topic(pre, company_id, voting_id),
        ({
            let t = program_address(voting_seeds(company_id, voting_id), pre.program_id)->Some_0.0;
            selected_option >= pre.votings[t].options.len()
        }),
        vote_outcome(pre, company_id, voting_id, voter, selected_option, post, r),
    ensures
        r == Err::<(), VotingError>(VotingError::InvalidOption),
        post == pre,
{
}

/// Creating a topic keeps every topic consistent: two or three options that
/// fit the record, one tally per option, and a total equal to the sum of the
/// tallies.
pub proof fn initialize_keeps_tallies_consistent(
    pre: LedgerView,
    company_id: u64,
    voting_id: u64,
    question: Seq<char>,
    options: Seq<Seq<char>>,
    post: LedgerView,
    r: Result<(), VotingError>,
)
    requires
        pre.consistent(),
        initialize_outcome(pre, company_id, voting_id, question, options, post, r),
    ensures
        post.consistent(),
{
    if r is Ok {
        crate::ledger::lemma_sum_zeros(options.len());
        assert(VotingView::fresh(company_id, voting_id, question, options).consistent());
    }
}

/// Casting a vote keeps every topic consistent.
pub proof fn vote_keeps_tallies_consistent(
    pre: LedgerView,
    company_id: u64,
    voting_id: u64,
    voter: [u8; 32],
    selected_option: u8,
    post: LedgerView,
    r: Result<(), VotingError>,
)
    requires
        pre.consistent(),
        vote_outcome(pre, company_id, voting_id, voter, selected_option, post, r),
    ensures
        post.consistent(),
{
    if r is Ok {
        let t = program_address(voting_seeds(company_id, voting_id), pre.program_id)->Some_0.0;
        let v = pre.votings[t];
        assert(v.consistent());
        crate::ledger::lemma_sum_bounds(v.votes, selected_option as int);
        crate::ledger::lemma_sum_increment(v.votes, selected_option as int);
        assert(v.tallied(selected_option as int).consistent());
    }
}

/// An operation on the ledger, as plain values.
pub enum Operation {
    Initialize { company_id: u64, voting_id: u64, question: Seq<char>, options: Seq<Seq<char>> },
    Cast { company_id: u64, voting_id: u64, voter: [u8; 32], selected_option: u8 },
}

/// On the ledger `pre`, the operation `op` gives the ledger `post` and the
/// result `r`.
pub open spec fn step(pre: LedgerView, op: Operation, post: LedgerView, r: Result<(), VotingError>) -> bool {
    match op {
        Operation::Initialize { company_id, voting_id, question, options } => initialize_outcome(
            pre,
            company_id,
            voting_id,
            question,
            options,
            post,
            r,
        ),
        Operation::Cast { company_id, voting_id, voter, selected_option } => vote_outcome(
            pre,
            company_id,
            voting_id,
            voter,
            selected_option,
            post,
            r,
        ),
    }
}

/// Applying `ops` in turn from `states[0]` passes through `states` and gives
/// `results`.
pub open spec fn run(states: Seq<LedgerView>, ops: Seq<Operation>, results: Seq<Result<(), VotingError>>) -> bool {
    &&& states.len() == ops.len() + 1
    &&& results.len() == ops.len()
    &&& forall|i: int| 0 <= i < ops.len() ==> step(#[trigger] states[i], ops[i], states[i + 1], results[i])
}

/// Every operation keeps every record.
pub proof fn step_keeps_records(pre: LedgerView, op: Operation, post: LedgerView, r: Result<(), VotingError>)
    requires
        step(pre, op, post, r),
    ensures
        keeps_records(pre, post),
{
}

/// Along a run, every record stored in one state is stored in every later one.
pub proof fn run_keeps_records(
    states: Seq<LedgerView>,
    ops: Seq<Operation>,
    results: Seq<Result<(), VotingError>>,
    from: int,
    to: int,
)
    requires
        run(states, ops, results),
        0 <= from <= to < states.len(),
    ensures
        keeps_records(states[from], states[to]),
    decreases to - from,
{
    if from < to {
        run_keeps_records(states, ops, results, from, to - 1);
        assert(step(states[to - 1], ops[to - 1], states[to], results[to - 1]));
        step_keeps_records(states[to - 1], ops[to - 1], states[to], results[to - 1]);
    }
}

/// In any run, at most one vote of a participant on a topic succeeds: after a
/// successful one, every later vote of that participant on that topic fails.
pub proof fn one_successful_vote_per_voter(
    states: Seq<LedgerView>,
    ops: Seq<Operation>,
    results: Seq<Result<(), VotingError>>,
    i: int,
    j: int,
)
    requires
        run(states, ops, results),
        0 <= i < j < ops.len(),
        ops[i] is Cast,
        ops[j] is Cast,
        ops[i]->Cast_company_id == ops[j]->Cast_company_id,
        ops[i]->Cast_voting_id == ops[j]->Cast_voting_id,
        ops[i]->Cast_voter == ops[j]->Cast_voter,
        results[i] is Ok,
    ensures
        results[j] is Err,
        states[j + 1] == states[j],
{
    let c = ops[i]->Cast_company_id;
    let v = ops[i]->Cast_voting_id;
    let voter = ops[i]->Cast_voter;
    assert(step(states[i], ops[i], states[i + 1], results[i]));
    assert(step(states[j], ops[j], states[j + 1], results[j]));
    successful_vote_is_stored(states[i], c, v, voter, ops[i]->Cast_selected_option, states[i + 1], results[i]);
    run_keeps_records(states, ops, results, i + 1, j);
    kept_records_keep_topics(states[i + 1], states[j], c, v);
    kept_records_keep_votes(states[i + 1], states[j], c, v, voter);
    assert(has_topic(states[i + 1], c, v));
    stored_vote_blocks_vote(states[j], c, v, voter, ops[j]->Cast_selected_option, states[j + 1], results[j]);
}

/// In any run, a topic is created at most once: after a successful creation,
/// every later creation of the same topic fails with `TopicAlreadyExists`.
pub proof fn one_successful_initialize_per_topic(
    states: Seq<LedgerView>,
    ops: Seq<Operation>,
    results: Seq<Result<(), VotingError>>,
    i: int,
    j: int,
)
    requires
        run(states, ops, results),
        0 <= i < j < ops.len(),
        ops[i] is Initialize,
        ops[j] is Initialize,
        ops[i]->Initialize_company_id == ops[j]->Initialize_company_id,
        ops[i]->Initialize_voting_id == ops[j]->Initialize_voting_id,
        results[i] is Ok,
    ensures
        results[j] == Err::<(), VotingError>(VotingError::TopicAlreadyExists),
        states[j + 1] == states[j],
{
    let c = ops[i]->Initialize_company_id;
    let v = ops[i]->Initialize_voting_id;
    assert(step(states[i], ops[i], states[i + 1], results[i]));
    assert(step(states[j], ops[j], states[j + 1], results[j]));
    assert(has_topic(states[i + 1], c, v));
    run_keeps_records(states, ops, results, i + 1, j);
    kept_records_keep_topics(states[i + 1], states[j], c, v);
}

/// Along a run that starts from a ledger whose topics are all consistent,
/// every state's topics are consistent: after any sequence of operations each
/// topic's total is the sum of its tallies, with one tally per option.
pub proof fn run_keeps_tallies_consistent(
    states: Seq<LedgerView>,
    ops: Seq<Operation>,
    results: Seq<Result<(), VotingError>>,
    k: int,
)
    requires
        run(states, ops, results),
        states[0].consistent(),
        0 <= k < states.len(),
    ensures
        states[k].consistent(),
    decreases k,
{
    if k > 0 {
        run_keeps_tallies_consistent(states, ops, results, k - 1);
        assert(step(states[k - 1], ops[k - 1], states[k], results[k - 1]));
        match ops[k - 1] {
            Operation::Initialize { company_id, voting_id, question, options } => {
                initialize_keeps_tallies_consistent(
                    states[k - 1],
                    company_id,
                    voting_id,
                    question,
                    options,
                    states[k],
                    results[k - 1],
                );
            },
            Operation::Cast { company_id, voting_id, voter, selected_option } => {
                vote_keeps_tallies_consistent(
                    states[k - 1],
                    company_id,
                    voting_id,
                    voter,
                    selected_option,
                    states[k],
                    results[k - 1],
                );
            },
        }
    }
}

/// In a well-formed ledger every topic is consistent.
pub proof fn tallies_match_totals(l: &Ledger)
    requires
        l.wf(),
    ensures
        forall|a: Seq<u8>| #[trigger] l@.votings.contains_key(a) ==> {
            &&& 2 <= l@.votings[a].options.len() <= 3
            &&& l@.votings[a].votes.len() == l@.votings[a].options.len()
            &&& l@.votings[a].total_votes == sum(l@.votings[a].votes)
        },
{
    l.lemma_consistent();
}

} // verus!
