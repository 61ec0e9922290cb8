//! The ledger of topics and votes, keyed by derived addresses.
//!
//! The ledger stores each record at its derived address and refuses to create
//! a record at an address that is taken: that refusal is what allows one topic
//! per pair of identifiers and one vote per participant and topic.
use vstd::prelude::*;

use crate::address::{derive_vote_address, derive_voting_address, program_address, vote_seeds, voting_seeds};
use crate::error::VotingError;
use vstd::utf8::encode_utf8;

verus! {

/// A topic: a question with its answer options and their tallies.
pub struct VotingAccount {
    pub company_id: u64,
    pub voting_id: u64,
    pub question: String,
    pub options: Vec<String>,
    /// The number of votes for each option, in the order of `options`.
    pub votes: Vec<u64>,
    pub total_votes: u64,
}

/// A topic as plain values.
pub struct VotingView {
    pub company_id: u64,
    pub voting_id: u64,
    pub question: Seq<char>,
    pub options: Seq<Seq<char>>,
    pub votes: Seq<u64>,
    pub total_votes: u64,
}

/// The most bytes a question may take in a topic's record.
pub const MAX_QUESTION_LEN: usize = 256;

/// The most bytes an option may take in a topic's record.
pub const MAX_OPTION_LEN: usize = 64;

/// The question and every option fit the space a topic's record has for them,
/// counted in UTF-8 bytes.
pub open spec fn text_fits(question: Seq<char>, options: Seq<Seq<char>>) -> bool {
    &&& encode_utf8(question).len() <= MAX_QUESTION_LEN
    &&& forall|i: int| 0 <= i < options.len() ==> #[trigger] encode_utf8(options[i]).len() <= MAX_OPTION_LEN
}

/// The option texts of `options`.
pub open spec fn options_view(options: Seq<String>) -> Seq<Seq<char>> {
    options.map_values(|o: String| o@)
}

impl View for VotingAccount {
    type V = VotingView;

    open spec fn view(&self) -> VotingView {
        VotingView {
            company_id: self.company_id,
            voting_id: self.voting_id,
            question: self.question@,
            options: options_view(self.options@),
            votes: self.votes@,
            total_votes: self.total_votes,
        }
    }
}

/// The sum of a sequence of counters.
pub open spec fn sum(s: Seq<u64>) -> int
    decreases s.len(),
{
    if s.len() == 0 {
        0
    } else {
        sum(s.drop_last()) + s.last()
    }
}

impl VotingView {
    /// Two or three options, a question and options that fit the record, one
    /// tally per option, and a total that is the sum of the tallies.
    pub open spec fn consistent(self) -> bool {
        &&& 2 <= self.options.len() <= 3
        &&& text_fits(self.question, self.options)
        &&& self.votes.len() == self.options.len()
        &&& self.total_votes == sum(self.votes)
    }

    /// A new topic, with no votes yet.
    pub open spec fn fresh(company_id: u64, voting_id: u64, question: Seq<char>, options: Seq<Seq<char>>) -> VotingView {
        VotingView {
            company_id,
            voting_id,
            question,
            options,
            votes: Seq::new(options.len(), |i: int| 0u64),
            total_votes: 0,
        }
    }

    /// This topic with one more vote for `option`.
    pub open spec fn tallied(self, option: int) -> VotingView {
        VotingView {
            votes: self.votes.update(option, (self.votes[option] + 1) as u64),
            total_votes: (self.total_votes + 1) as u64,
            ..self
        }
    }
}

/// A vote: who cast it and for which option.
#[derive(Debug, Clone, Copy)]
pub struct VoteAccount {
    pub voter: [u8; 32],
    pub selected_option: u8,
}

/// The signer that creates a topic and pays for its storage.
pub struct InitializeVoting {
    pub authority: [u8; 32],
}

/// The signer that casts a vote.
pub struct Vote {
    pub voter: [u8; 32],
}

/// The map from each key to its value, for entries with distinct keys.
pub open spec fn keyed<V>(s: Seq<(Seq<u8>, V)>) -> Map<Seq<u8>, V>
    decreases s.len(),
{
    if s.len() == 0 {
        Map::empty()
    } else {
        keyed(s.drop_last()).insert(s.last().0, s.last().1)
    }
}

/// No two entries share a key.
pub open spec fn distinct_keys<V>(s: Seq<(Seq<u8>, V)>) -> bool {
    forall|i: int, j: int| 0 <= i < j < s.len() ==> s[i].0 != s[j].0
}

proof fn lemma_keyed_push<V>(s: Seq<(Seq<u8>, V)>, k: Seq<u8>, v: V)
    ensures
        keyed(s.push((k, v))) == keyed(s).insert(k, v),
{
    assert(s.push((k, v)).drop_last() == s);
}

proof fn lemma_keyed_contains<V>(s: Seq<(Seq<u8>, V)>, k: Seq<u8>)
    requires
        distinct_keys(s),
    ensures
        keyed(s).contains_key(k) <==> exists|i: int| 0 <= i < s.len() && s[i].0 == k,
        forall|i: int| 0 <= i < s.len() && s[i].0 == k ==> keyed(s)[k] == s[i].1,
    decreases s.len(),
{
    if s.len() > 0 {
        let t = s.drop_last();
        let n = s.len() - 1;
        assert(distinct_keys(t));
        lemma_keyed_contains(t, k);
        assert forall|i: int| 0 <= i < s.len() && s[i].0 == k implies keyed(s)[k] == s[i].1 by {
            if i < n {
                assert(t[i] == s[i]);
                assert(s[i].0 != s[n].0);
            }
        }
        if k == s[n].0 {
            assert(keyed(s).contains_key(k));
        } else {
            if keyed(s).contains_key(k) {
                let i = choose|i: int| 0 <= i < t.len() && t[i].0 == k;
                assert(s[i] == t[i]);
            }
            if exists|i: int| 0 <= i < s.len() && s[i].0 == k {
                let i = choose|i: int| 0 <= i < s.len() && s[i].0 == k;
                assert(t[i] == s[i]);
            }
        }
    }
}

proof fn lemma_keyed_update<V>(s: Seq<(Seq<u8>, V)>, i: int, v: V)
    requires
        distinct_keys(s),
        0 <= i < s.len(),
    ensures
        keyed(s.update(i, (s[i].0, v))) == keyed(s).insert(s[i].0, v),
    decreases s.len(),
{
    let u = s.update(i, (s[i].0, v));
    if i == s.len() - 1 {
        assert(u.drop_last() == s.drop_last());
    } else {
        let t = s.drop_last();
        assert(distinct_keys(t));
        assert(u.drop_last() == t.update(i, (t[i].0, v)));
        lemma_keyed_update(t, i, v);
        assert(s.last().0 != s[i].0);
        assert(keyed(u) == keyed(s).insert(s[i].0, v));
    }
}

pub(crate) proof fn lemma_sum_zeros(n: nat)
    ensures
        sum(Seq::new(n, |i: int| 0u64)) == 0,
    decreases n,
{
    if n > 0 {
        assert(Seq::new(n, |i: int| 0u64).drop_last() == Seq::new((n - 1) as nat, |i: int| 0u64));
        lemma_sum_zeros((n - 1) as nat);
    }
}

pub(crate) proof fn lemma_sum_bounds(s: Seq<u64>, i: int)
    requires
        0 <= i < s.len(),
    ensures
        s[i] <= sum(s),
    decreases s.len(),
{
    if i < s.len() - 1 {
        lemma_sum_bounds(s.drop_last(), i);
        lemma_sum_nonneg(s.drop_last());
    } else {
        lemma_sum_nonneg(s.drop_last());
    }
}

proof fn lemma_sum_nonneg(s: Seq<u64>)
    ensures
        sum(s) >= 0,
    decreases s.len(),
{
    if s.len() > 0 {
        lemma_sum_nonneg(s.drop_last());
    }
}

pub(crate) proof fn lemma_sum_increment(s: Seq<u64>, i: int)
    requires
        0 <= i < s.len(),
        s[i] < u64::MAX,
    ensures
        sum(s.update(i, (s[i] + 1) as u64)) == sum(s) + 1,
    decreases s.len(),
{
    let u = s.update(i, (s[i] + 1) as u64);
    if i == s.len() - 1 {
        assert(u.drop_last() == s.drop_last());
    } else {
        assert(u.drop_last() == s.drop_last().update(i, (s[i] + 1) as u64));
        lemma_sum_increment(s.drop_last(), i);
    }
}

/// The ledger as plain values: the program id that addresses are derived
/// under, the topic stored at each address, and the vote stored at each
/// address.
pub struct LedgerView {
    pub program_id: Seq<u8>,
    pub votings: Map<Seq<u8>, VotingView>,
    pub votes: Map<Seq<u8>, VoteAccount>,
}

impl LedgerView {
    /// Every stored topic is consistent.
    pub open spec fn consistent(self) -> bool {
        forall|a: Seq<u8>| #[trigger] self.votings.contains_key(a) ==> self.votings[a].consistent()
    }
}

/// Storage for topics and votes under one program id, with at most one
/// record at each address.
pub struct Ledger {
    program_id: [u8; 32],
    votings: Vec<([u8; 32], VotingAccount)>,
    votes: Vec<([u8; 32], VoteAccount)>,
}

/// The stored topics as pairs of address and topic.
pub open spec fn voting_entries(s: Seq<([u8; 32], VotingAccount)>) -> Seq<(Seq<u8>, VotingView)> {
    s.map_values(|e: ([u8; 32], VotingAccount)| (e.0@, e.1@))
}

/// The stored votes as pairs of address and vote.
pub open spec fn vote_entries(s: Seq<([u8; 32], VoteAccount)>) -> Seq<(Seq<u8>, VoteAccount)> {
    s.map_values(|e: ([u8; 32], VoteAccount)| (e.0@, e.1))
}

impl View for Ledger {
    type V = LedgerView;

    closed spec fn view(&self) -> LedgerView {
        LedgerView {
            program_id: self.program_id@,
            votings: keyed(voting_entries(self.votings@)),
            votes: keyed(vote_entries(self.votes@)),
        }
    }
}

/// Where a stored entry has key `a`, if any does.
fn find_entry<V>(entries: &Vec<([u8; 32], V)>, a: &[u8; 32]) -> (r: Option<usize>)
    ensures
        match r {
            Some(i) => i < entries@.len() && entries@[i as int].0@ == a@,
            None => forall|i: int| 0 <= i < entries@.len() ==> entries@[i].0@ != a@,
        },
{
    let mut i: usize = 0;
    while i < entries.len()
        invariant
            i <= entries@.len(),
            forall|j: int| 0 <= j < i ==> entries@[j].0@ != a@,
        decreases entries@.len() - i,
    {
        if crate::address::same_key(&entries[i].0, a) {
            return Some(i);
        }
        i = i + 1;
    }
    None
}

impl Ledger {
    /// Distinct addresses, and every topic consistent.
    pub closed spec fn wf(&self) -> bool {
        &&& distinct_keys(voting_entries(self.votings@))
        &&& distinct_keys(vote_entries(self.votes@))
        &&& self@.consistent()
    }

    pub(crate) proof fn lemma_consistent(&self)
        requires
            self.wf(),
        ensures
            self@.consistent(),
    {
    }

    /// An empty ledger whose addresses are derived under `program_id`.
    pub fn new(program_id: [u8; 32]) -> (r: Ledger)
        ensures
            r.wf(),
            r@.program_id == program_id@,
            r@.votings == Map::<Seq<u8>, VotingView>::empty(),
            r@.votes == Map::<Seq<u8>, VoteAccount>::empty(),
    {
        Ledger { program_id, votings: Vec::new(), votes: Vec::new() }
    }

    /// The program id that addresses are derived under.
    pub fn program_id(&self) -> (r: [u8; 32])
        ensures
            r@ == self@.program_id,
    {
        self.program_id
    }

    /// The topic stored at `voting`.
    pub fn get_tally(&self, voting: &[u8; 32]) -> (r: Result<&VotingAccount, VotingError>)
        requires
            self.wf(),
        ensures
            match r {
                Ok(t) => self@.votings.contains_key(voting@) && t@ == self@.votings[voting@],
                Err(e) => e == VotingError::TopicNotFound && !self@.votings.contains_key(voting@),
            },
    {
        proof {
            lemma_keyed_contains(voting_entries(self.votings@), voting@);
        }
        match find_entry(&self.votings, voting) {
            Some(i) => {
                assert(voting_entries(self.votings@)[i as int].0 == voting@);
                Ok(&self.votings[i].1)
            },
            None => {
                assert(forall|i: int| 0 <= i < self.votings@.len() ==> voting_entries(self.votings@)[i].0 != voting@);
                Err(VotingError::TopicNotFound)
            },
        }
    }

    /// Whether a vote is stored at `vote`.
    pub fn has_vote(&self, vote: &[u8; 32]) -> (r: bool)
        requires
            self.wf(),
        ensures
            r == self@.votes.contains_key(vote@),
    {
        proof {
            lemma_keyed_contains(vote_entries(self.votes@), vote@);
        }
        match find_entry(&self.votes, vote) {
            Some(i) => {
                assert(vote_entries(self.votes@)[i as int].0 == vote@);
                true
            },
            None => {
                assert(forall|i: int| 0 <= i < self.votes@.len() ==> vote_entries(self.votes@)[i].0 != vote@);
                false
            },
        }
    }
}

/// What `Ledger::create_voting` does: on the ledger `pre`, creating the topic
/// `company_id`, `voting_id` with `question` and `options` at the address `a`
/// gives the ledger `post` and the result `r`.
pub open spec fn create_outcome(
    pre: LedgerView,
    a: Seq<u8>,
    company_id: u64,
    voting_id: u64,
    question: Seq<char>,
    options: Seq<Seq<char>>,
    post: LedgerView,
    r: Result<(), VotingError>,
) -> bool {
    if pre.votings.contains_key(a) {
        r == Err::<(), VotingError>(VotingError::TopicAlreadyExists) && post == pre
    } else if !(2 <= options.len() <= 3) {
        r == Err::<(), VotingError>(VotingError::InvalidOptionsCount) && post == pre
    } else if !text_fits(question, options) {
        r == Err::<(), VotingError>(VotingError::Aborted) && post == pre
    } else {
        &&& r == Ok::<(), VotingError>(())
        &&& post == LedgerView {
            votings: pre.votings.insert(a, VotingView::fresh(company_id, voting_id, question, options)),
            ..pre
        }
    }
}

/// What `Ledger::cast` does: on the ledger `pre`, storing the vote of `voter`
/// for `selected_option` at the address `w`, for the topic stored at `t`,
/// gives the ledger `post` and the result `r`.
pub open spec fn cast_outcome(
    pre: LedgerView,
    t: Seq<u8>,
    w: Seq<u8>,
    voter: [u8; 32],
    selected_option: u8,
    post: LedgerView,
    r: Result<(), VotingError>,
) -> bool {
    if !pre.votings.contains_key(t) {
        r == Err::<(), VotingError>(VotingError::TopicNotFound) && post == pre
    } else if selected_option >= pre.votings[t].options.len() {
        r == Err::<(), VotingError>(VotingError::InvalidOption) && post == pre
    } else if pre.votes.contains_key(w) {
        r == Err::<(), VotingError>(VotingError::AlreadyVoted) && post == pre
    } else if pre.votings[t].total_votes == u64::MAX {
        r == Err::<(), VotingError>(VotingError::Aborted) && post == pre
    } else {
        &&& r == Ok::<(), VotingError>(())
        &&& post == LedgerView {
            votings: pre.votings.insert(t, pre.votings[t].tallied(selected_option as int)),
            votes: pre.votes.insert(w, VoteAccount { voter, selected_option }),
            ..pre
        }
    }
}

/// What `initialize_voting` does: the topic's address is derived from
/// `company_id` and `voting_id`, and the topic is created there.
pub open spec fn initialize_outcome(
    pre: LedgerView,
    company_id: u64,
    voting_id: u64,
    question: Seq<char>,
    options: Seq<Seq<char>>,
    post: LedgerView,
    r: Result<(), VotingError>,
) -> bool {
    match program_address(voting_seeds(company_id, voting_id), pre.program_id) {
        None => r == Err::<(), VotingError>(VotingError::MalformedKey) && post == pre,
        Some(found) => create_outcome(pre, found.0, company_id, voting_id, question, options, post, r),
    }
}

/// What `vote` does: the topic's address is derived from `company_id` and
/// `voting_id`; once the topic and the option are found, the vote's address
/// is derived from the topic's address and `voter`, and the vote is cast.
pub open spec fn vote_outcome(
    pre: LedgerView,
    company_id: u64,
    voting_id: u64,
    voter: [u8; 32],
    selected_option: u8,
    post: LedgerView,
    r: Result<(), VotingError>,
) -> bool {
    match program_address(voting_seeds(company_id, voting_id), pre.program_id) {
        None => r == Err::<(), VotingError>(VotingError::MalformedKey) && post == pre,
        Some(found) => {
            let t = found.0;
            if !pre.votings.contains_key(t) {
                r == Err::<(), VotingError>(VotingError::TopicNotFound) && post == pre
            } else if selected_option >= pre.votings[t].options.len() {
                r == Err::<(), VotingError>(VotingError::InvalidOption) && post == pre
            } else {
                match program_address(vote_seeds(t, voter@), pre.program_id) {
                    None => r == Err::<(), VotingError>(VotingError::MalformedKey) && post == pre,
                    Some(found_vote) => cast_outcome(pre, t, found_vote.0, voter, selected_option, post, r),
                }
            }
        },
    }
}

/// Whether `question` and `options` fit a topic's record.
fn fits(question: &String, options: &Vec<String>) -> (r: bool)
    ensures
        r == text_fits(question@, options_view(options@)),
{
    let len = question.as_str().as_bytes().len();
    assert(len == encode_utf8(question@).len());
    if len > MAX_QUESTION_LEN {
        return false;
    }
    let mut i: usize = 0;
    while i < options.len()
        invariant
            i <= options@.len(),
            forall|j: int| 0 <= j < i ==> #[trigger] encode_utf8(options_view(options@)[j]).len() <= MAX_OPTION_LEN,
        decreases options@.len() - i,
    {
        let len = options[i].as_str().as_bytes().len();
        assert(options_view(options@)[i as int] == options@[i as int]@);
        assert(len == encode_utf8(options_view(options@)[i as int]).len());
        if len > MAX_OPTION_LEN {
            return false;
        }
        i = i + 1;
    }
    true
}

impl Ledger {
    /// Creates the topic `company_id`, `voting_id` with `question` and
    /// `options` at the address `a`, with every tally at zero.
    ///
    /// Fails with `TopicAlreadyExists` where a topic is stored at `a`, then
    /// with `InvalidOptionsCount` unless there are two or three options, then
    /// with `Aborted` where the question or an option does not fit the record.
    pub fn create_voting(
        &mut self,
        a: &[u8; 32],
        company_id: u64,
        voting_id: u64,
        question: String,
        options: Vec<String>,
    ) -> (r: Result<(), VotingError>)
        requires
            old(self).wf(),
        ensures
            final(self).wf(),
            create_outcome(
                old(self)@,
                a@,
                company_id,
                voting_id,
                question@,
                options_view(options@),
                final(self)@,
                r,
            ),
    {
        let ghost pre = self@;
        proof {
            lemma_keyed_contains(voting_entries(self.votings@), a@);
        }
        if let Some(i) = find_entry(&self.votings, a) {
            assert(voting_entries(self.votings@)[i as int].0 == a@);
            return Err(VotingError::TopicAlreadyExists);
        }
        assert(forall|i: int| 0 <= i < self.votings@.len() ==> voting_entries(self.votings@)[i].0 != a@);
        let n = options.len();
        if n < 2 || n > 3 {
            return Err(VotingError::InvalidOptionsCount);
        }
        if !fits(&question, &options) {
            return Err(VotingError::Aborted);
        }
        let mut votes: Vec<u64> = Vec::new();
        let mut k: usize = 0;
        while k < n
            invariant
                k <= n,
                votes@ == Seq::new(k as nat, |i: int| 0u64),
            decreases n - k,
        {
            votes.push(0);
            k = k + 1;
            assert(votes@ == Seq::new(k as nat, |i: int| 0u64));
        }
        let account = VotingAccount { company_id, voting_id, question, options, votes, total_votes: 0 };
        let ghost old_entries = voting_entries(self.votings@);
        self.votings.push((*a, account));
        proof {
            assert(voting_entries(self.votings@) == old_entries.push((a@, account@)));
            lemma_keyed_push(old_entries, a@, account@);
            lemma_sum_zeros(n as nat);
            assert(account@ == VotingView::fresh(company_id, voting_id, question@, options_view(options@)));
            assert(self@.votings == pre.votings.insert(a@, account@));
        }
        Ok(())
    }

    /// Stores the vote of `voter` for `selected_option` at the address `w`
    /// and counts it in the tallies of the topic stored at `t`.
    ///
    /// Fails with `TopicNotFound` where no topic is stored at `t`, then with
    /// `InvalidOption` where the topic has no such option, then with
    /// `AlreadyVoted` where a vote is stored at `w`, then with `Aborted` where
    /// the topic's total is at its maximum.
    pub fn cast(&mut self, t: &[u8; 32], w: &[u8; 32], voter: [u8; 32], selected_option: u8) -> (r: Result<(), VotingError>)
        requires
            old(self).wf(),
        ensures
            final(self).wf(),
            cast_outcome(old(self)@, t@, w@, voter, selected_option, final(self)@, r),
    {
        let ghost pre = self@;
        proof {
            lemma_keyed_contains(voting_entries(self.votings@), t@);
        }
        let i = match find_entry(&self.votings, t) {
            Some(i) => i,
            None => {
                assert(forall|i: int| 0 <= i < self.votings@.len() ==> voting_entries(self.votings@)[i].0 != t@);
                return Err(VotingError::TopicNotFound);
            },
        };
        assert(voting_entries(self.votings@)[i as int].0 == t@);
        assert(pre.votings[t@] == self.votings@[i as int].1@);
        if selected_option as usize >= self.votings[i].1.options.len() {
            return Err(VotingError::InvalidOption);
        }
        proof {
            lemma_keyed_contains(vote_entries(self.votes@), w@);
        }
        if let Some(j) = find_entry(&self.votes, w) {
            assert(vote_entries(self.votes@)[j as int].0 == w@);
            return Err(VotingError::AlreadyVoted);
        }
        assert(forall|j: int| 0 <= j < self.votes@.len() ==> vote_entries(self.votes@)[j].0 != w@);
        if self.votings[i].1.total_votes == u64::MAX {
            return Err(VotingError::Aborted);
        }
        let sel = selected_option as usize;
        let ghost before = self.votings@[i as int].1@;
        proof {
            assert(before.consistent());
            lemma_sum_bounds(before.votes, sel as int);
            lemma_sum_increment(before.votes, sel as int);
        }
        let ghost old_votings = voting_entries(self.votings@);
        let ghost old_votes = vote_entries(self.votes@);
        let count = self.votings[i].1.votes[sel] + 1;
        self.votings[i].1.votes[sel] = count;
        self.votings[i].1.total_votes = self.votings[i].1.total_votes + 1;
        let record = VoteAccount { voter, selected_option };
        self.votes.push((*w, record));
        proof {
            assert(self.votings@[i as int].1@ == before.tallied(sel as int));
            assert(voting_entries(self.votings@) == old_votings.update(i as int, (t@, before.tallied(sel as int))));
            lemma_keyed_update(old_votings, i as int, before.tallied(sel as int));
            assert(vote_entries(self.votes@) == old_votes.push((w@, record)));
            lemma_keyed_push(old_votes, w@, record);
            assert(self@.votings == pre.votings.insert(t@, before.tallied(sel as int)));
            assert(self@.votes == pre.votes.insert(w@, record));
        }
        Ok(())
    }
}

/// Creates the topic `company_id`, `voting_id` with `question` and `options`
/// at the address derived from its identifiers, with every tally at zero.
/// The signer of the context pays for the record's storage, which the ledger
/// does not bill.
///
/// Fails with `MalformedKey` where no address can be derived, then as
/// `Ledger::create_voting` does.
pub fn initialize_voting(
    ledger: &mut Ledger,
    _ctx: &InitializeVoting,
    company_id: u64,
    voting_id: u64,
    question: String,
    options: Vec<String>,
) -> (r: Result<(), VotingError>)
    requires
        old(ledger).wf(),
    ensures
        final(ledger).wf(),
        initialize_outcome(
            old(ledger)@,
            company_id,
            voting_id,
            question@,
            options_view(options@),
            final(ledger)@,
            r,
        ),
{
    let a = match derive_voting_address(&ledger.program_id, company_id, voting_id) {
        Ok(p) => p.0,
        Err(e) => return Err(e),
    };
    ledger.create_voting(&a, company_id, voting_id, question, options)
}

/// Records the vote of the signer of `ctx` for `selected_option` on the topic
/// `company_id`, `voting_id`, at the address derived from the topic's address
/// and the signer, and counts it in the topic's tallies.
///
/// Fails with `MalformedKey` where the topic's address cannot be derived, then
/// with `TopicNotFound` where no topic is stored there, then with
/// `InvalidOption` where the topic has no such option, then with
/// `MalformedKey` where the vote's address cannot be derived, then as
/// `Ledger::cast` does.
pub fn vote(
    ledger: &mut Ledger,
    ctx: &Vote,
    company_id: u64,
    voting_id: u64,
    selected_option: u8,
) -> (r: Result<(), VotingError>)
    requires
        old(ledger).wf(),
    ensures
        final(ledger).wf(),
        vote_outcome(old(ledger)@, company_id, voting_id, ctx.voter, selected_option, final(ledger)@, r),
{
    let t = match derive_voting_address(&ledger.program_id, company_id, voting_id) {
        Ok(p) => p.0,
        Err(e) => return Err(e),
    };
    match ledger.get_tally(&t) {
        Ok(topic) => {
            if selected_option as usize >= topic.options.len() {
                return Err(VotingError::InvalidOption);
            }
        },
        Err(e) => return Err(e),
    }
    let w = match derive_vote_address(&ledger.program_id, &t, &ctx.voter) {
        Ok(p) => p.0,
        Err(e) => return Err(e),
    };
    ledger.cast(&t, &w, ctx.voter, selected_option)
}

} // verus!
