//! The mathematical model of polls and of the registry.
//!
//! A poll is modelled by a [`PollView`], the registry by a map from poll ids
//! to poll views. The executable types state their contracts over the
//! functions of this module.
use crate::error::ErrorKind;
use vstd::prelude::*;

verus! {

/// One recorded vote: who cast it, and for which option.
pub struct Ballot {
    /// The identity of the voter.
    pub voter: Seq<char>,
    /// The zero-based index of the chosen option.
    pub choice: nat,
}

/// What a poll is: its id, its text, and the votes recorded so far.
pub struct PollView {
    pub id: nat,
    pub question: Seq<char>,
    pub options: Seq<Seq<char>>,
    /// `tally[i]` is the number of votes counted for `options[i]`.
    pub tally: Seq<nat>,
    /// The ballots in the order in which they were cast.
    pub ballots: Seq<Ballot>,
}

/// The polls of a registry, by id.
pub type Polls = Map<nat, PollView>;

impl PollView {
    /// The poll as it is created: one zero per option and no ballot.
    pub open spec fn fresh(id: nat, question: Seq<char>, options: Seq<Seq<char>>) -> PollView {
        PollView {
            id,
            question,
            options,
            tally: Seq::new(options.len(), |i: int| 0nat),
            ballots: Seq::empty(),
        }
    }

    /// The number of ballots that chose `option`.
    pub open spec fn votes_for(self, option: nat) -> nat {
        self.ballots.filter(|b: Ballot| b.choice == option).len()
    }

    /// Whether `voter` has a ballot in this poll.
    pub open spec fn has_voted(self, voter: Seq<char>) -> bool {
        exists|j: int| 0 <= j < self.ballots.len() && (#[trigger] self.ballots[j]).voter == voter
    }

    /// There is one count per option, and each count is the number of
    /// ballots for its option.
    pub open spec fn tally_consistent(self) -> bool {
        &&& self.tally.len() == self.options.len()
        &&& forall|i: int|
            0 <= i < self.tally.len() ==> #[trigger] self.tally[i] == self.votes_for(i as nat)
    }

    /// No two ballots are of the same voter.
    pub open spec fn one_vote_each(self) -> bool {
        forall|j: int, k: int|
            0 <= j < k < self.ballots.len() ==> (#[trigger] self.ballots[j]).voter != (
            #[trigger] self.ballots[k]).voter
    }

    /// Every ballot chose one of the options.
    pub open spec fn choices_in_range(self) -> bool {
        forall|j: int|
            0 <= j < self.ballots.len() ==> (#[trigger] self.ballots[j]).choice
                < self.options.len()
    }

    /// The invariant of a poll.
    pub open spec fn wf(self) -> bool {
        &&& self.tally_consistent()
        &&& self.one_vote_each()
        &&& self.choices_in_range()
    }

    /// The poll after `voter` has voted for `choice`: the count of that
    /// option is one higher and the ballot is appended.
    pub open spec fn record(self, voter: Seq<char>, choice: nat) -> PollView {
        PollView {
            tally: self.tally.update(choice as int, self.tally[choice as int] + 1),
            ballots: self.ballots.push(Ballot { voter, choice }),
            ..self
        }
    }
}

/// The id that the next poll gets: one more than the number of polls.
pub open spec fn next_id(polls: Polls) -> nat {
    polls.len() + 1
}

/// The registry after a poll with this text has been created.
pub open spec fn after_create(polls: Polls, question: Seq<char>, options: Seq<Seq<char>>) -> Polls {
    polls.insert(next_id(polls), PollView::fresh(next_id(polls), question, options))
}

/// How a vote is answered. The checks come in this order: the poll exists,
/// the voter has no ballot in it yet, the choice is one of its options.
pub open spec fn vote_outcome(polls: Polls, poll_id: nat, choice: nat, voter: Seq<char>) -> Result<
    (),
    ErrorKind,
> {
    if !polls.contains_key(poll_id) {
        Err(ErrorKind::PollNotFound)
    } else if polls[poll_id].has_voted(voter) {
        Err(ErrorKind::AlreadyVoted)
    } else if choice >= polls[poll_id].options.len() {
        Err(ErrorKind::InvalidOption)
    } else {
        Ok(())
    }
}

/// The registry after a vote: the ballot is recorded in its poll where the
/// vote is accepted, and nothing changes where it is turned down.
pub open spec fn after_vote(polls: Polls, poll_id: nat, choice: nat, voter: Seq<char>) -> Polls {
    if vote_outcome(polls, poll_id, choice, voter) is Ok {
        polls.insert(poll_id, polls[poll_id].record(voter, choice))
    } else {
        polls
    }
}

/// The ids `1 ..= count`.
pub open spec fn ids_up_to(count: nat) -> Set<nat> {
    Set::new(|id: nat| 1 <= id <= count)
}

/// The invariant of the registry: the ids in use are `1 ..= n` for the
/// number `n` of polls, each poll is filed under its own id, and each poll
/// meets its invariant.
pub open spec fn registry_wf(polls: Polls) -> bool {
    &&& polls.dom().finite()
    &&& polls.dom() == ids_up_to(polls.len())
    &&& forall|id: nat| #[trigger]
        polls.contains_key(id) ==> polls[id].id == id && polls[id].wf()
}

/// There are `count` ids from 1 to `count`.
pub proof fn lemma_ids_up_to_len(count: nat)
    ensures
        ids_up_to(count).finite(),
        ids_up_to(count).len() == count,
    decreases count,
{
    if count == 0 {
        assert(ids_up_to(0) =~= Set::<nat>::empty());
    } else {
        lemma_ids_up_to_len((count - 1) as nat);
        assert(ids_up_to(count) =~= ids_up_to((count - 1) as nat).insert(count));
    }
}

/// Appending a ballot raises the count of its option by one and leaves the
/// counts of the other options as they were.
pub proof fn lemma_votes_for_record(poll: PollView, voter: Seq<char>, choice: nat, option: nat)
    ensures
        poll.record(voter, choice).votes_for(option) == poll.votes_for(option) + (if option
            == choice {
            1nat
        } else {
            0nat
        }),
{
    let pred = |b: Ballot| b.choice == option;
    let after = poll.record(voter, choice).ballots;
    assert(after.drop_last() =~= poll.ballots);
    reveal_with_fuel(Seq::filter, 2);
    assert(after.filter(pred) == if pred(after.last()) {
        poll.ballots.filter(pred).push(after.last())
    } else {
        poll.ballots.filter(pred)
    });
}

/// A poll has no more votes for an option than it has ballots.
pub proof fn lemma_votes_for_bound(poll: PollView, option: nat)
    ensures
        poll.votes_for(option) <= poll.ballots.len(),
{
    poll.ballots.lemma_filter_len(|b: Ballot| b.choice == option);
}

/// A new poll meets the invariant of polls.
pub proof fn lemma_fresh_wf(id: nat, question: Seq<char>, options: Seq<Seq<char>>)
    ensures
        PollView::fresh(id, question, options).wf(),
{
    let poll = PollView::fresh(id, question, options);
    assert forall|i: int| 0 <= i < poll.tally.len() implies #[trigger] poll.tally[i]
        == poll.votes_for(i as nat) by {
        lemma_votes_for_bound(poll, i as nat);
    }
}

/// An accepted vote keeps the invariant of its poll.
pub proof fn lemma_record_wf(poll: PollView, voter: Seq<char>, choice: nat)
    requires
        poll.wf(),
        !poll.has_voted(voter),
        choice < poll.options.len(),
    ensures
        poll.record(voter, choice).wf(),
{
    let after = poll.record(voter, choice);
    assert forall|i: int| 0 <= i < after.tally.len() implies #[trigger] after.tally[i]
        == after.votes_for(i as nat) by {
        lemma_votes_for_record(poll, voter, choice, i as nat);
    }
    assert forall|j: int, k: int| 0 <= j < k < after.ballots.len() implies (
    #[trigger] after.ballots[j]).voter != (#[trigger] after.ballots[k]).voter by {
        if k < poll.ballots.len() {
            assert(after.ballots[j] == poll.ballots[j]);
            assert(after.ballots[k] == poll.ballots[k]);
        } else {
            assert(after.ballots[j] == poll.ballots[j]);
        }
    }
    assert forall|j: int| 0 <= j < after.ballots.len() implies (#[trigger] after.ballots[j]).choice
        < after.options.len() by {
        if j < poll.ballots.len() {
            assert(after.ballots[j] == poll.ballots[j]);
        }
    }
}

} // verus!
