//! What holds of the registry after any sequence of requests.
//!
//! A registry starts empty and changes only by creating polls and by
//! voting. This module replays a sequence of such requests on the model and
//! proves what every registry reached in this way has in common.
use crate::error::ErrorKind;
use crate::model::{
    after_create, after_vote, ids_up_to, lemma_fresh_wf, lemma_ids_up_to_len, lemma_record_wf,
    next_id, registry_wf, vote_outcome, PollView, Polls,
};
use vstd::prelude::*;

verus! {

/// A request that changes the registry.
pub enum Request {
    /// Create a poll with this question and these options.
    CreatePoll { question: Seq<char>, options: Seq<Seq<char>> },
    /// Cast the vote of `voter` for the option `choice` of the poll `poll_id`.
    Vote { poll_id: nat, choice: nat, voter: Seq<char> },
}

/// The registry after one request.
pub open spec fn apply(polls: Polls, request: Request) -> Polls {
    match request {
        Request::CreatePoll { question, options } => after_create(polls, question, options),
        Request::Vote { poll_id, choice, voter } => after_vote(polls, poll_id, choice, voter),
    }
}

/// The registry after these requests, made in this order on the empty
/// registry.
pub open spec fn replay(requests: Seq<Request>) -> Polls
    decreases requests.len(),
{
    if requests.len() == 0 {
        Polls::empty()
    } else {
        apply(replay(requests.drop_last()), requests.last())
    }
}

/// The id that the request at position `at` hands out, where it creates a
/// poll: the next id of the registry that the requests before it left.
pub open spec fn created_id(requests: Seq<Request>, at: int) -> nat {
    next_id(replay(requests.take(at)))
}

/// Creating a poll keeps the invariant of the registry: the new poll gets
/// an id that was not in use, and every other poll stays as it was.
pub proof fn lemma_create_keeps_wf(polls: Polls, question: Seq<char>, options: Seq<Seq<char>>)
    requires
        registry_wf(polls),
    ensures
        registry_wf(after_create(polls, question, options)),
        !polls.contains_key(next_id(polls)),
        after_create(polls, question, options).len() == polls.len() + 1,
        forall|id: nat| #[trigger]
            polls.contains_key(id) ==> after_create(polls, question, options)[id] == polls[id],
{
    let id = next_id(polls);
    let after = after_create(polls, question, options);
    lemma_fresh_wf(id, question, options);
    lemma_ids_up_to_len(id);
    assert(!ids_up_to(polls.len()).contains(id));
    assert(after.dom() =~= ids_up_to(id));
}

/// A vote keeps the invariant of the registry, and neither adds nor removes
/// a poll.
pub proof fn lemma_vote_keeps_wf(polls: Polls, poll_id: nat, choice: nat, voter: Seq<char>)
    requires
        registry_wf(polls),
    ensures
        registry_wf(after_vote(polls, poll_id, choice, voter)),
        after_vote(polls, poll_id, choice, voter).dom() == polls.dom(),
{
    let after = after_vote(polls, poll_id, choice, voter);
    if vote_outcome(polls, poll_id, choice, voter) is Ok {
        lemma_record_wf(polls[poll_id], voter, choice);
        assert(after.dom() =~= polls.dom());
    }
}

/// After any sequence of requests the registry meets its invariant: in
/// every poll each count is the number of ballots for its option, and no
/// voter has two ballots.
pub proof fn lemma_replay_wf(requests: Seq<Request>)
    ensures
        registry_wf(replay(requests)),
    decreases requests.len(),
{
    if requests.len() == 0 {
        lemma_ids_up_to_len(0);
        assert(Polls::empty().dom() =~= ids_up_to(0));
    } else {
        let before = replay(requests.drop_last());
        lemma_replay_wf(requests.drop_last());
        match requests.last() {
            Request::CreatePoll { question, options } => {
                lemma_create_keeps_wf(before, question, options);
            },
            Request::Vote { poll_id, choice, voter } => {
                lemma_vote_keeps_wf(before, poll_id, choice, voter);
            },
        }
    }
}

/// Tally consistency: after any sequence of requests, the count that a poll
/// keeps for an option is the number of its ballots for that option.
pub proof fn lemma_tally_counts_ballots(requests: Seq<Request>, poll_id: nat, option: nat)
    requires
        replay(requests).contains_key(poll_id),
        option < replay(requests)[poll_id].options.len(),
    ensures
        replay(requests)[poll_id].tally.len() == replay(requests)[poll_id].options.len(),
        replay(requests)[poll_id].tally[option as int] == replay(requests)[poll_id].votes_for(
            option,
        ),
{
    lemma_replay_wf(requests);
}

/// The one-vote rule: after any sequence of requests, two ballots of one
/// poll that name the same voter are the same ballot.
pub proof fn lemma_one_ballot_per_voter(requests: Seq<Request>, poll_id: nat, j: int, k: int)
    requires
        replay(requests).contains_key(poll_id),
        0 <= j < replay(requests)[poll_id].ballots.len(),
        0 <= k < replay(requests)[poll_id].ballots.len(),
        replay(requests)[poll_id].ballots[j].voter == replay(requests)[poll_id].ballots[k].voter,
    ensures
        j == k,
{
    lemma_replay_wf(requests);
    let ballots = replay(requests)[poll_id].ballots;
    if j < k {
        assert(ballots[j].voter != ballots[k].voter);
    } else if k < j {
        assert(ballots[k].voter != ballots[j].voter);
    }
}

/// The registry never shrinks: it holds at least as many polls after more
/// requests.
pub proof fn lemma_replay_grows(requests: Seq<Request>, earlier: int, later: int)
    requires
        0 <= earlier <= later <= requests.len(),
    ensures
        replay(requests.take(earlier)).len() <= replay(requests.take(later)).len(),
    decreases later - earlier,
{
    if earlier < later {
        let upto = requests.take(later);
        assert(upto.drop_last() =~= requests.take(later - 1));
        lemma_replay_grows(requests, earlier, later - 1);
        lemma_replay_wf(upto.drop_last());
        match upto.last() {
            Request::CreatePoll { question, options } => {
                lemma_create_keeps_wf(replay(upto.drop_last()), question, options);
            },
            Request::Vote { poll_id, choice, voter } => {
                lemma_vote_keeps_wf(replay(upto.drop_last()), poll_id, choice, voter);
            },
        }
    }
}

/// What a poll keeps while votes come in: its id and its text stay, no
/// count goes down, and the ballots it had stay where they were.
pub open spec fn extends(later: PollView, earlier: PollView) -> bool {
    &&& later.id == earlier.id
    &&& later.question == earlier.question
    &&& later.options == earlier.options
    &&& later.tally.len() == earlier.tally.len()
    &&& forall|i: int| 0 <= i < earlier.tally.len() ==> earlier.tally[i] <= #[trigger] later.tally[i]
    &&& earlier.ballots.is_prefix_of(later.ballots)
}

/// A poll once created stays: after more requests it is still filed under
/// its id, with the same text, counts that are no lower, and its earlier
/// ballots first.
pub proof fn lemma_polls_persist(requests: Seq<Request>, earlier: int, later: int, poll_id: nat)
    requires
        0 <= earlier <= later <= requests.len(),
        replay(requests.take(earlier)).contains_key(poll_id),
    ensures
        replay(requests.take(later)).contains_key(poll_id),
        extends(replay(requests.take(later))[poll_id], replay(requests.take(earlier))[poll_id]),
    decreases later - earlier,
{
    if earlier < later {
        let upto = requests.take(later);
        assert(upto.drop_last() =~= requests.take(later - 1));
        lemma_polls_persist(requests, earlier, later - 1, poll_id);
        let before = replay(upto.drop_last());
        lemma_replay_wf(upto.drop_last());
        match upto.last() {
            Request::CreatePoll { question, options } => {
                lemma_create_keeps_wf(before, question, options);
            },
            Request::Vote { poll_id: target, choice, voter } => {
                if target == poll_id && vote_outcome(before, target, choice, voter) is Ok {
                    assert(before[poll_id].tally.len() == before[poll_id].options.len());
                }
            },
        }
    }
}

/// Uniqueness of ids: in any sequence of requests, two requests that create
/// a poll hand out different ids.
pub proof fn lemma_created_ids_differ(requests: Seq<Request>, first: int, second: int)
    requires
        0 <= first < second < requests.len(),
        requests[first] is CreatePoll,
        requests[second] is CreatePoll,
    ensures
        created_id(requests, first) != created_id(requests, second),
{
    let upto = requests.take(first + 1);
    assert(upto.drop_last() =~= requests.take(first));
    assert(upto.last() == requests[first]);
    lemma_replay_wf(requests.take(first));
    match requests[first] {
        Request::CreatePoll { question, options } => {
            lemma_create_keeps_wf(replay(requests.take(first)), question, options);
        },
        Request::Vote { .. } => {},
    }
    lemma_replay_grows(requests, first + 1, second);
}

/// No partial change on failure: a vote that is turned down leaves every
/// poll, its tally and its ballots, as it was.
pub proof fn lemma_rejected_vote_changes_nothing(
    polls: Polls,
    poll_id: nat,
    choice: nat,
    voter: Seq<char>,
)
    requires
        vote_outcome(polls, poll_id, choice, voter) is Err,
    ensures
        after_vote(polls, poll_id, choice, voter) == polls,
{
}

/// Bounds: a vote for an option that the poll does not have, by a voter
/// without a ballot in that poll, is turned down as `InvalidOption`.
pub proof fn lemma_choice_out_of_range(polls: Polls, poll_id: nat, choice: nat, voter: Seq<char>)
    requires
        polls.contains_key(poll_id),
        !polls[poll_id].has_voted(voter),
        choice >= polls[poll_id].options.len(),
    ensures
        vote_outcome(polls, poll_id, choice, voter) == Err::<(), ErrorKind>(
            ErrorKind::InvalidOption,
        ),
        after_vote(polls, poll_id, choice, voter) == polls,
{
}

/// An accepted vote changes its poll alone: there the count of the chosen
/// option is one higher, the other counts are as before, and the ballot is
/// the last one.
pub proof fn lemma_accepted_vote(polls: Polls, poll_id: nat, choice: nat, voter: Seq<char>)
    requires
        vote_outcome(polls, poll_id, choice, voter) is Ok,
    ensures
        polls.contains_key(poll_id),
        choice < polls[poll_id].options.len(),
        !polls[poll_id].has_voted(voter),
        after_vote(polls, poll_id, choice, voter)[poll_id] == polls[poll_id].record(voter, choice),
        forall|id: nat|
            id != poll_id && #[trigger] polls.contains_key(id) ==> after_vote(
                polls,
                poll_id,
                choice,
                voter,
            )[id] == polls[id],
{
}

} // verus!
