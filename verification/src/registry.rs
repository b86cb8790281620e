//! The registry: every poll by its id, and the four operations on them.
use crate::error::ErrorKind;
use crate::identity::{principal_text, Caller};
use crate::model::{
    after_create, after_vote, ids_up_to, lemma_ids_up_to_len, next_id, registry_wf, vote_outcome,
    Polls,
};
use crate::poll::{texts_of, Poll, PollId};
use std::collections::hash_map::Entry;
use std::collections::HashMap;
use vstd::prelude::*;
use vstd::std_specs::iter::IteratorSpec;

verus! {

/// All polls, each under its id. It starts empty, and a poll once created
/// stays: only its tally and its ballots change.
pub struct Registry {
    polls: HashMap<PollId, Poll>,
}

impl View for Registry {
    type V = Polls;

    closed spec fn view(&self) -> Polls {
        Map::new(
            |id: nat| id <= u64::MAX && self.polls@.contains_key(id as u64),
            |id: nat| self.polls@[id as u64]@,
        )
    }
}

impl Registry {
    /// The invariant of the registry: the ids in use are `1 ..= n` for the
    /// number `n` of polls, each poll is stored under its own id, and each
    /// poll meets its invariant. Every registry that this module hands out
    /// meets it.
    pub closed spec fn wf(&self) -> bool {
        &&& forall|id: u64| #[trigger] self.polls@.contains_key(id) <==> 1 <= id <= self.polls@.len()
        &&& forall|id: u64| #[trigger]
            self.polls@.contains_key(id) ==> self.polls@[id].id == id && self.polls@[id]@.wf()
    }

    /// A registry that meets its invariant holds polls that meet the
    /// invariant of the model.
    pub proof fn lemma_wf(&self)
        requires
            self.wf(),
        ensures
            registry_wf(self@),
    {
        self.lemma_len();
    }

    /// The model has as many polls as the map, and meets its invariant.
    proof fn lemma_len(&self)
        requires
            self.wf(),
        ensures
            registry_wf(self@),
            self@.len() == self.polls@.len(),
    {
        broadcast use vstd::std_specs::hash::group_hash_axioms;

        let n = self.polls@.len();
        assert(n == self.polls.len());
        lemma_ids_up_to_len(n);
        assert(self@.dom() =~= ids_up_to(n)) by {
            assert forall|id: nat| self@.dom().contains(id) <==> ids_up_to(n).contains(id) by {
                if id <= u64::MAX {
                    assert(self.polls@.contains_key(id as u64) <==> 1 <= id as u64 <= n);
                }
            }
        }
    }

    /// Makes the registry without any poll.
    pub fn new() -> (registry: Registry)
        ensures
            registry.wf(),
            registry@ == Polls::empty(),
    {
        let registry = Registry { polls: HashMap::new() };
        proof {
            broadcast use vstd::std_specs::hash::group_hash_axioms;

            assert(registry@ =~= Polls::empty());
        }
        registry
    }

    /// Creates a poll with this question and these options, on which nobody
    /// has voted yet, and returns its id: the number of polls after the call.
    pub fn create_poll(&mut self, question: String, options: Vec<String>) -> (id: PollId)
        requires
            old(self).wf(),
            old(self)@.len() < u64::MAX,
        ensures
            final(self).wf(),
            id as nat == next_id(old(self)@),
            !old(self)@.contains_key(id as nat),
            final(self)@ == after_create(old(self)@, question@, texts_of(options@)),
    {
        broadcast use vstd::std_specs::hash::group_hash_axioms;

        proof {
            self.lemma_len();
        }
        let id: PollId = (self.polls.len() as u64) + 1;
        let poll = Poll::new(id, question, options);
        self.polls.insert(id, poll);
        proof {
            assert(self@ =~= after_create(old(self)@, question@, texts_of(options@)));
        }
        id
    }

    /// Casts the vote of the caller with the identity `voter` for the
    /// option at `option_index` of the poll `poll_id`: the count of that
    /// option goes up by one and the ballot is appended. The vote is turned
    /// down, and nothing changes, where the poll does not exist, where
    /// `voter` has voted on it before, or where it has no such option; the
    /// first of these that holds decides the error.
    pub fn vote(&mut self, poll_id: PollId, option_index: usize, voter: String) -> (outcome:
        Result<(), ErrorKind>)
        requires
            old(self).wf(),
        ensures
            final(self).wf(),
            outcome == vote_outcome(old(self)@, poll_id as nat, option_index as nat, voter@),
            final(self)@ == after_vote(old(self)@, poll_id as nat, option_index as nat, voter@),
            outcome is Err ==> final(self)@ == old(self)@,
    {
        broadcast use vstd::std_specs::hash::group_hash_axioms;

        match self.polls.entry(poll_id) {
            Entry::Occupied(entry) => {
                let poll = entry.into_mut();
                if poll.has_voted(&voter) {
                    return Err(ErrorKind::AlreadyVoted);
                }
                if option_index >= poll.options.len() {
                    return Err(ErrorKind::InvalidOption);
                }
                poll.record(voter, option_index);
                Ok(())
            },
            Entry::Vacant(_) => Err(ErrorKind::PollNotFound),
        }
    }

    /// Casts the vote of `caller` as `vote` does, under the identity that
    /// the principal of `caller` has as text.
    pub fn vote_as(&mut self, poll_id: PollId, option_index: usize, caller: &Caller) -> (outcome:
        Result<(), ErrorKind>)
        requires
            old(self).wf(),
        ensures
            final(self).wf(),
            outcome == vote_outcome(
                old(self)@,
                poll_id as nat,
                option_index as nat,
                principal_text(caller@),
            ),
            final(self)@ == after_vote(
                old(self)@,
                poll_id as nat,
                option_index as nat,
                principal_text(caller@),
            ),
            outcome is Err ==> final(self)@ == old(self)@,
    {
        self.vote(poll_id, option_index, caller.identity())
    }

    /// Returns the number of polls.
    pub fn len(&self) -> (count: usize)
        requires
            self.wf(),
        ensures
            count == self@.len(),
    {
        broadcast use vstd::std_specs::hash::group_hash_axioms;

        proof {
            self.lemma_len();
        }
        self.polls.len()
    }

    /// Returns a copy of the poll `poll_id`, or `None` where there is no
    /// such poll.
    pub fn get_poll(&self, poll_id: PollId) -> (found: Option<Poll>)
        requires
            self.wf(),
        ensures
            match found {
                Some(poll) => self@.contains_key(poll_id as nat) && poll@ == self@[poll_id as nat]
                    && poll@.wf(),
                None => !self@.contains_key(poll_id as nat),
            },
    {
        broadcast use vstd::std_specs::hash::group_hash_axioms;

        match self.polls.get(&poll_id) {
            Some(poll) => Some(poll.clone()),
            None => None,
        }
    }

    /// Returns a copy of every poll, each once, in no particular order.
    pub fn get_polls(&self) -> (polls: Vec<Poll>)
        requires
            self.wf(),
        ensures
            polls@.len() == self@.len(),
            forall|i: int|
                0 <= i < polls@.len() ==> self@.contains_key((#[trigger] polls@[i])@.id)
                    && polls@[i]@ == self@[polls@[i]@.id] && polls@[i]@.wf(),
            forall|i: int, j: int|
                0 <= i < j < polls@.len() ==> (#[trigger] polls@[i])@.id != (
                #[trigger] polls@[j])@.id,
    {
        broadcast use vstd::std_specs::hash::group_hash_axioms;

        proof {
            self.lemma_len();
        }
        let mut polls: Vec<Poll> = Vec::new();
        for entry in it: self.polls.iter()
            invariant
                it.seq() == self.polls.iter().remaining(),
                it.seq().no_duplicates(),
                polls@.len() == it.index(),
                forall|i: int| 0 <= i < polls@.len() ==> (#[trigger] polls@[i])@ == (*it.seq()[i].1)@,
        {
            polls.push(entry.1.clone());
        }
        proof {
            let entries = self.polls.iter().remaining();
            assert forall|i: int| 0 <= i < polls@.len() implies self@.contains_key(
                (#[trigger] polls@[i])@.id,
            ) && polls@[i]@ == self@[polls@[i]@.id] && polls@[i]@.wf() && polls@[i]@.id
                == *entries[i].0 by {
                assert(self.polls@.contains_key(*entries[i].0));
                assert(self.polls@[*entries[i].0] == *entries[i].1);
            }
            assert forall|i: int, j: int| 0 <= i < j < polls@.len() implies (
            #[trigger] polls@[i])@.id != (#[trigger] polls@[j])@.id by {
                assert(entries[i] != entries[j]);
            }
        }
        polls
    }
}

} // verus!
