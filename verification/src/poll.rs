//! The poll as the registry stores it and hands it out.
use crate::model::{lemma_fresh_wf, lemma_record_wf, lemma_votes_for_bound, Ballot, PollView};
use vstd::prelude::*;

verus! {

/// Identifier of a poll.
pub type PollId = u64;

/// A question with a fixed list of options, and the votes cast on it.
#[derive(Debug)]
pub struct Poll {
    pub id: PollId,
    pub question: String,
    pub options: Vec<String>,
    /// The tally: `votes[i]` is the number of votes for `options[i]`.
    pub votes: Vec<u64>,
    /// The ballots: the identity of each voter with the index of the chosen
    /// option, in the order in which the votes were cast.
    pub voters: Vec<(String, usize)>,
}

/// What a list of strings holds.
pub open spec fn texts_of(strings: Seq<String>) -> Seq<Seq<char>> {
    strings.map_values(|s: String| s@)
}

/// What a list of counts holds.
pub open spec fn counts_of(votes: Seq<u64>) -> Seq<nat> {
    votes.map_values(|n: u64| n as nat)
}

/// What a list of voters with their choices holds.
pub open spec fn ballots_of(voters: Seq<(String, usize)>) -> Seq<Ballot> {
    voters.map_values(|b: (String, usize)| Ballot { voter: b.0@, choice: b.1 as nat })
}

impl View for Poll {
    type V = PollView;

    open spec fn view(&self) -> PollView {
        PollView {
            id: self.id as nat,
            question: self.question@,
            options: texts_of(self.options@),
            tally: counts_of(self.votes@),
            ballots: ballots_of(self.voters@),
        }
    }
}

impl Clone for Poll {
    /// Returns a poll that holds the same as this one.
    fn clone(&self) -> (copy: Poll)
        ensures
            copy@ == self@,
    {
        let mut options: Vec<String> = Vec::new();
        let mut i: usize = 0;
        while i < self.options.len()
            invariant
                i <= self.options.len(),
                options@.len() == i,
                forall|j: int| 0 <= j < i ==> options@[j]@ == self.options@[j]@,
            decreases self.options.len() - i,
        {
            options.push(self.options[i].clone());
            i += 1;
        }
        let mut votes: Vec<u64> = Vec::new();
        let mut i: usize = 0;
        while i < self.votes.len()
            invariant
                i <= self.votes.len(),
                votes@.len() == i,
                forall|j: int| 0 <= j < i ==> votes@[j] == self.votes@[j],
            decreases self.votes.len() - i,
        {
            votes.push(self.votes[i]);
            i += 1;
        }
        let mut voters: Vec<(String, usize)> = Vec::new();
        let mut i: usize = 0;
        while i < self.voters.len()
            invariant
                i <= self.voters.len(),
                voters@.len() == i,
                forall|j: int|
                    0 <= j < i ==> voters@[j].0@ == self.voters@[j].0@ && voters@[j].1
                        == self.voters@[j].1,
            decreases self.voters.len() - i,
        {
            voters.push((self.voters[i].0.clone(), self.voters[i].1));
            i += 1;
        }
        let copy = Poll { id: self.id, question: self.question.clone(), options, votes, voters };
        assert(copy@.options =~= self@.options);
        assert(copy@.tally =~= self@.tally);
        assert(copy@.ballots =~= self@.ballots);
        copy
    }
}

impl Poll {
    /// Makes the poll with this id and text that nobody has voted on yet.
    pub fn new(id: PollId, question: String, options: Vec<String>) -> (poll: Poll)
        ensures
            poll@ == PollView::fresh(id as nat, question@, texts_of(options@)),
            poll@.wf(),
    {
        let votes: Vec<u64> = vec![0; options.len()];
        let poll = Poll { id, question, options, votes, voters: Vec::new() };
        proof {
            assert(poll@.tally =~= PollView::fresh(id as nat, question@, texts_of(options@)).tally);
            assert(poll@.ballots =~= Seq::<Ballot>::empty());
            lemma_fresh_wf(id as nat, question@, texts_of(options@));
        }
        poll
    }

    /// Tells whether `voter` has a ballot in this poll.
    pub fn has_voted(&self, voter: &String) -> (found: bool)
        ensures
            found == self@.has_voted(voter@),
    {
        let mut i: usize = 0;
        while i < self.voters.len()
            invariant
                i <= self.voters.len(),
                forall|j: int| 0 <= j < i ==> (#[trigger] self@.ballots[j]).voter != voter@,
            decreases self.voters.len() - i,
        {
            if self.voters[i].0 == *voter {
                assert(self@.ballots[i as int].voter == voter@);
                return true;
            }
            i += 1;
        }
        false
    }

    /// Records the vote of `voter` for the option at `option_index`.
    pub(crate) fn record(&mut self, voter: String, option_index: usize)
        requires
            old(self)@.wf(),
            !old(self)@.has_voted(voter@),
            option_index < old(self).options.len(),
        ensures
            final(self)@ == old(self)@.record(voter@, option_index as nat),
            final(self)@.wf(),
    {
        proof {
            lemma_votes_for_bound(self@, option_index as nat);
            lemma_record_wf(self@, voter@, option_index as nat);
        }
        let ghost before = self@;
        // The ballot goes in first: the poll then holds one more ballot than
        // the option has votes, so the count below can still grow by one.
        self.voters.push((voter, option_index));
        let count: u64 = self.votes[option_index];
        assert(count < usize::MAX) by {
            assert(count == before.tally[option_index as int]);
            assert(self.voters.len() == before.ballots.len() + 1);
        }
        self.votes.set(option_index, count + 1);
        proof {
            assert(self@.tally =~= before.record(voter@, option_index as nat).tally);
            assert(self@.ballots =~= before.record(voter@, option_index as nat).ballots);
        }
    }
}

} // verus!
