use voting_dapp_backend::{ErrorKind, Poll, Registry};

fn strings(items: &[&str]) -> Vec<String> {
    items.iter().map(|s| s.to_string()).collect()
}

fn color_poll(registry: &mut Registry) -> u64 {
    registry.create_poll("Best color?".to_string(), strings(&["red", "blue"]))
}

fn poll_of(registry: &Registry, id: u64) -> Poll {
    registry.get_poll(id).expect("the poll exists")
}

#[test]
fn new_registry_is_empty() {
    let registry = Registry::new();
    assert_eq!(registry.len(), 0);
    assert!(registry.get_polls().is_empty());
    assert!(registry.get_poll(1).is_none());
    assert!(registry.get_poll(0).is_none());
}

#[test]
fn create_poll_returns_one_and_stores_the_poll() {
    let mut registry = Registry::new();
    let id = color_poll(&mut registry);
    assert_eq!(id, 1);
    let poll = poll_of(&registry, 1);
    assert_eq!(poll.id, 1);
    assert_eq!(poll.question, "Best color?");
    assert_eq!(poll.options, strings(&["red", "blue"]));
    assert_eq!(poll.votes, vec![0, 0]);
    assert!(poll.voters.is_empty());
}

#[test]
fn vote_raises_the_tally_and_records_the_ballot() {
    let mut registry = Registry::new();
    color_poll(&mut registry);
    assert_eq!(registry.vote(1, 0, "alice".to_string()), Ok(()));
    let poll = poll_of(&registry, 1);
    assert_eq!(poll.votes, vec![1, 0]);
    assert!(poll.voters.contains(&("alice".to_string(), 0)));
    assert_eq!(poll.voters.len(), 1);
}

#[test]
fn second_vote_of_a_voter_is_turned_down() {
    let mut registry = Registry::new();
    color_poll(&mut registry);
    assert_eq!(registry.vote(1, 0, "alice".to_string()), Ok(()));
    assert_eq!(registry.vote(1, 1, "alice".to_string()), Err(ErrorKind::AlreadyVoted));
    let poll = poll_of(&registry, 1);
    assert_eq!(poll.votes, vec![1, 0]);
    assert_eq!(poll.voters, vec![("alice".to_string(), 0)]);
}

#[test]
fn vote_for_a_missing_option_is_turned_down() {
    let mut registry = Registry::new();
    color_poll(&mut registry);
    assert_eq!(registry.vote(1, 0, "alice".to_string()), Ok(()));
    assert_eq!(registry.vote(1, 5, "bob".to_string()), Err(ErrorKind::InvalidOption));
    let poll = poll_of(&registry, 1);
    assert_eq!(poll.votes, vec![1, 0]);
    assert_eq!(poll.voters, vec![("alice".to_string(), 0)]);
}

#[test]
fn vote_on_a_missing_poll_is_turned_down() {
    let mut registry = Registry::new();
    color_poll(&mut registry);
    assert_eq!(registry.vote(999, 0, "carol".to_string()), Err(ErrorKind::PollNotFound));
    assert_eq!(registry.vote(0, 0, "carol".to_string()), Err(ErrorKind::PollNotFound));
    assert_eq!(registry.vote(2, 0, "carol".to_string()), Err(ErrorKind::PollNotFound));
    let poll = poll_of(&registry, 1);
    assert_eq!(poll.votes, vec![0, 0]);
    assert!(poll.voters.is_empty());
}

#[test]
fn get_polls_returns_the_one_poll() {
    let mut registry = Registry::new();
    color_poll(&mut registry);
    assert_eq!(registry.vote(1, 0, "alice".to_string()), Ok(()));
    let polls = registry.get_polls();
    assert_eq!(polls.len(), 1);
    assert_eq!(polls[0].id, 1);
    assert_eq!(polls[0].question, "Best color?");
    assert_eq!(polls[0].options, strings(&["red", "blue"]));
    assert_eq!(polls[0].votes, vec![1, 0]);
    assert_eq!(polls[0].voters, vec![("alice".to_string(), 0)]);
}

#[test]
fn get_polls_returns_every_poll_once() {
    let mut registry = Registry::new();
    for n in 0..20 {
        registry.create_poll(format!("question {n}"), strings(&["yes", "no"]));
    }
    assert_eq!(registry.vote(7, 1, "alice".to_string()), Ok(()));
    let mut polls = registry.get_polls();
    assert_eq!(polls.len(), 20);
    polls.sort_by_key(|poll| poll.id);
    for (at, poll) in polls.iter().enumerate() {
        assert_eq!(poll.id, at as u64 + 1);
        assert_eq!(poll.question, format!("question {at}"));
        let stored = poll_of(&registry, poll.id);
        assert_eq!(poll.votes, stored.votes);
        assert_eq!(poll.voters, stored.voters);
    }
    assert_eq!(polls[6].votes, vec![0, 1]);
}

#[test]
fn created_ids_are_distinct_and_count_up() {
    let mut registry = Registry::new();
    let mut ids = Vec::new();
    for n in 0..50 {
        if n % 3 == 0 {
            let _ = registry.vote(1, 0, format!("voter {n}"));
        }
        ids.push(registry.create_poll(String::new(), Vec::new()));
        assert_eq!(registry.len(), n + 1);
    }
    for (at, id) in ids.iter().enumerate() {
        assert_eq!(*id, at as u64 + 1);
        assert!(!ids[..at].contains(id));
    }
}

#[test]
fn tally_counts_the_ballots_of_each_option() {
    let mut registry = Registry::new();
    let id = registry.create_poll("Lunch?".to_string(), strings(&["soup", "salad", "bread"]));
    let choices = [0usize, 2, 2, 1, 2, 0, 2];
    for (n, choice) in choices.iter().enumerate() {
        assert_eq!(registry.vote(id, *choice, format!("voter {n}")), Ok(()));
    }
    let poll = poll_of(&registry, id);
    assert_eq!(poll.votes, vec![2, 1, 4]);
    assert_eq!(poll.votes.len(), poll.options.len());
    for (option, count) in poll.votes.iter().enumerate() {
        let ballots = poll.voters.iter().filter(|ballot| ballot.1 == option).count();
        assert_eq!(*count, ballots as u64);
    }
    for (n, choice) in choices.iter().enumerate() {
        assert_eq!(poll.voters[n], (format!("voter {n}"), *choice));
    }
}

#[test]
fn tally_stays_consistent_through_rejected_votes() {
    let mut registry = Registry::new();
    let id = color_poll(&mut registry);
    let attempts = [("a", 0usize), ("b", 1), ("a", 1), ("c", 2), ("b", 1), ("d", 1), ("c", 0)];
    for (voter, choice) in attempts {
        let _ = registry.vote(id, choice, voter.to_string());
        let poll = poll_of(&registry, id);
        for (option, count) in poll.votes.iter().enumerate() {
            let ballots = poll.voters.iter().filter(|ballot| ballot.1 == option).count();
            assert_eq!(*count, ballots as u64);
        }
    }
    let poll = poll_of(&registry, id);
    assert_eq!(poll.votes, vec![2, 2]);
}

#[test]
fn a_voter_has_at_most_one_ballot_in_a_poll() {
    let mut registry = Registry::new();
    let first = color_poll(&mut registry);
    let second = color_poll(&mut registry);
    for round in 0..4 {
        for voter in ["alice", "bob", "carol"] {
            let _ = registry.vote(first, round % 2, voter.to_string());
            let _ = registry.vote(second, (round + 1) % 3, voter.to_string());
        }
    }
    for id in [first, second] {
        let poll = poll_of(&registry, id);
        for voter in ["alice", "bob", "carol"] {
            let ballots = poll.voters.iter().filter(|ballot| ballot.0 == voter).count();
            assert_eq!(ballots, 1);
        }
        assert_eq!(poll.voters.len(), 3);
    }
    assert_eq!(poll_of(&registry, first).votes, vec![3, 0]);
    assert_eq!(poll_of(&registry, second).votes, vec![0, 3]);
}

#[test]
fn a_voter_may_vote_in_several_polls() {
    let mut registry = Registry::new();
    let first = color_poll(&mut registry);
    let second = color_poll(&mut registry);
    assert_eq!(registry.vote(first, 0, "alice".to_string()), Ok(()));
    assert_eq!(registry.vote(second, 1, "alice".to_string()), Ok(()));
    assert_eq!(poll_of(&registry, first).votes, vec![1, 0]);
    assert_eq!(poll_of(&registry, second).votes, vec![0, 1]);
}

#[test]
fn a_rejected_vote_changes_no_poll() {
    let mut registry = Registry::new();
    let first = color_poll(&mut registry);
    let second = color_poll(&mut registry);
    assert_eq!(registry.vote(first, 1, "alice".to_string()), Ok(()));
    let rejected = [
        (first, 0usize, "alice", ErrorKind::AlreadyVoted),
        (first, 2, "bob", ErrorKind::InvalidOption),
        (3, 0, "bob", ErrorKind::PollNotFound),
        (second, usize::MAX, "alice", ErrorKind::InvalidOption),
    ];
    for (id, choice, voter, error) in rejected {
        assert_eq!(registry.vote(id, choice, voter.to_string()), Err(error));
        assert_eq!(registry.len(), 2);
        let poll = poll_of(&registry, first);
        assert_eq!(poll.votes, vec![0, 1]);
        assert_eq!(poll.voters, vec![("alice".to_string(), 1)]);
        let poll = poll_of(&registry, second);
        assert_eq!(poll.votes, vec![0, 0]);
        assert!(poll.voters.is_empty());
    }
}

#[test]
fn option_index_at_the_number_of_options_is_invalid() {
    let mut registry = Registry::new();
    let id = color_poll(&mut registry);
    assert_eq!(registry.vote(id, 2, "bob".to_string()), Err(ErrorKind::InvalidOption));
    assert_eq!(registry.vote(id, 1, "bob".to_string()), Ok(()));
}

#[test]
fn nobody_can_vote_on_a_poll_without_options() {
    let mut registry = Registry::new();
    let id = registry.create_poll(String::new(), Vec::new());
    assert_eq!(id, 1);
    assert_eq!(registry.vote(id, 0, "alice".to_string()), Err(ErrorKind::InvalidOption));
    let poll = poll_of(&registry, id);
    assert!(poll.options.is_empty());
    assert!(poll.votes.is_empty());
    assert!(poll.voters.is_empty());
}

#[test]
fn already_voted_comes_before_invalid_option() {
    let mut registry = Registry::new();
    let id = color_poll(&mut registry);
    assert_eq!(registry.vote(id, 0, "alice".to_string()), Ok(()));
    assert_eq!(registry.vote(id, 7, "alice".to_string()), Err(ErrorKind::AlreadyVoted));
}

#[test]
fn poll_not_found_comes_first() {
    let mut registry = Registry::new();
    assert_eq!(registry.vote(1, 7, "alice".to_string()), Err(ErrorKind::PollNotFound));
}

#[test]
fn duplicate_option_labels_are_kept() {
    let mut registry = Registry::new();
    let id = registry.create_poll("?".to_string(), strings(&["same", "same"]));
    assert_eq!(registry.vote(id, 1, String::new()), Ok(()));
    let poll = poll_of(&registry, id);
    assert_eq!(poll.options, strings(&["same", "same"]));
    assert_eq!(poll.votes, vec![0, 1]);
    assert_eq!(poll.voters, vec![(String::new(), 1)]);
}

#[test]
fn get_poll_hands_out_a_copy() {
    let mut registry = Registry::new();
    let id = color_poll(&mut registry);
    let mut copy = poll_of(&registry, id);
    copy.votes[0] = 9;
    copy.voters.push(("mallory".to_string(), 0));
    copy.question.push('!');
    let poll = poll_of(&registry, id);
    assert_eq!(poll.question, "Best color?");
    assert_eq!(poll.votes, vec![0, 0]);
    assert!(poll.voters.is_empty());
    assert_eq!(registry.vote(id, 0, "mallory".to_string()), Ok(()));
}

#[test]
fn error_messages() {
    assert_eq!(ErrorKind::PollNotFound.message(), "Poll not found");
    assert_eq!(ErrorKind::AlreadyVoted.message(), "Already voted");
    assert_eq!(ErrorKind::InvalidOption.message(), "Invalid option");
}
