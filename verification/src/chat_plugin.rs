//! Votes from the chat: answers to the question and cards to use.

use crate::assoc::{bindings, bound, find_binding, lemma_bindings_dom, put_binding};
use crate::chat::ChatCommand;
use crate::components::{correct_id, Question};
use crate::resources::{QuizState, Score};
use crate::systems::{quiz_after, record_answer, score_after};
use crate::text::{lowercased, str_eq};
use vstd::prelude::*;

verus! {

/// How many votes it takes to act for the chat.
#[derive(Debug, Clone, Copy)]
pub struct ChatConsensusConfig {
    /// Votes needed before the leading answer is given.
    pub answer_threshold: usize,
    /// Votes needed before a card is used.
    pub card_threshold: usize,
}

/// Whether `user` is among `voters`.
pub open spec fn has_voted(voters: Seq<String>, user: Seq<char>) -> bool {
    exists|i: int| 0 <= i < voters.len() && voters[i]@ == user
}

/// One more than `count`, unless `count` is the greatest `usize`.
pub open spec fn one_more(count: usize) -> usize {
    if count < usize::MAX {
        (count + 1) as usize
    } else {
        count
    }
}

/// The votes for `choice`; none where nobody voted for it.
pub open spec fn votes_for(tally: Map<Seq<char>, usize>, choice: Seq<char>) -> usize {
    if tally.contains_key(choice) {
        tally[choice]
    } else {
        0
    }
}

/// The sum of the counts of the first `n` bindings, or the greatest `usize`
/// if the sum is greater. Where no choice is bound twice, this is the number
/// of votes in the tally.
pub open spec fn counts_total(votes: Seq<(String, usize)>, n: nat) -> nat
    decreases n,
{
    if n == 0 || n > votes.len() {
        0
    } else {
        let sum: nat = counts_total(votes, (n - 1) as nat) + votes[n - 1].1 as nat;
        if sum > usize::MAX {
            usize::MAX as nat
        } else {
            sum
        }
    }
}

/// Whether `leader` has the most votes of the tally, `count` of them.
pub open spec fn leads(tally: Map<Seq<char>, usize>, leader: Seq<char>, count: usize) -> bool {
    &&& tally.contains_key(leader)
    &&& tally[leader] == count
    &&& forall|k: Seq<char>| tally.contains_key(k) ==> #[trigger] tally[k] <= count
}

fn is_voter(voters: &Vec<String>, user: &str) -> (r: bool)
    ensures
        r == has_voted(voters@, user@),
{
    let mut i: usize = 0;
    while i < voters.len()
        invariant
            i <= voters.len(),
            forall|j: int| 0 <= j < i ==> voters[j]@ != user@,
        decreases voters.len() - i,
    {
        if str_eq(voters[i].as_str(), user) {
            return true;
        }
        i += 1;
    }
    false
}

/// Counts the vote of `user` for `choice`, unless the user has voted.
fn cast_vote(
    votes: &mut Vec<(String, usize)>,
    voters: &mut Vec<String>,
    user: &str,
    choice: &str,
) -> (r: bool)
    ensures
        r == !has_voted(old(voters)@, user@),
        !r ==> *final(votes) == *old(votes) && *final(voters) == *old(voters),
        r ==> bound(final(votes)@) == bound(old(votes)@).insert(
            choice@,
            one_more(votes_for(bound(old(votes)@), choice@)),
        ),
        r ==> forall|u: Seq<char>|
            has_voted(final(voters)@, u) <==> has_voted(old(voters)@, u) || u == user@,
{
    if is_voter(voters, user) {
        return false;
    }
    let ghost before = voters@;
    voters.push(user.to_string());
    proof {
        assert forall|u: Seq<char>| has_voted(voters@, u) <==> has_voted(before, u) || u
            == user@ by {
            if has_voted(before, u) {
                let i = choose|i: int| 0 <= i < before.len() && before[i]@ == u;
                assert(voters[i]@ == u);
            }
            if u == user@ {
                assert(voters[before.len() as int]@ == u);
            }
            if has_voted(voters@, u) {
                let i = choose|i: int| 0 <= i < voters.len() && voters[i]@ == u;
                if i < before.len() {
                    assert(before[i]@ == u);
                }
            }
        }
    }
    let count: usize = match find_binding(votes, choice) {
        Some(i) => votes[i].1,
        None => 0,
    };
    let next: usize = if count < usize::MAX {
        count + 1
    } else {
        count
    };
    put_binding(votes, choice.to_string(), next);
    true
}

/// The choice with the most votes, and its votes; none without votes.
fn leading_choice(votes: &Vec<(String, usize)>) -> (r: Option<(String, usize)>)
    ensures
        match r {
            Some((leader, count)) => leads(bound(votes@), leader@, count),
            None => bound(votes@) == Map::<Seq<char>, usize>::empty(),
        },
{
    let ghost tally = bound(votes@);
    let mut best: Option<usize> = None;
    let mut i: usize = 0;
    while i < votes.len()
        invariant
            i <= votes.len(),
            tally == bound(votes@),
            match best {
                Some(b) => {
                    &&& b < votes.len()
                    &&& tally.contains_key(votes[b as int].0@)
                    &&& tally[votes[b as int].0@] == votes[b as int].1
                    &&& forall|j: int|
                        0 <= j < i ==> tally[#[trigger] votes[j].0@] <= votes[b as int].1
                },
                None => i == 0,
            },
        decreases votes.len() - i,
    {
        proof {
            lemma_bindings_dom(votes@, votes.len() as nat, votes[i as int].0@);
        }
        match find_binding(votes, votes[i].0.as_str()) {
            Some(at) => {
                let better = match best {
                    Some(b) => votes[at].1 > votes[b].1,
                    None => true,
                };
                if better {
                    best = Some(at);
                }
            },
            None => {},
        }
        i += 1;
    }
    match best {
        Some(b) => {
            proof {
                assert forall|k: Seq<char>| tally.contains_key(k) implies #[trigger] tally[k]
                    <= votes[b as int].1 by {
                    lemma_bindings_dom(votes@, votes.len() as nat, k);
                    let j = choose|j: int| 0 <= j < votes.len() && votes[j].0@ == k;
                    assert(tally[votes[j].0@] <= votes[b as int].1);
                }
            }
            Some((votes[b].0.clone(), votes[b].1))
        },
        None => {
            proof {
                assert(tally =~= Map::<Seq<char>, usize>::empty());
            }
            None
        },
    }
}

/// The sum of the counts of all bindings.
fn sum_counts(votes: &Vec<(String, usize)>) -> (r: usize)
    ensures
        r == counts_total(votes@, votes.len() as nat),
{
    let mut total: usize = 0;
    let mut i: usize = 0;
    while i < votes.len()
        invariant
            i <= votes.len(),
            total == counts_total(votes@, i as nat),
        decreases votes.len() - i,
    {
        total = if votes[i].1 > usize::MAX - total {
            usize::MAX
        } else {
            total + votes[i].1
        };
        i += 1;
    }
    total
}

/// The answers that the chat has given to the question: each answer with
/// its votes, and the users who have voted.
#[derive(Debug, Clone)]
pub struct ChatAnswerTracker {
    pub votes: Vec<(String, usize)>,
    pub voted_users: Vec<String>,
}

impl Default for ChatAnswerTracker {
    fn default() -> (r: ChatAnswerTracker)
        ensures
            r.votes.len() == 0,
            r.voted_users.len() == 0,
    {
        ChatAnswerTracker { votes: Vec::new(), voted_users: Vec::new() }
    }
}

impl ChatAnswerTracker {
    /// The votes of each answer.
    pub open spec fn tally(&self) -> Map<Seq<char>, usize> {
        bound(self.votes@)
    }

    /// Forgets all votes and voters.
    pub fn reset(&mut self)
        ensures
            final(self).votes.len() == 0,
            final(self).voted_users.len() == 0,
    {
        self.votes.clear();
        self.voted_users.clear();
    }

    /// Counts the vote of `username` for `answer`. A user votes once: a
    /// second vote is refused and changes nothing.
    pub fn add_vote(&mut self, username: &str, answer: &str) -> (r: bool)
        ensures
            r == !has_voted(old(self).voted_users@, username@),
            !r ==> *final(self) == *old(self),
            r ==> final(self).tally() == old(self).tally().insert(
                answer@,
                one_more(votes_for(old(self).tally(), answer@)),
            ),
            r ==> forall|u: Seq<char>|
                has_voted(final(self).voted_users@, u) <==> has_voted(old(self).voted_users@, u)
                    || u == username@,
    {
        cast_vote(&mut self.votes, &mut self.voted_users, username, answer)
    }

    /// An answer with the most votes, and its votes; none without votes.
    /// Which of several answers with the most votes it is, is not said.
    pub fn get_consensus(&self) -> (r: Option<(String, usize)>)
        ensures
            match r {
                Some((answer, count)) => leads(self.tally(), answer@, count),
                None => self.tally() == Map::<Seq<char>, usize>::empty(),
            },
    {
        leading_choice(&self.votes)
    }

    /// The number of votes.
    pub fn total_votes(&self) -> (r: usize)
        ensures
            r == counts_total(self.votes@, self.votes.len() as nat),
    {
        sum_counts(&self.votes)
    }
}

/// The cards that the chat has voted to use: each card with its votes, and
/// the users who have voted.
#[derive(Debug, Clone)]
pub struct ChatCardVoteTracker {
    pub votes: Vec<(String, usize)>,
    pub voted_users: Vec<String>,
}

impl Default for ChatCardVoteTracker {
    fn default() -> (r: ChatCardVoteTracker)
        ensures
            r.votes.len() == 0,
            r.voted_users.len() == 0,
    {
        ChatCardVoteTracker { votes: Vec::new(), voted_users: Vec::new() }
    }
}

impl ChatCardVoteTracker {
    /// The votes of each card.
    pub open spec fn tally(&self) -> Map<Seq<char>, usize> {
        bound(self.votes@)
    }

    /// Forgets all votes and voters.
    pub fn reset(&mut self)
        ensures
            final(self).votes.len() == 0,
            final(self).voted_users.len() == 0,
    {
        self.votes.clear();
        self.voted_users.clear();
    }

    /// Counts the vote of `username` for `card_name`. A user votes once: a
    /// second vote is refused and changes nothing.
    pub fn add_vote(&mut self, username: &str, card_name: &str) -> (r: bool)
        ensures
            r == !has_voted(old(self).voted_users@, username@),
            !r ==> *final(self) == *old(self),
            r ==> final(self).tally() == old(self).tally().insert(
                card_name@,
                one_more(votes_for(old(self).tally(), card_name@)),
            ),
            r ==> forall|u: Seq<char>|
                has_voted(final(self).voted_users@, u) <==> has_voted(old(self).voted_users@, u)
                    || u == username@,
    {
        cast_vote(&mut self.votes, &mut self.voted_users, username, card_name)
    }

    /// A card with the most votes, and its votes; none without votes. Which
    /// of several cards with the most votes it is, is not said.
    pub fn get_winner(&self) -> (r: Option<(String, usize)>)
        ensures
            match r {
                Some((card, count)) => leads(self.tally(), card@, count),
                None => self.tally() == Map::<Seq<char>, usize>::empty(),
            },
    {
        leading_choice(&self.votes)
    }

    /// The number of votes.
    pub fn total_votes(&self) -> (r: usize)
        ensures
            r == counts_total(self.votes@, self.votes.len() as nat),
    {
        sum_counts(&self.votes)
    }
}

/// Counts the vote that a command carries, if it carries one: an answer for
/// the answers, the use of a card for the cards. Returns whether a vote was
/// counted.
pub fn process_chat_command(
    command: &ChatCommand,
    answers: &mut ChatAnswerTracker,
    cards: &mut ChatCardVoteTracker,
) -> (r: bool)
    ensures
        match *command {
            ChatCommand::Answer { username, user_id, answer } => {
                &&& r == !has_voted(old(answers).voted_users@, username@)
                &&& !r ==> *final(answers) == *old(answers)
                &&& r ==> final(answers).tally() == old(answers).tally().insert(
                    answer@,
                    one_more(votes_for(old(answers).tally(), answer@)),
                )
                &&& *final(cards) == *old(cards)
            },
            ChatCommand::UseCard { username, user_id, card_name } => {
                &&& r == !has_voted(old(cards).voted_users@, username@)
                &&& !r ==> *final(cards) == *old(cards)
                &&& r ==> final(cards).tally() == old(cards).tally().insert(
                    card_name@,
                    one_more(votes_for(old(cards).tally(), card_name@)),
                )
                &&& *final(answers) == *old(answers)
            },
            ChatCommand::Unknown => {
                &&& !r
                &&& *final(answers) == *old(answers)
                &&& *final(cards) == *old(cards)
            },
        },
{
    match command {
        ChatCommand::Answer { username, user_id, answer } => answers.add_vote(
            username.as_str(),
            answer.as_str(),
        ),
        ChatCommand::UseCard { username, user_id, card_name } => cards.add_vote(
            username.as_str(),
            card_name.as_str(),
        ),
        ChatCommand::Unknown => false,
    }
}

/// Whether the quiz takes answers: it has started, is not paused and is not
/// complete.
pub open spec fn takes_answers(quiz: QuizState) -> bool {
    quiz.game_started && !quiz.paused && !quiz.game_complete
}

/// Gives the answer that leads the chat's votes, once the votes reach the
/// threshold, to the question that is asked: the answer is scored, the quiz
/// moves on and the votes are forgotten. Returns whether an answer was
/// given; if none was, nothing is changed.
pub fn check_answer_consensus(
    config: &ChatConsensusConfig,
    answer_tracker: &mut ChatAnswerTracker,
    quiz_state: &mut QuizState,
    score: &mut Score,
    question: Option<&Question>,
) -> (r: bool)
    ensures
        r == ({
            &&& takes_answers(*old(quiz_state))
            &&& counts_total(old(answer_tracker).votes@, old(answer_tracker).votes.len() as nat)
                >= config.answer_threshold
            &&& old(answer_tracker).tally() != Map::<Seq<char>, usize>::empty()
            &&& question is Some
        }),
        !r ==> *final(answer_tracker) == *old(answer_tracker) && *final(quiz_state) == *old(
            quiz_state,
        ) && *final(score) == *old(score),
        r ==> final(answer_tracker).votes.len() == 0 && final(answer_tracker).voted_users.len() == 0,
        r ==> *final(quiz_state) == quiz_after(*old(quiz_state)),
        r ==> exists|answer: Seq<char>, count: usize|
            {
                &&& #[trigger] leads(old(answer_tracker).tally(), answer, count)
                &&& *final(score) == score_after(
                    *old(score),
                    correct_id(question->0.options@, lowercased(answer)),
                    question->0.points,
                )
            },
{
    if !quiz_state.game_started || quiz_state.paused || quiz_state.game_complete {
        return false;
    }
    if answer_tracker.total_votes() < config.answer_threshold {
        return false;
    }
    match answer_tracker.get_consensus() {
        Some((answer, count)) => match question {
            Some(asked) => {
                let correct = asked.is_correct(answer.as_str());
                record_answer(quiz_state, score, correct, asked.points);
                answer_tracker.reset();
                true
            },
            None => false,
        },
        None => false,
    }
}

/// Forgets the chat's votes when the quiz, once started, has moved.
pub fn reset_votes_on_question_change(
    changed: bool,
    quiz_state: &QuizState,
    answer_tracker: &mut ChatAnswerTracker,
    card_tracker: &mut ChatCardVoteTracker,
) -> (r: bool)
    ensures
        r == (changed && quiz_state.game_started),
        r ==> final(answer_tracker).votes.len() == 0 && final(answer_tracker).voted_users.len()
            == 0 && final(card_tracker).votes.len() == 0 && final(card_tracker).voted_users.len()
            == 0,
        !r ==> *final(answer_tracker) == *old(answer_tracker) && *final(card_tracker) == *old(
            card_tracker,
        ),
{
    if changed && quiz_state.game_started {
        answer_tracker.reset();
        card_tracker.reset();
        true
    } else {
        false
    }
}

} // verus!
