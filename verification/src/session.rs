//! The session loop's verified core: recording a played round into the asked
//! set, scoring a round from its outcomes, the continue decision, and the
//! state machine that orders the phases of a session.

use vstd::prelude::*;
use crate::collector::CollectResult;
use crate::question::{spec_answer_index, answer_index, Question};
use crate::scorer::{spec_points, ScoreState};
use crate::selector::{round_wf, AskedSet, Round};
use crate::text::str_eq;

verus! {

/// Whether an outcome answers the question correctly: some key arrived and
/// it names the question's correct option. A timeout is never correct.
pub open spec fn spec_correct(q: Question, res: CollectResult) -> bool {
    res matches CollectResult::Answered(c) && spec_answer_index(c) == Some(q.answer)
}

/// Whether the collected outcome is the correct answer to `q`.
pub fn answer_is_correct(q: &Question, res: &CollectResult) -> (r: bool)
    ensures
        r == spec_correct(*q, *res),
{
    match res {
        CollectResult::Answered(c) => {
            match answer_index(*c) {
                Some(idx) => idx == q.answer,
                None => false,
            }
        },
        CollectResult::TimedOut => false,
    }
}

/// Whether the continue gate must run after this outcome: after a wrong
/// answer or a timeout the player pages through the correction, never after
/// a correct answer.
pub fn gate_required(q: &Question, res: &CollectResult) -> (r: bool)
    ensures
        r == !spec_correct(*q, *res),
{
    !answer_is_correct(q, res)
}

/// Folds a fully played round into the asked set: every question of the
/// round is recorded, whatever its outcome was. The set only grows — the old
/// contents stay as a prefix — and its size rises by exactly the round's
/// length.
pub fn mark_round_asked(asked: &mut AskedSet, round: &Round)
    requires
        old(asked).wf(),
        round@.no_duplicates(),
        forall|k: int| 0 <= k < round@.len() ==> !old(asked)@.contains(#[trigger] round@[k]),
    ensures
        final(asked)@ == old(asked)@ + round@,
        final(asked).wf(),
        final(asked)@.len() == old(asked)@.len() + round@.len(),
        old(asked)@.is_prefix_of(final(asked)@),
{
    let ghost pre = asked@;
    let n = round.len();
    let mut k: usize = 0;
    while k < n
        invariant
            asked.wf(),
            n == round@.len(),
            k <= n,
            round@.no_duplicates(),
            forall|j: int| 0 <= j < round@.len() ==> !pre.contains(#[trigger] round@[j]),
            asked@ == pre + round@.take(k as int),
        decreases n - k,
    {
        let idx = round.index_at(k);
        proof {
            let cur = pre + round@.take(k as int);
            assert(!cur.contains(idx)) by {
                if cur.contains(idx) {
                    let i = choose|i: int| 0 <= i < cur.len() && cur[i] == idx;
                    if i < pre.len() {
                        assert(pre[i] == idx);
                        assert(pre.contains(round@[k as int]));
                    } else {
                        assert(round@.take(k as int)[i - pre.len()] == idx);
                        assert(round@[i - pre.len()] == round@[k as int]);
                    }
                }
            }
        }
        asked.insert(idx);
        proof {
            assert(asked@ =~= pre + round@.take(k as int + 1));
        }
        k = k + 1;
    }
    proof {
        assert(round@.take(n as int) =~= round@);
        assert(pre.is_prefix_of(asked@)) by {
            assert(asked@.take(pre.len() as int) =~= pre);
        }
    }
}

/// Over a whole session the asked set only grows and never holds a question
/// twice: folding in a fully played well-formed round keeps everything asked
/// before, adds no duplicate, and raises the size by exactly the ten
/// questions of the round.
pub proof fn lemma_asked_set_round_growth(
    pre: Seq<usize>,
    post: Seq<usize>,
    r: Seq<usize>,
    qs: Seq<Question>,
)
    requires
        pre.no_duplicates(),
        round_wf(r, qs, pre),
        post == pre + r,
    ensures
        post.len() == pre.len() + 10,
        pre.is_prefix_of(post),
        post.no_duplicates(),
{
    assert forall|i: int, j: int| 0 <= i < pre.len() && 0 <= j < r.len() implies pre[i] != r[j] by {
        if pre[i] == r[j] {
            assert(pre.contains(r[j]));
        }
    }
    vstd::seq_lib::lemma_no_dup_in_concat(pre, r);
    assert(post.take(pre.len() as int) =~= pre);
}

/// The possible points of the first `n` questions of a round: the sum of
/// their difficulties' point values.
pub open spec fn spec_possible_upto(qs: Seq<Question>, r: Seq<usize>, n: int) -> int
    decreases n,
{
    if n <= 0 {
        0
    } else {
        spec_possible_upto(qs, r, n - 1) + spec_points(qs[r[n - 1] as int].difficulty)
    }
}

/// The earned points of the first `n` questions of a round: the sum of the
/// point values of the correctly answered ones.
pub open spec fn spec_earned_upto(
    qs: Seq<Question>,
    r: Seq<usize>,
    outs: Seq<CollectResult>,
    n: int,
) -> int
    decreases n,
{
    if n <= 0 {
        0
    } else {
        spec_earned_upto(qs, r, outs, n - 1) + if spec_correct(qs[r[n - 1] as int], outs[n - 1]) {
            spec_points(qs[r[n - 1] as int].difficulty) as int
        } else {
            0
        }
    }
}

/// Scores one fully played round: one outcome per question, in presentation
/// order. The possible points sum every question's value; the earned points
/// sum the values of the correctly answered ones.
pub fn score_round(questions: &Vec<Question>, round: &Round, outcomes: &Vec<CollectResult>) -> (r:
    ScoreState)
    requires
        forall|k: int| 0 <= k < round@.len() ==> #[trigger] round@[k] < questions@.len(),
        outcomes@.len() == round@.len(),
        round@.len() * 30 <= u32::MAX,
    ensures
        r.possible == spec_possible_upto(questions@, round@, round@.len() as int),
        r.earned == spec_earned_upto(questions@, round@, outcomes@, round@.len() as int),
        r.wf(),
{
    let mut st = ScoreState::new();
    let n = round.len();
    let mut k: usize = 0;
    while k < n
        invariant
            st.wf(),
            n == round@.len(),
            k <= n,
            outcomes@.len() == round@.len(),
            round@.len() * 30 <= u32::MAX,
            forall|j: int| 0 <= j < round@.len() ==> #[trigger] round@[j] < questions@.len(),
            st.possible == spec_possible_upto(questions@, round@, k as int),
            st.earned == spec_earned_upto(questions@, round@, outcomes@, k as int),
            st.possible <= k * 30,
        decreases n - k,
    {
        let idx = round.index_at(k);
        let q = &questions[idx];
        let correct = answer_is_correct(q, &outcomes[k]);
        proof {
            assert(spec_points(q.difficulty) <= 30);
            assert(k * 30 + 30 == (k + 1) * 30) by (nonlinear_arith);
            assert((k + 1) * 30 <= n * 30) by (nonlinear_arith)
                requires
                    k < n,
            ;
        }
        st.record(q.difficulty, correct);
        k = k + 1;
    }
    st
}

/// Answering every question of a round correctly earns every point at
/// stake: the earned points equal the possible points, so the round scores
/// the full 100.0% and the highest grade.
pub proof fn lemma_all_correct_earns_all(
    qs: Seq<Question>,
    r: Seq<usize>,
    outs: Seq<CollectResult>,
    n: int,
)
    requires
        n <= r.len(),
        outs.len() == r.len(),
        forall|k: int| 0 <= k < r.len() ==> spec_correct(qs[#[trigger] r[k] as int], outs[k]),
    ensures
        spec_earned_upto(qs, r, outs, n) == spec_possible_upto(qs, r, n),
    decreases n,
{
    if n > 0 {
        lemma_all_correct_earns_all(qs, r, outs, n - 1);
    }
}

/// The per-round continue prompt accepts exactly "y" or "Y" as the wish to
/// keep playing; anything else ends the session.
pub fn wants_continue(reply: &str) -> (r: bool)
    ensures
        r == (reply@ == "y"@ || reply@ == "Y"@),
{
    str_eq(reply, "y") || str_eq(reply, "Y")
}

/// The phases of a quiz session. `PlayingQuestion(i)` presents the round's
/// question at position `i` (counting from zero); `Terminated` is absorbing.
#[derive(Clone, Copy, PartialEq, Eq, Structural, Debug)]
pub enum SessionState {
    AwaitingRound,
    PlayingQuestion(usize),
    RoundComplete,
    AwaitingContinueDecision,
    Terminated,
}

/// What just happened, as far as the session loop is concerned.
#[derive(Clone, Copy, PartialEq, Eq, Structural, Debug)]
pub enum SessionEvent {
    RoundReady,
    StoreExhausted,
    QuestionResolved,
    ScoreShown,
    ContinueYes,
    ContinueNo,
}

/// The session transition relation, for a round of `round_len` questions:
/// a ready round starts play at the first question; exhaustion terminates;
/// each resolved question advances or completes the round; the shown score
/// leads to the continue decision; yes starts the next round, no terminates.
/// An event that does not belong to the current phase changes nothing, and
/// `Terminated` is never left.
pub open spec fn spec_session_next(
    s: SessionState,
    e: SessionEvent,
    round_len: usize,
) -> SessionState {
    match (s, e) {
        (SessionState::AwaitingRound, SessionEvent::RoundReady) => SessionState::PlayingQuestion(
            0usize,
        ),
        (SessionState::AwaitingRound, SessionEvent::StoreExhausted) => SessionState::Terminated,
        (SessionState::PlayingQuestion(i), SessionEvent::QuestionResolved) => if i + 1
            < round_len {
            SessionState::PlayingQuestion((i + 1) as usize)
        } else {
            SessionState::RoundComplete
        },
        (SessionState::RoundComplete, SessionEvent::ScoreShown) => SessionState::AwaitingContinueDecision,
        (SessionState::AwaitingContinueDecision, SessionEvent::ContinueYes) => SessionState::AwaitingRound,
        (SessionState::AwaitingContinueDecision, SessionEvent::ContinueNo) => SessionState::Terminated,
        _ => s,
    }
}

/// Advances the session by one event, per the transition relation.
pub fn session_next(s: SessionState, e: SessionEvent, round_len: usize) -> (r: SessionState)
    ensures
        r == spec_session_next(s, e, round_len),
{
    match (s, e) {
        (SessionState::AwaitingRound, SessionEvent::RoundReady) => SessionState::PlayingQuestion(
            0,
        ),
        (SessionState::AwaitingRound, SessionEvent::StoreExhausted) => SessionState::Terminated,
        (SessionState::PlayingQuestion(i), SessionEvent::QuestionResolved) => {
            if round_len > 0 && i < round_len - 1 {
                SessionState::PlayingQuestion(i + 1)
            } else {
                SessionState::RoundComplete
            }
        },
        (SessionState::RoundComplete, SessionEvent::ScoreShown) => SessionState::AwaitingContinueDecision,
        (SessionState::AwaitingContinueDecision, SessionEvent::ContinueYes) => SessionState::AwaitingRound,
        (SessionState::AwaitingContinueDecision, SessionEvent::ContinueNo) => SessionState::Terminated,
        _ => s,
    }
}

/// Once the session has terminated, no event leaves that state.
pub proof fn lemma_terminated_absorbing(e: SessionEvent, round_len: usize)
    ensures
        spec_session_next(SessionState::Terminated, e, round_len) == SessionState::Terminated,
{
}

} // verus!
