//! Round composition: the cumulative set of already-asked questions, and the
//! selector that draws a fresh difficulty-balanced round or signals that the
//! store is exhausted.

use vstd::prelude::*;
use crate::question::{Difficulty, Question};
use rand::seq::SliceRandom;

verus! {

/// How many easy questions a round holds; they come first.
pub const EASY_PER_ROUND: usize = 4;

/// How many medium questions a round holds; they follow the easy ones.
pub const MEDIUM_PER_ROUND: usize = 3;

/// How many hard questions a round holds; they close the round.
pub const HARD_PER_ROUND: usize = 3;

/// How many questions a round holds in all.
pub const QUESTIONS_PER_ROUND: usize = 10;

/// Appending an element that a duplicate-free sequence does not hold keeps
/// the sequence duplicate-free.
proof fn lemma_push_fresh_keeps_no_duplicates(s: Seq<usize>, i: usize)
    requires
        s.no_duplicates(),
        !s.contains(i),
    ensures
        s.push(i).no_duplicates(),
{
    assert forall|a: int, b: int|
        0 <= a < s.push(i).len() && 0 <= b < s.push(i).len() && a != b implies s.push(i)[a]
        != s.push(i)[b] by {
        if a < s.len() && b < s.len() {
        } else if a == s.len() {
            assert(s.push(i)[b] == s[b]);
        } else {
            assert(s.push(i)[a] == s[a]);
        }
    }
}

/// The identifiers (indices into the question store) of every question
/// already presented in the session. It only ever grows.
pub struct AskedSet {
    asked: Vec<usize>,
}

impl AskedSet {
    /// The asked identifiers in insertion order.
    pub closed spec fn view(&self) -> Seq<usize> {
        self.asked@
    }

    /// No question is recorded twice.
    pub open spec fn wf(&self) -> bool {
        self@.no_duplicates()
    }

    /// An empty set, for the start of a session.
    pub fn new() -> (r: AskedSet)
        ensures
            r@ == Seq::<usize>::empty(),
            r.wf(),
    {
        AskedSet { asked: Vec::new() }
    }

    /// How many distinct questions have been asked so far.
    pub fn len(&self) -> (r: usize)
        ensures
            r == self@.len(),
    {
        self.asked.len()
    }

    /// Whether question `i` has already been asked.
    pub fn contains(&self, i: usize) -> (r: bool)
        ensures
            r == self@.contains(i),
    {
        let mut k: usize = 0;
        while k < self.asked.len()
            invariant
                k <= self.asked@.len(),
                forall|j: int| 0 <= j < k ==> self.asked@[j] != i,
            decreases self.asked@.len() - k,
        {
            if self.asked[k] == i {
                return true;
            }
            k = k + 1;
        }
        false
    }

    /// Records a question as asked. The set only grows: the old contents stay
    /// in place and the new identifier is appended.
    pub fn insert(&mut self, i: usize)
        requires
            old(self).wf(),
            !old(self)@.contains(i),
        ensures
            final(self)@ == old(self)@.push(i),
            final(self).wf(),
            final(self)@.len() == old(self)@.len() + 1,
    {
        proof {
            lemma_push_fresh_keeps_no_duplicates(self.asked@, i);
        }
        self.asked.push(i);
    }
}

/// One round: the store indices of its ten questions in presentation order,
/// easy first, then medium, then hard.
pub struct Round {
    pub indices: Vec<usize>,
}

impl View for Round {
    type V = Seq<usize>;

    closed spec fn view(&self) -> Seq<usize> {
        self.indices@
    }
}

impl Round {
    /// How many questions the round holds.
    pub fn len(&self) -> (r: usize)
        ensures
            r == self@.len(),
    {
        self.indices.len()
    }

    /// The store index of the round's `k`-th question.
    pub fn index_at(&self, k: usize) -> (r: usize)
        requires
            k < self@.len(),
        ensures
            r == self@[k as int],
    {
        self.indices[k]
    }
}

/// A well-formed round against a store and an asked set: ten distinct store
/// indices, none already asked, laid out as four easy questions, then three
/// medium, then three hard.
pub open spec fn round_wf(r: Seq<usize>, qs: Seq<Question>, asked: Seq<usize>) -> bool {
    &&& r.len() == 10
    &&& r.no_duplicates()
    &&& forall|k: int| 0 <= k < r.len() ==> r[k] < qs.len() && !asked.contains(#[trigger] r[k])
    &&& forall|k: int| 0 <= k < 4 ==> qs[#[trigger] r[k] as int].difficulty == Difficulty::Easy
    &&& forall|k: int| 4 <= k < 7 ==> qs[#[trigger] r[k] as int].difficulty == Difficulty::Medium
    &&& forall|k: int| 7 <= k < 10 ==> qs[#[trigger] r[k] as int].difficulty == Difficulty::Hard
}

/// How many of the first `n` questions belong to tier `d` and are not yet in
/// the asked set.
pub open spec fn count_unasked_upto(
    qs: Seq<Question>,
    asked: Seq<usize>,
    d: Difficulty,
    n: int,
) -> int
    decreases n,
{
    if n <= 0 {
        0
    } else {
        count_unasked_upto(qs, asked, d, n - 1) + if qs[n - 1].difficulty == d && !asked.contains(
            (n - 1) as usize,
        ) {
            1int
        } else {
            0int
        }
    }
}

/// How many questions of tier `d` are still unasked in the whole store.
pub open spec fn count_unasked(qs: Seq<Question>, asked: Seq<usize>, d: Difficulty) -> int {
    count_unasked_upto(qs, asked, d, qs.len() as int)
}

/// How many of the round's first `k` questions belong to tier `d`.
pub open spec fn round_tier_count(r: Seq<usize>, qs: Seq<Question>, d: Difficulty, k: int) -> int
    decreases k,
{
    if k <= 0 {
        0
    } else {
        round_tier_count(r, qs, d, k - 1) + if qs[r[k - 1] as int].difficulty == d {
            1int
        } else {
            0int
        }
    }
}

/// Marking one unasked question of tier `d` as asked lowers that tier's
/// unasked count by one; marking a question of another tier, or one already
/// asked, leaves the count as it was.
proof fn lemma_count_after_one_mark(
    qs: Seq<Question>,
    asked: Seq<usize>,
    x: usize,
    d: Difficulty,
    n: int,
)
    requires
        n <= usize::MAX,
    ensures
        count_unasked_upto(qs, asked.push(x), d, n) == count_unasked_upto(qs, asked, d, n) - (
        if (x as int) < n && qs[x as int].difficulty == d && !asked.contains(x) {
            1int
        } else {
            0int
        }),
    decreases n,
{
    if n > 0 {
        lemma_count_after_one_mark(qs, asked, x, d, n - 1);
        let m = (n - 1) as usize;
        assert(asked.push(x).contains(m) <==> (asked.contains(m) || m == x)) by {
            if asked.contains(m) {
                let j = choose|j: int| 0 <= j < asked.len() && asked[j] == m;
                assert(asked.push(x)[j] == m);
            }
            if m == x {
                assert(asked.push(x)[asked.len() as int] == m);
            }
            if asked.push(x).contains(m) {
                let j = choose|j: int| 0 <= j < asked.push(x).len() && asked.push(x)[j] == m;
                if j < asked.len() {
                    assert(asked[j] == m);
                }
            }
        }
    }
}

/// Folding a round's first `k` questions into the asked set lowers each
/// tier's unasked count by exactly the number of the round's questions of
/// that tier among them.
proof fn lemma_count_after_marks(
    qs: Seq<Question>,
    asked: Seq<usize>,
    r: Seq<usize>,
    d: Difficulty,
    k: int,
)
    requires
        0 <= k <= r.len(),
        qs.len() <= usize::MAX,
        r.no_duplicates(),
        forall|j: int| 0 <= j < r.len() ==> r[j] < qs.len() && !asked.contains(#[trigger] r[j]),
    ensures
        count_unasked(qs, asked + r.take(k), d) == count_unasked(qs, asked, d) - round_tier_count(
            r,
            qs,
            d,
            k,
        ),
    decreases k,
{
    if k == 0 {
        assert(asked + r.take(0) =~= asked);
    } else {
        lemma_count_after_marks(qs, asked, r, d, k - 1);
        let prev = asked + r.take(k - 1);
        let x = r[k - 1];
        assert(asked + r.take(k) =~= prev.push(x));
        assert(!prev.contains(x)) by {
            if prev.contains(x) {
                let j = choose|j: int| 0 <= j < prev.len() && prev[j] == x;
                if j < asked.len() {
                    assert(asked[j] == x);
                    assert(asked.contains(r[k - 1]));
                } else {
                    assert(r.take(k - 1)[j - asked.len()] == x);
                    assert(r[j - asked.len()] == r[k - 1]);
                }
            }
        }
        lemma_count_after_one_mark(qs, prev, x, d, qs.len() as int);
    }
}

/// Folding a whole well-formed round into the asked set lowers the unasked
/// counts by exactly the round's tier sizes: four easy, three medium, three
/// hard. With that, a store holding exactly one round's worth of each tier
/// is exhausted once that round is played, whatever was answered.
pub proof fn lemma_counts_after_round(qs: Seq<Question>, asked: Seq<usize>, r: Seq<usize>)
    requires
        round_wf(r, qs, asked),
        qs.len() <= usize::MAX,
    ensures
        count_unasked(qs, asked + r, Difficulty::Easy) == count_unasked(
            qs,
            asked,
            Difficulty::Easy,
        ) - 4,
        count_unasked(qs, asked + r, Difficulty::Medium) == count_unasked(
            qs,
            asked,
            Difficulty::Medium,
        ) - 3,
        count_unasked(qs, asked + r, Difficulty::Hard) == count_unasked(
            qs,
            asked,
            Difficulty::Hard,
        ) - 3,
{
    assert(r.take(10) =~= r);
    lemma_count_after_marks(qs, asked, r, Difficulty::Easy, 10);
    lemma_count_after_marks(qs, asked, r, Difficulty::Medium, 10);
    lemma_count_after_marks(qs, asked, r, Difficulty::Hard, 10);
    assert(round_tier_count(r, qs, Difficulty::Easy, 10) == 4) by {
        reveal_with_fuel(round_tier_count, 11);
    }
    assert(round_tier_count(r, qs, Difficulty::Medium, 10) == 3) by {
        reveal_with_fuel(round_tier_count, 11);
    }
    assert(round_tier_count(r, qs, Difficulty::Hard, 10) == 3) by {
        reveal_with_fuel(round_tier_count, 11);
    }
}

/// A store with exactly one round's worth of unasked questions in each tier
/// supports exactly that one round: once it is folded into the asked set,
/// every tier is used up, so the next selection is exhausted whatever was
/// answered.
pub proof fn lemma_one_round_then_exhausted(qs: Seq<Question>, asked: Seq<usize>, r: Seq<usize>)
    requires
        round_wf(r, qs, asked),
        qs.len() <= usize::MAX,
        count_unasked(qs, asked, Difficulty::Easy) == 4,
        count_unasked(qs, asked, Difficulty::Medium) == 3,
        count_unasked(qs, asked, Difficulty::Hard) == 3,
    ensures
        count_unasked(qs, asked + r, Difficulty::Easy) == 0,
        count_unasked(qs, asked + r, Difficulty::Medium) == 0,
        count_unasked(qs, asked + r, Difficulty::Hard) == 0,
{
    lemma_counts_after_round(qs, asked, r);
}

/// The outcome of a selection attempt: either a playable round, or the
/// normal terminal signal that some tier has too few unasked questions left.
pub enum Selection {
    Picked(Round),
    Exhausted,
}

/// Relies on rand's `SliceRandom::shuffle` (a Fisher-Yates shuffle driven by
/// the thread-local generator): it reorders the slice in place purely by
/// swapping elements, so the contents are kept as a multiset.
#[verifier::external_body]
fn shuffle(v: &mut Vec<usize>)
    ensures
        final(v)@.to_multiset() == old(v)@.to_multiset(),
        final(v)@.len() == old(v)@.len(),
{
    v.shuffle(&mut rand::rng());
}

/// A shuffle keeps length, membership and distinctness: a sequence with the
/// same multiset as a duplicate-free one is itself duplicate-free and has the
/// same members.
proof fn lemma_permutation_preserves(pre: Seq<usize>, post: Seq<usize>)
    requires
        post.to_multiset() == pre.to_multiset(),
        pre.no_duplicates(),
    ensures
        post.no_duplicates(),
        post.len() == pre.len(),
        forall|x: usize| post.contains(x) <==> pre.contains(x),
{
    pre.to_multiset_ensures();
    post.to_multiset_ensures();
    pre.lemma_multiset_has_no_duplicates();
    post.lemma_multiset_has_no_duplicates_conv();
    assert forall|x: usize| post.contains(x) <==> pre.contains(x) by {
        assert(post.contains(x) <==> post.to_multiset().count(x) > 0);
        assert(pre.contains(x) <==> pre.to_multiset().count(x) > 0);
    }
}

/// Collects the store indices of every unasked question of tier `d`, in
/// increasing order.
fn collect_tier(questions: &Vec<Question>, asked: &AskedSet, d: Difficulty) -> (r: Vec<usize>)
    ensures
        r@.len() == count_unasked(questions@, asked@, d),
        r@.no_duplicates(),
        forall|k: int|
            0 <= k < r@.len() ==> #[trigger] r@[k] < questions@.len() && questions@[r@[k] as int].difficulty
                == d && !asked@.contains(r@[k]),
{
    let mut out: Vec<usize> = Vec::new();
    let mut i: usize = 0;
    while i < questions.len()
        invariant
            i <= questions@.len(),
            out@.len() == count_unasked_upto(questions@, asked@, d, i as int),
            out@.no_duplicates(),
            forall|k: int| 0 <= k < out@.len() ==> #[trigger] out@[k] < i,
            forall|k: int|
                0 <= k < out@.len() ==> #[trigger] out@[k] < questions@.len()
                    && questions@[out@[k] as int].difficulty == d && !asked@.contains(out@[k]),
        decreases questions@.len() - i,
    {
        let q = &questions[i];
        if q.difficulty == d && !asked.contains(i) {
            proof {
                lemma_push_fresh_keeps_no_duplicates(out@, i);
            }
            out.push(i);
        }
        i = i + 1;
    }
    out
}

/// Draws a fresh round from the unasked questions: each tier is shuffled
/// independently and the first four easy, three medium and three hard
/// questions are concatenated in that order. Returns `Exhausted` exactly
/// when some tier has fewer unasked questions than the round needs; that is
/// the session's normal end, not an error. A picked round never repeats an
/// asked question and never holds a question twice.
pub fn select_round(questions: &Vec<Question>, asked: &AskedSet) -> (r: Selection)
    requires
        asked.wf(),
    ensures
        (r is Exhausted) <==> (count_unasked(questions@, asked@, Difficulty::Easy) < 4
            || count_unasked(questions@, asked@, Difficulty::Medium) < 3 || count_unasked(
            questions@,
            asked@,
            Difficulty::Hard,
        ) < 3),
        (r matches Selection::Picked(round) ==> round_wf(round@, questions@, asked@)),
{
    let mut easy = collect_tier(questions, asked, Difficulty::Easy);
    let mut medium = collect_tier(questions, asked, Difficulty::Medium);
    let mut hard = collect_tier(questions, asked, Difficulty::Hard);
    let ghost easy0 = easy@;
    let ghost medium0 = medium@;
    let ghost hard0 = hard@;
    shuffle(&mut easy);
    shuffle(&mut medium);
    shuffle(&mut hard);
    proof {
        lemma_permutation_preserves(easy0, easy@);
        lemma_permutation_preserves(medium0, medium@);
        lemma_permutation_preserves(hard0, hard@);
    }
    if easy.len() < EASY_PER_ROUND || medium.len() < MEDIUM_PER_ROUND || hard.len()
        < HARD_PER_ROUND {
        return Selection::Exhausted;
    }
    let mut indices: Vec<usize> = Vec::new();
    indices.push(easy[0]);
    indices.push(easy[1]);
    indices.push(easy[2]);
    indices.push(easy[3]);
    indices.push(medium[0]);
    indices.push(medium[1]);
    indices.push(medium[2]);
    indices.push(hard[0]);
    indices.push(hard[1]);
    indices.push(hard[2]);
    proof {
        let r = indices@;
        let qs = questions@;
        assert forall|x: usize| easy@.contains(x) implies x < qs.len() && qs[x as int].difficulty
            == Difficulty::Easy && !asked@.contains(x) by {
            assert(easy0.contains(x));
            let k = choose|k: int| 0 <= k < easy0.len() && easy0[k] == x;
            assert(easy0[k] == x);
        }
        assert forall|x: usize| medium@.contains(x) implies x < qs.len() && qs[x as int].difficulty
            == Difficulty::Medium && !asked@.contains(x) by {
            assert(medium0.contains(x));
            let k = choose|k: int| 0 <= k < medium0.len() && medium0[k] == x;
            assert(medium0[k] == x);
        }
        assert forall|x: usize| hard@.contains(x) implies x < qs.len() && qs[x as int].difficulty
            == Difficulty::Hard && !asked@.contains(x) by {
            assert(hard0.contains(x));
            let k = choose|k: int| 0 <= k < hard0.len() && hard0[k] == x;
            assert(hard0[k] == x);
        }
        assert forall|k: int| 0 <= k < r.len() implies r[k] < qs.len() && !asked@.contains(
            #[trigger] r[k],
        ) by {
            if k < 4 {
                assert(easy@.contains(easy@[k]));
            } else if k < 7 {
                assert(medium@.contains(medium@[k - 4]));
            } else {
                assert(hard@.contains(hard@[k - 7]));
            }
        }
        assert forall|k: int| 0 <= k < 4 implies qs[#[trigger] r[k] as int].difficulty
            == Difficulty::Easy by {
            assert(easy@.contains(easy@[k]));
        }
        assert forall|k: int| 4 <= k < 7 implies qs[#[trigger] r[k] as int].difficulty
            == Difficulty::Medium by {
            assert(medium@.contains(medium@[k - 4]));
        }
        assert forall|k: int| 7 <= k < 10 implies qs[#[trigger] r[k] as int].difficulty
            == Difficulty::Hard by {
            assert(hard@.contains(hard@[k - 7]));
        }
        assert forall|a: int, b: int| 0 <= a < r.len() && 0 <= b < r.len() && a != b implies r[a]
            != r[b] by {
            if a < 4 {
                assert(easy@.contains(easy@[a]));
            } else if a < 7 {
                assert(medium@.contains(medium@[a - 4]));
            } else {
                assert(hard@.contains(hard@[a - 7]));
            }
            if b < 4 {
                assert(easy@.contains(easy@[b]));
            } else if b < 7 {
                assert(medium@.contains(medium@[b - 4]));
            } else {
                assert(hard@.contains(hard@[b - 7]));
            }
        }
        assert(round_wf(indices@, questions@, asked@));
    }
    Selection::Picked(Round { indices })
}

} // verus!
