//! Point values per difficulty, the per-round score accumulator, and the
//! percentage-to-grade bands.

use vstd::prelude::*;
use crate::question::Difficulty;
use crate::text::str_eq;

verus! {

/// Point value of a difficulty tier: Easy is worth 10, Medium 20, Hard 30.
pub open spec fn spec_points(d: Difficulty) -> u32 {
    match d {
        Difficulty::Easy => 10u32,
        Difficulty::Medium => 20u32,
        Difficulty::Hard => 30u32,
    }
}

/// The points a correctly answered question of tier `d` earns.
pub fn points_for(d: Difficulty) -> (r: u32)
    ensures
        r == spec_points(d),
{
    match d {
        Difficulty::Easy => 10,
        Difficulty::Medium => 20,
        Difficulty::Hard => 30,
    }
}

/// Point value of a difficulty named as a string: "easy" scores 10,
/// "medium" 20, "hard" 30, and any other string 0.
pub open spec fn spec_score_of(d: Seq<char>) -> i32 {
    if d == "easy"@ {
        10i32
    } else if d == "medium"@ {
        20i32
    } else if d == "hard"@ {
        30i32
    } else {
        0i32
    }
}

/// The point value of a difficulty given as its lowercase name; an
/// unrecognized name contributes no points.
pub fn get_score(difficulty: &str) -> (r: i32)
    ensures
        r == spec_score_of(difficulty@),
{
    if str_eq(difficulty, "easy") {
        10
    } else if str_eq(difficulty, "medium") {
        20
    } else if str_eq(difficulty, "hard") {
        30
    } else {
        0
    }
}

/// Per-round accumulator of earned and possible points; reset each round.
#[derive(Clone, Copy, PartialEq, Eq, Structural, Debug)]
pub struct ScoreState {
    pub earned: u32,
    pub possible: u32,
}

impl ScoreState {
    /// Earned points never exceed the possible points of the round so far.
    pub open spec fn wf(self) -> bool {
        self.earned <= self.possible
    }

    /// A fresh accumulator with nothing earned and nothing at stake.
    pub fn new() -> (r: ScoreState)
        ensures
            r.earned == 0,
            r.possible == 0,
            r.wf(),
    {
        ScoreState { earned: 0, possible: 0 }
    }

    /// Records one resolved question of tier `d`: its value always raises the
    /// possible points, and raises the earned points exactly when the answer
    /// was correct.
    pub fn record(&mut self, d: Difficulty, correct: bool)
        requires
            old(self).wf(),
            old(self).possible + spec_points(d) <= u32::MAX,
        ensures
            final(self).possible == old(self).possible + spec_points(d),
            final(self).earned == old(self).earned + (if correct {
                spec_points(d)
            } else {
                0u32
            }),
            final(self).wf(),
    {
        let pts = points_for(d);
        self.possible = self.possible + pts;
        if correct {
            self.earned = self.earned + pts;
        }
    }
}

/// The round percentage in tenths of a percent: 600 stands for 60.0%.
pub open spec fn spec_percent_tenths(earned: u32, possible: u32) -> int
    recommends
        possible > 0,
{
    (earned * 1000) / (possible as int)
}

/// Converts earned versus possible points to tenths of a percent, or `None`
/// when nothing was at stake, so a caller fails explicitly instead of
/// dividing by zero.
pub fn percentage_tenths(earned: u32, possible: u32) -> (r: Option<u32>)
    requires
        earned <= possible,
    ensures
        r is Some <==> possible > 0,
        possible > 0 ==> r == Some((spec_percent_tenths(earned, possible) as u32)),
        r is Some ==> r.unwrap() <= 1000,
    {
    if possible == 0 {
        return None;
    }
    proof {
        assert((earned as int) * 1000 / (possible as int) <= 1000) by (nonlinear_arith)
            requires
                earned <= possible,
                possible > 0,
        ;
    }
    let wide: u64 = (earned as u64) * 1000 / (possible as u64);
    Some(wide as u32)
}

/// The grade label for a percentage given in tenths of a percent, per the
/// inclusive-lower bands: 90% and above is "Ballon d'Or Worthy", then
/// "World-Class" from 70%, "Mid-table Performer" from 50%, "Bench Warmer"
/// from 30%, and "Relegation Worthy" below that.
pub open spec fn spec_grade(tenths: u32) -> Seq<char>
    recommends
        tenths <= 1000,
{
    if tenths >= 900 {
        "Ballon d'Or Worthy"@
    } else if tenths >= 700 {
        "World-Class"@
    } else if tenths >= 500 {
        "Mid-table Performer"@
    } else if tenths >= 300 {
        "Bench Warmer"@
    } else {
        "Relegation Worthy"@
    }
}

/// The grade label for a round percentage, in tenths of a percent.
pub fn grade(tenths: u32) -> (r: &'static str)
    requires
        tenths <= 1000,
    ensures
        r@ == spec_grade(tenths),
{
    if tenths >= 900 {
        "Ballon d'Or Worthy"
    } else if tenths >= 700 {
        "World-Class"
    } else if tenths >= 500 {
        "Mid-table Performer"
    } else if tenths >= 300 {
        "Bench Warmer"
    } else {
        "Relegation Worthy"
    }
}

/// Earning every point at stake is always exactly 100.0%.
pub proof fn lemma_full_marks(points: u32)
    requires
        points > 0,
    ensures
        spec_percent_tenths(points, points) == 1000,
{
    assert((points as int) * 1000 / (points as int) == 1000) by (nonlinear_arith)
        requires
            points > 0,
    ;
}

/// The grade bands are total over the whole percentage range, contiguous,
/// and non-overlapping: every percentage falls in exactly one band, and the
/// grade is the label of that band.
pub proof fn lemma_grade_bands(tenths: u32)
    requires
        tenths <= 1000,
    ensures
        (900 <= tenths <= 1000) ==> spec_grade(tenths) == "Ballon d'Or Worthy"@,
        (700 <= tenths < 900) ==> spec_grade(tenths) == "World-Class"@,
        (500 <= tenths < 700) ==> spec_grade(tenths) == "Mid-table Performer"@,
        (300 <= tenths < 500) ==> spec_grade(tenths) == "Bench Warmer"@,
        (0 <= tenths < 300) ==> spec_grade(tenths) == "Relegation Worthy"@,
        (900 <= tenths <= 1000) || (700 <= tenths < 900) || (500 <= tenths < 700) || (300 <= tenths
            < 500) || (0 <= tenths < 300),
{
}

} // verus!
