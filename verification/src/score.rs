//! The score board: hit count, miss count and cumulative score, mutated only
//! by the judging pass.

use vstd::prelude::*;

use crate::consts::THRESHOLD;

verus! {

/// Accumulates hits, misses and the score. All three fields are
/// monotonically non-decreasing: the only mutations add to them.
#[derive(Debug, Clone, Copy)]
pub struct ScoreResource {
    corrects: usize,
    fails: usize,
    score: usize,
}

/// Points awarded for a hit at signed `distance` millipixels from the target
/// center: a value from 0 to 100 proportional to how close the press was,
/// clamped to at least 10 and at most 100. Only the magnitude of the
/// distance matters.
pub open spec fn points_for(distance: int) -> int {
    let away = if distance < 0 {
        -distance
    } else {
        distance
    };
    if away >= THRESHOLD {
        10
    } else {
        let raw = (THRESHOLD - away) * 100 / (THRESHOLD as int);
        if raw < 10 {
            10
        } else if raw > 100 {
            100
        } else {
            raw
        }
    }
}

/// Every hit is worth at least 10 and at most 100 points.
pub proof fn lemma_points_for_bounds(distance: int)
    ensures
        10 <= points_for(distance) <= 100,
{
    let away = if distance < 0 {
        -distance
    } else {
        distance
    };
    if away < THRESHOLD {
        assert((THRESHOLD - away) * 100 / (THRESHOLD as int) <= 100) by (nonlinear_arith)
            requires
                0 <= away,
                (THRESHOLD - away) <= THRESHOLD,
                THRESHOLD == 20_000,
        ;
    }
}

impl ScoreResource {
    /// The cumulative score.
    pub closed spec fn spec_score(self) -> int {
        self.score as int
    }

    /// The number of arrows hit.
    pub closed spec fn spec_corrects(self) -> int {
        self.corrects as int
    }

    /// The number of arrows missed.
    pub closed spec fn spec_fails(self) -> int {
        self.fails as int
    }

    /// Increases the number of corrects and adds to the score. Scoring is a
    /// pure function of the distance: equal distances always earn equal
    /// points, and no field ever decreases.
    pub fn increase_correct(&mut self, distance: i64) -> (points: usize)
        requires
            distance != i64::MIN,
            old(self).spec_corrects() + 1 <= usize::MAX,
            old(self).spec_score() + 100 <= usize::MAX,
        ensures
            points == points_for(distance as int),
            final(self).spec_corrects() == old(self).spec_corrects() + 1,
            final(self).spec_fails() == old(self).spec_fails(),
            final(self).spec_score() == old(self).spec_score() + points_for(distance as int),
            final(self).spec_score() >= old(self).spec_score(),
    {
        proof {
            lemma_points_for_bounds(distance as int);
        }
        self.corrects = self.corrects + 1;

        // Get a value from 0 to 1000 according to how close the press was,
        // then scale it to at least 10 and at most 100 points.
        let away = if distance < 0 {
            -distance
        } else {
            distance
        };
        let points: usize = if away >= THRESHOLD {
            10
        } else {
            let raw = (THRESHOLD - away) * 100 / THRESHOLD;
            if raw < 10 {
                10
            } else if raw > 100 {
                100
            } else {
                raw as usize
            }
        };
        self.score = self.score + points;

        points
    }

    /// Increases the number of failures. The other fields are untouched and
    /// no field ever decreases.
    pub fn increase_fails(&mut self)
        requires
            old(self).spec_fails() + 1 <= usize::MAX,
        ensures
            final(self).spec_fails() == old(self).spec_fails() + 1,
            final(self).spec_corrects() == old(self).spec_corrects(),
            final(self).spec_score() == old(self).spec_score(),
    {
        self.fails = self.fails + 1;
    }

    /// Get the score.
    pub fn score(&self) -> (s: usize)
        ensures
            s == self.spec_score(),
    {
        self.score
    }

    /// Get the number of corrects.
    pub fn corrects(&self) -> (c: usize)
        ensures
            c == self.spec_corrects(),
    {
        self.corrects
    }

    /// Get the number of fails.
    pub fn fails(&self) -> (f: usize)
        ensures
            f == self.spec_fails(),
    {
        self.fails
    }
}

impl Default for ScoreResource {
    /// A fresh score board with every field zero.
    fn default() -> (s: ScoreResource)
        ensures
            s.spec_score() == 0,
            s.spec_corrects() == 0,
            s.spec_fails() == 0,
    {
        ScoreResource { corrects: 0, fails: 0, score: 0 }
    }
}

} // verus!
