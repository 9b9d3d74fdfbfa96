//! Win/loss tallies, the win rate of a tally, and how two rates compare.

use vstd::arithmetic::div_mod::{lemma_fundamental_div_mod, lemma_mod_bound};
use vstd::prelude::*;

verus! {

/// Wins, losses and their sum.
#[derive(Clone, Copy, Debug, PartialEq, Eq, Structural)]
pub struct Tally {
    pub wins: usize,
    pub losses: usize,
    pub total: usize,
}

/// Whether a win rate rose, fell or stayed against the one it is held to.
#[derive(Clone, Copy, Debug, PartialEq, Eq, Structural)]
pub enum Trend {
    Up,
    Down,
    Neutral,
}

/// The integer nearest to `num / den`, the even one of two that are equally
/// near; 0 where `den` is 0.
pub open spec fn rounded_ratio(num: nat, den: nat) -> nat {
    if den == 0 {
        0
    } else {
        let q = num / den;
        let r = num % den;
        if 2 * r > den || (2 * r == den && q % 2 == 1) {
            q + 1
        } else {
            q
        }
    }
}

/// A quotient that is at most `bound` is still at most `bound` when rounded.
pub proof fn lemma_rounded_ratio_bound(num: nat, den: nat, bound: nat)
    requires
        num <= bound * den,
    ensures
        rounded_ratio(num, den) <= bound,
{
    if den > 0 {
        let q = num / den;
        let r = num % den;
        lemma_fundamental_div_mod(num as int, den as int);
        lemma_mod_bound(num as int, den as int);
        assert(den * q + r <= bound * den);
        if q >= bound {
            assert(den * q >= den * bound) by (nonlinear_arith)
                requires
                    q >= bound,
                    den > 0,
            ;
            assert(bound * den == den * bound) by (nonlinear_arith);
            assert(r == 0);
            assert(den * q == den * bound);
            assert(q == bound) by (nonlinear_arith)
                requires
                    den * q == den * bound,
                    den > 0,
            ;
        }
    }
}

pub(crate) fn rounded_ratio_of(num: u128, den: u128) -> (rounded: u128)
    requires
        num < u128::MAX,
    ensures
        rounded == rounded_ratio(num as nat, den as nat),
{
    if den == 0 {
        return 0;
    }
    let q = num / den;
    let r = num % den;
    proof {
        lemma_fundamental_div_mod(num as int, den as int);
        lemma_mod_bound(num as int, den as int);
        if r > 0 {
            assert(den >= 2);
            assert(den * q >= 2 * q) by (nonlinear_arith)
                requires
                    den >= 2,
                    q >= 0,
            ;
        }
    }
    if r > den - r || (r == den - r && q % 2 == 1) {
        q + 1
    } else {
        q
    }
}

impl Trend {
    pub open spec fn spec_label(&self) -> Seq<char> {
        match self {
            Trend::Up => "up"@,
            Trend::Down => "down"@,
            Trend::Neutral => "neutral"@,
        }
    }

    /// The tag of the trend on a page.
    pub fn label(&self) -> (text: &'static str)
        ensures
            text@ == self.spec_label(),
    {
        match self {
            Trend::Up => "up",
            Trend::Down => "down",
            Trend::Neutral => "neutral",
        }
    }
}

impl Tally {
    /// Every counted match is either a win or a loss.
    pub open spec fn wf(&self) -> bool {
        self.wins + self.losses == self.total
    }

    /// The win rate in percent, as a whole number: `wins / total * 100`,
    /// rounded to the nearest; 0 where nothing was played.
    pub open spec fn spec_win_rate_percent(&self) -> nat {
        rounded_ratio(self.wins as nat * 100, self.total as nat)
    }

    /// The win rate in tenths of a percent: `wins / total * 1000`, rounded to
    /// the nearest; 0 where nothing was played.
    pub open spec fn spec_win_rate_tenths(&self) -> nat {
        rounded_ratio(self.wins as nat * 1000, self.total as nat)
    }

    /// The win rate of `self` is strictly above that of `other`, as exact
    /// fractions; a tally of no match has rate 0.
    pub open spec fn spec_rate_above(&self, other: Tally) -> bool {
        if self.total == 0 {
            false
        } else if other.total == 0 {
            self.wins > 0
        } else {
            self.wins * other.total > other.wins * self.total
        }
    }

    /// How the win rate of `self` stands against that of `older`.
    pub open spec fn spec_trend_against(&self, older: Tally) -> Trend {
        if self.spec_rate_above(older) {
            Trend::Up
        } else if older.spec_rate_above(*self) {
            Trend::Down
        } else {
            Trend::Neutral
        }
    }

    /// The tally of no match at all.
    pub fn empty() -> (t: Tally)
        ensures
            t.wf(),
            t.wins == 0,
            t.losses == 0,
            t.total == 0,
    {
        Tally { wins: 0, losses: 0, total: 0 }
    }

    /// The tally with one more match, won or lost.
    pub fn record(self, won: bool) -> (t: Tally)
        requires
            self.wf(),
            self.total < usize::MAX,
        ensures
            t.wf(),
            t.total == self.total + 1,
            t.wins == self.wins + if won { 1int } else { 0int },
            t.losses == self.losses + if won { 0int } else { 1int },
    {
        if won {
            Tally { wins: self.wins + 1, losses: self.losses, total: self.total + 1 }
        } else {
            Tally { wins: self.wins, losses: self.losses + 1, total: self.total + 1 }
        }
    }

    /// The win rate in percent, between 0 and 100.
    pub fn win_rate_percent(&self) -> (rate: u32)
        requires
            self.wf(),
        ensures
            rate == self.spec_win_rate_percent(),
            0 <= rate <= 100,
            self.total == 0 ==> rate == 0,
    {
        proof {
            lemma_rounded_ratio_bound(self.wins as nat * 100, self.total as nat, 100);
        }
        rounded_ratio_of(self.wins as u128 * 100, self.total as u128) as u32
    }

    /// The win rate in tenths of a percent, between 0 and 1000.
    pub fn win_rate_tenths(&self) -> (rate: u32)
        requires
            self.wf(),
        ensures
            rate == self.spec_win_rate_tenths(),
            0 <= rate <= 1000,
            self.total == 0 ==> rate == 0,
    {
        proof {
            lemma_rounded_ratio_bound(self.wins as nat * 1000, self.total as nat, 1000);
        }
        rounded_ratio_of(self.wins as u128 * 1000, self.total as u128) as u32
    }

    /// Whether the win rate of `self` is strictly above that of `other`.
    pub fn rate_above(&self, other: &Tally) -> (above: bool)
        ensures
            above == self.spec_rate_above(*other),
    {
        if self.total == 0 {
            false
        } else if other.total == 0 {
            self.wins > 0
        } else {
            let a = self.wins as u128;
            let b = other.total as u128;
            let c = other.wins as u128;
            let d = self.total as u128;
            assert(a * b <= 0xffff_ffff_ffff_ffff * 0xffff_ffff_ffff_ffff) by (nonlinear_arith)
                requires
                    0 <= a <= 0xffff_ffff_ffff_ffff,
                    0 <= b <= 0xffff_ffff_ffff_ffff,
            ;
            assert(c * d <= 0xffff_ffff_ffff_ffff * 0xffff_ffff_ffff_ffff) by (nonlinear_arith)
                requires
                    0 <= c <= 0xffff_ffff_ffff_ffff,
                    0 <= d <= 0xffff_ffff_ffff_ffff,
            ;
            a * b > c * d
        }
    }

    /// `Up` where the win rate of `self` is above that of `older`, `Down`
    /// where it is below, `Neutral` where the two are the same.
    pub fn trend_against(&self, older: &Tally) -> (trend: Trend)
        ensures
            trend == self.spec_trend_against(*older),
    {
        if self.rate_above(older) {
            Trend::Up
        } else if older.rate_above(self) {
            Trend::Down
        } else {
            Trend::Neutral
        }
    }
}

/// Of every tally: wins and losses add up to the total, the win rate lies
/// between 0 and 100 percent, and it is 0 where nothing was played.
pub proof fn lemma_win_rate_in_range(t: Tally)
    requires
        t.wf(),
    ensures
        t.wins + t.losses == t.total,
        0 <= t.spec_win_rate_percent() <= 100,
        0 <= t.spec_win_rate_tenths() <= 1000,
        t.total == 0 ==> t.spec_win_rate_percent() == 0 && t.spec_win_rate_tenths() == 0,
{
    lemma_rounded_ratio_bound(t.wins as nat * 100, t.total as nat, 100);
    lemma_rounded_ratio_bound(t.wins as nat * 1000, t.total as nat, 1000);
}

} // verus!
