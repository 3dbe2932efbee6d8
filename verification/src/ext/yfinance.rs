//! The intervals of a quote history.

use vstd::prelude::*;

verus! {

/// The span of a quote history: days, months, years, the year to date, or
/// everything.
#[derive(Clone, Copy, Debug, PartialEq, Eq, Structural)]
pub enum YfinanceInterval {
    D1,
    D5,
    Mo1,
    Mo3,
    Mo6,
    Y1,
    Y2,
    Y5,
    Y10,
    Ytd,
    Max,
}

impl YfinanceInterval {
    /// The text form of the interval.
    pub open spec fn spec_label(self) -> Seq<char> {
        match self {
            YfinanceInterval::D1 => seq!['1', 'd'],
            YfinanceInterval::D5 => seq!['5', 'd'],
            YfinanceInterval::Mo1 => seq!['1', 'm', 'o'],
            YfinanceInterval::Mo3 => seq!['3', 'm', 'o'],
            YfinanceInterval::Mo6 => seq!['6', 'm', 'o'],
            YfinanceInterval::Y1 => seq!['1', 'y'],
            YfinanceInterval::Y2 => seq!['2', 'y'],
            YfinanceInterval::Y5 => seq!['5', 'y'],
            YfinanceInterval::Y10 => seq!['1', '0', 'y'],
            YfinanceInterval::Ytd => seq!['y', 't', 'd'],
            YfinanceInterval::Max => seq!['m', 'a', 'x'],
        }
    }

    /// The text form of the interval.
    pub fn label(&self) -> (s: &'static str)
        ensures
            s@ == self.spec_label(),
    {
        proof {
            reveal_strlit("1d");
            reveal_strlit("5d");
            reveal_strlit("1mo");
            reveal_strlit("3mo");
            reveal_strlit("6mo");
            reveal_strlit("1y");
            reveal_strlit("2y");
            reveal_strlit("5y");
            reveal_strlit("10y");
            reveal_strlit("ytd");
            reveal_strlit("max");
        }
        match self {
            YfinanceInterval::D1 => {
                assert("1d"@ =~= seq!['1', 'd']);
                "1d"
            },
            YfinanceInterval::D5 => {
                assert("5d"@ =~= seq!['5', 'd']);
                "5d"
            },
            YfinanceInterval::Mo1 => {
                assert("1mo"@ =~= seq!['1', 'm', 'o']);
                "1mo"
            },
            YfinanceInterval::Mo3 => {
                assert("3mo"@ =~= seq!['3', 'm', 'o']);
                "3mo"
            },
            YfinanceInterval::Mo6 => {
                assert("6mo"@ =~= seq!['6', 'm', 'o']);
                "6mo"
            },
            YfinanceInterval::Y1 => {
                assert("1y"@ =~= seq!['1', 'y']);
                "1y"
            },
            YfinanceInterval::Y2 => {
                assert("2y"@ =~= seq!['2', 'y']);
                "2y"
            },
            YfinanceInterval::Y5 => {
                assert("5y"@ =~= seq!['5', 'y']);
                "5y"
            },
            YfinanceInterval::Y10 => {
                assert("10y"@ =~= seq!['1', '0', 'y']);
                "10y"
            },
            YfinanceInterval::Ytd => {
                assert("ytd"@ =~= seq!['y', 't', 'd']);
                "ytd"
            },
            YfinanceInterval::Max => {
                assert("max"@ =~= seq!['m', 'a', 'x']);
                "max"
            },
        }
    }
}

} // verus!
