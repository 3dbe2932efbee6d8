//! The candle timeframes: their weights and their text forms.

use vstd::prelude::*;
use vstd::string::StrSliceExecFns;
use vstd::string::StringExecFns;

verus! {

/// A candle timeframe.
///
/// Two timeframes are equal when they are the same variant; the weight plays
/// no part in equality or hashing.
#[derive(Clone, Copy, Debug, PartialEq, Eq, Hash, Structural)]
#[allow(clippy::upper_case_acronyms)]
pub enum Timeframe {
    /// 1 minute
    M1,
    /// 5 minutes
    M5,
    /// 15 minutes
    M15,
    /// 30 minutes
    M30,
    /// 1 hour
    H1,
    /// 2 hours
    H2,
    /// 4 hours
    H4,
    /// 6 hours
    H6,
    /// 8 hours
    H8,
    /// 12 hours
    H12,
    /// 1 day
    D1,
    /// 3 days
    D3,
    /// 1 week
    W1,
    /// 1 month
    MOS1,
}

/// What `Timeframe::parse` answers to a text that names no timeframe.
pub open spec fn invalid_timeframe_message(text: Seq<char>) -> Seq<char> {
    "Invalid timeframe: "@ + text
}

/// All the timeframes, shortest first.
pub open spec fn all_timeframes() -> Seq<Timeframe> {
    seq![
        Timeframe::M1,
        Timeframe::M5,
        Timeframe::M15,
        Timeframe::M30,
        Timeframe::H1,
        Timeframe::H2,
        Timeframe::H4,
        Timeframe::H6,
        Timeframe::H8,
        Timeframe::H12,
        Timeframe::D1,
        Timeframe::D3,
        Timeframe::W1,
        Timeframe::MOS1,
    ]
}

impl Timeframe {
    /// The weight of the timeframe: its length in minutes, a month counting
    /// as thirty days.
    pub open spec fn spec_weight(self) -> nat {
        match self {
            Timeframe::M1 => 1,
            Timeframe::M5 => 5,
            Timeframe::M15 => 15,
            Timeframe::M30 => 30,
            Timeframe::H1 => 60,
            Timeframe::H2 => 120,
            Timeframe::H4 => 240,
            Timeframe::H6 => 360,
            Timeframe::H8 => 480,
            Timeframe::H12 => 720,
            Timeframe::D1 => 1_440,
            Timeframe::D3 => 4_320,
            Timeframe::W1 => 10_080,
            Timeframe::MOS1 => 43_200,
        }
    }

    /// The text form of the timeframe.
    pub open spec fn spec_label(self) -> Seq<char> {
        match self {
            Timeframe::M1 => seq!['1', 'm'],
            Timeframe::M5 => seq!['5', 'm'],
            Timeframe::M15 => seq!['1', '5', 'm'],
            Timeframe::M30 => seq!['3', '0', 'm'],
            Timeframe::H1 => seq!['1', 'h'],
            Timeframe::H2 => seq!['2', 'h'],
            Timeframe::H4 => seq!['4', 'h'],
            Timeframe::H6 => seq!['6', 'h'],
            Timeframe::H8 => seq!['8', 'h'],
            Timeframe::H12 => seq!['1', '2', 'h'],
            Timeframe::D1 => seq!['1', 'd'],
            Timeframe::D3 => seq!['3', 'd'],
            Timeframe::W1 => seq!['1', 'w'],
            Timeframe::MOS1 => seq!['1', 'M'],
        }
    }

    /// The timeframe that a text names, if it names one.
    pub open spec fn spec_parse(text: Seq<char>) -> Option<Timeframe> {
        if text == Timeframe::M1.spec_label() {
            Some(Timeframe::M1)
        } else if text == Timeframe::M5.spec_label() {
            Some(Timeframe::M5)
        } else if text == Timeframe::M15.spec_label() {
            Some(Timeframe::M15)
        } else if text == Timeframe::M30.spec_label() {
            Some(Timeframe::M30)
        } else if text == Timeframe::H1.spec_label() {
            Some(Timeframe::H1)
        } else if text == Timeframe::H2.spec_label() {
            Some(Timeframe::H2)
        } else if text == Timeframe::H4.spec_label() {
            Some(Timeframe::H4)
        } else if text == Timeframe::H6.spec_label() {
            Some(Timeframe::H6)
        } else if text == Timeframe::H8.spec_label() {
            Some(Timeframe::H8)
        } else if text == Timeframe::H12.spec_label() {
            Some(Timeframe::H12)
        } else if text == Timeframe::D1.spec_label() {
            Some(Timeframe::D1)
        } else if text == Timeframe::D3.spec_label() {
            Some(Timeframe::D3)
        } else if text == Timeframe::W1.spec_label() {
            Some(Timeframe::W1)
        } else if text == Timeframe::MOS1.spec_label() {
            Some(Timeframe::MOS1)
        } else {
            None
        }
    }

    /// The weight of the timeframe, in minutes.
    pub fn weight(self) -> (w: usize)
        ensures
            w == self.spec_weight(),
    {
        match self {
            Timeframe::M1 => 1,
            Timeframe::M5 => 5,
            Timeframe::M15 => 15,
            Timeframe::M30 => 30,
            Timeframe::H1 => 60,
            Timeframe::H2 => 120,
            Timeframe::H4 => 240,
            Timeframe::H6 => 360,
            Timeframe::H8 => 480,
            Timeframe::H12 => 720,
            Timeframe::D1 => 1_440,
            Timeframe::D3 => 4_320,
            Timeframe::W1 => 10_080,
            Timeframe::MOS1 => 43_200,
        }
    }

    /// The text form of the timeframe.
    pub fn label(&self) -> (s: &'static str)
        ensures
            s@ == self.spec_label(),
    {
        proof {
            reveal_strlit("1m");
            reveal_strlit("5m");
            reveal_strlit("15m");
            reveal_strlit("30m");
            reveal_strlit("1h");
            reveal_strlit("2h");
            reveal_strlit("4h");
            reveal_strlit("6h");
            reveal_strlit("8h");
            reveal_strlit("12h");
            reveal_strlit("1d");
            reveal_strlit("3d");
            reveal_strlit("1w");
            reveal_strlit("1M");
        }
        match self {
            Timeframe::M1 => {
                assert("1m"@ =~= seq!['1', 'm']);
                "1m"
            },
            Timeframe::M5 => {
                assert("5m"@ =~= seq!['5', 'm']);
                "5m"
            },
            Timeframe::M15 => {
                assert("15m"@ =~= seq!['1', '5', 'm']);
                "15m"
            },
            Timeframe::M30 => {
                assert("30m"@ =~= seq!['3', '0', 'm']);
                "30m"
            },
            Timeframe::H1 => {
                assert("1h"@ =~= seq!['1', 'h']);
                "1h"
            },
            Timeframe::H2 => {
                assert("2h"@ =~= seq!['2', 'h']);
                "2h"
            },
            Timeframe::H4 => {
                assert("4h"@ =~= seq!['4', 'h']);
                "4h"
            },
            Timeframe::H6 => {
                assert("6h"@ =~= seq!['6', 'h']);
                "6h"
            },
            Timeframe::H8 => {
                assert("8h"@ =~= seq!['8', 'h']);
                "8h"
            },
            Timeframe::H12 => {
                assert("12h"@ =~= seq!['1', '2', 'h']);
                "12h"
            },
            Timeframe::D1 => {
                assert("1d"@ =~= seq!['1', 'd']);
                "1d"
            },
            Timeframe::D3 => {
                assert("3d"@ =~= seq!['3', 'd']);
                "3d"
            },
            Timeframe::W1 => {
                assert("1w"@ =~= seq!['1', 'w']);
                "1w"
            },
            Timeframe::MOS1 => {
                assert("1M"@ =~= seq!['1', 'M']);
                "1M"
            },
        }
    }

    /// All the timeframes, shortest first.
    pub fn all() -> (v: Vec<Timeframe>)
        ensures
            v@ == all_timeframes(),
    {
        let v: Vec<Timeframe> = vec![
            Timeframe::M1,
            Timeframe::M5,
            Timeframe::M15,
            Timeframe::M30,
            Timeframe::H1,
            Timeframe::H2,
            Timeframe::H4,
            Timeframe::H6,
            Timeframe::H8,
            Timeframe::H12,
            Timeframe::D1,
            Timeframe::D3,
            Timeframe::W1,
            Timeframe::MOS1,
        ];
        assert(v@ =~= all_timeframes());
        v
    }

    /// Reads a timeframe from its text form. Any other text is answered with
    /// a message that quotes it.
    pub fn parse(s: &str) -> (r: Result<Timeframe, String>)
        ensures
            match r {
                Ok(tf) => Self::spec_parse(s@) == Some(tf),
                Err(e) => Self::spec_parse(s@).is_none() && e@ == invalid_timeframe_message(s@),
            },
    {
        let n: usize = s.unicode_len();
        let mut found: Option<Timeframe> = None;
        if n == 2 {
            let a: char = s.get_char(0);
            let b: char = s.get_char(1);
            assert(s@ =~= seq![a, b]);
            if b == 'm' {
                if a == '1' {
                    found = Some(Timeframe::M1);
                } else if a == '5' {
                    found = Some(Timeframe::M5);
                }
            } else if b == 'h' {
                if a == '1' {
                    found = Some(Timeframe::H1);
                } else if a == '2' {
                    found = Some(Timeframe::H2);
                } else if a == '4' {
                    found = Some(Timeframe::H4);
                } else if a == '6' {
                    found = Some(Timeframe::H6);
                } else if a == '8' {
                    found = Some(Timeframe::H8);
                }
            } else if b == 'd' {
                if a == '1' {
                    found = Some(Timeframe::D1);
                } else if a == '3' {
                    found = Some(Timeframe::D3);
                }
            } else if b == 'w' {
                if a == '1' {
                    found = Some(Timeframe::W1);
                }
            } else if b == 'M' {
                if a == '1' {
                    found = Some(Timeframe::MOS1);
                }
            }
        } else if n == 3 {
            let a: char = s.get_char(0);
            let b: char = s.get_char(1);
            let c: char = s.get_char(2);
            assert(s@ =~= seq![a, b, c]);
            if a == '1' && b == '5' && c == 'm' {
                found = Some(Timeframe::M15);
            } else if a == '3' && b == '0' && c == 'm' {
                found = Some(Timeframe::M30);
            } else if a == '1' && b == '2' && c == 'h' {
                found = Some(Timeframe::H12);
            }
        }
        proof {
            lemma_label_chars();
        }
        match found {
            Some(tf) => Ok(tf),
            None => Err(String::from_str("Invalid timeframe: ").concat(s)),
        }
    }
}

/// The length and the characters of each label, spelled out.
proof fn lemma_label_chars()
    ensures
        Timeframe::M1.spec_label().len() == 2 && Timeframe::M1.spec_label()[0] == '1' && Timeframe::M1.spec_label()[1] == 'm',
        Timeframe::M5.spec_label().len() == 2 && Timeframe::M5.spec_label()[0] == '5' && Timeframe::M5.spec_label()[1] == 'm',
        Timeframe::M15.spec_label().len() == 3 && Timeframe::M15.spec_label()[0] == '1' && Timeframe::M15.spec_label()[1] == '5' && Timeframe::M15.spec_label()[2] == 'm',
        Timeframe::M30.spec_label().len() == 3 && Timeframe::M30.spec_label()[0] == '3' && Timeframe::M30.spec_label()[1] == '0' && Timeframe::M30.spec_label()[2] == 'm',
        Timeframe::H1.spec_label().len() == 2 && Timeframe::H1.spec_label()[0] == '1' && Timeframe::H1.spec_label()[1] == 'h',
        Timeframe::H2.spec_label().len() == 2 && Timeframe::H2.spec_label()[0] == '2' && Timeframe::H2.spec_label()[1] == 'h',
        Timeframe::H4.spec_label().len() == 2 && Timeframe::H4.spec_label()[0] == '4' && Timeframe::H4.spec_label()[1] == 'h',
        Timeframe::H6.spec_label().len() == 2 && Timeframe::H6.spec_label()[0] == '6' && Timeframe::H6.spec_label()[1] == 'h',
        Timeframe::H8.spec_label().len() == 2 && Timeframe::H8.spec_label()[0] == '8' && Timeframe::H8.spec_label()[1] == 'h',
        Timeframe::H12.spec_label().len() == 3 && Timeframe::H12.spec_label()[0] == '1' && Timeframe::H12.spec_label()[1] == '2' && Timeframe::H12.spec_label()[2] == 'h',
        Timeframe::D1.spec_label().len() == 2 && Timeframe::D1.spec_label()[0] == '1' && Timeframe::D1.spec_label()[1] == 'd',
        Timeframe::D3.spec_label().len() == 2 && Timeframe::D3.spec_label()[0] == '3' && Timeframe::D3.spec_label()[1] == 'd',
        Timeframe::W1.spec_label().len() == 2 && Timeframe::W1.spec_label()[0] == '1' && Timeframe::W1.spec_label()[1] == 'w',
        Timeframe::MOS1.spec_label().len() == 2 && Timeframe::MOS1.spec_label()[0] == '1' && Timeframe::MOS1.spec_label()[1] == 'M',
{
}

/// Reading the text form of a timeframe gives that timeframe back.
pub proof fn lemma_parse_label(tf: Timeframe)
    ensures
        Timeframe::spec_parse(tf.spec_label()) == Some(tf),
{
    lemma_label_chars();
}

/// A text is read as a timeframe exactly when it is that timeframe's text
/// form.
pub proof fn lemma_parse_is_label(text: Seq<char>, tf: Timeframe)
    ensures
        Timeframe::spec_parse(text) == Some(tf) <==> text == tf.spec_label(),
{
    lemma_label_chars();
}

/// Every timeframe has a positive weight, and a longer timeframe a larger
/// one.
pub proof fn lemma_weights_increase(i: int, j: int)
    requires
        0 <= i < j < all_timeframes().len(),
    ensures
        0 < all_timeframes()[i].spec_weight() < all_timeframes()[j].spec_weight(),
{
}

impl core::str::FromStr for Timeframe {
    type Err = String;

    /// Reads a timeframe from its text form, as `parse` does.
    fn from_str(s: &str) -> (r: Result<Self, String>)
        ensures
            match r {
                Ok(tf) => Timeframe::spec_parse(s@) == Some(tf),
                Err(e) => Timeframe::spec_parse(s@).is_none() && e@ == invalid_timeframe_message(
                    s@,
                ),
            },
    {
        Timeframe::parse(s)
    }
}

impl TryFrom<String> for Timeframe {
    type Error = String;

    /// Reads a timeframe from its text form, as `parse` does.
    fn try_from(s: String) -> (r: Result<Self, String>)
        ensures
            match r {
                Ok(tf) => Timeframe::spec_parse(s@) == Some(tf),
                Err(e) => Timeframe::spec_parse(s@).is_none() && e@ == invalid_timeframe_message(
                    s@,
                ),
            },
    {
        Timeframe::parse(s.as_str())
    }
}

impl vstd::std_specs::convert::TryFromSpecImpl<String> for Timeframe {
    /// What `try_from` returns is stated on `try_from` itself, over the text
    /// of the message; nothing more is claimed here.
    open spec fn obeys_try_from_spec() -> bool {
        false
    }

    open spec fn try_from_spec(s: String) -> Result<Self, String> {
        match Timeframe::spec_parse(s@) {
            Some(tf) => Ok(tf),
            None => Err(choose|e: String| e@ == invalid_timeframe_message(s@)),
        }
    }
}

impl From<Timeframe> for String {
    /// The text form of the timeframe.
    fn from(timeframe: Timeframe) -> (s: String)
        ensures
            s@ == timeframe.spec_label(),
    {
        String::from_str(timeframe.label())
    }
}

impl vstd::std_specs::convert::FromSpecImpl<Timeframe> for String {
    /// What `from` returns is stated on `from` itself, over the text;
    /// nothing more is claimed here.
    open spec fn obeys_from_spec() -> bool {
        false
    }

    open spec fn from_spec(timeframe: Timeframe) -> String {
        choose|s: String| s@ == timeframe.spec_label()
    }
}

impl From<Timeframe> for usize {
    fn from(value: Timeframe) -> (w: usize) {
        value.weight()
    }
}

impl vstd::std_specs::convert::FromSpecImpl<Timeframe> for usize {
    open spec fn obeys_from_spec() -> bool {
        true
    }

    open spec fn from_spec(value: Timeframe) -> usize {
        value.spec_weight() as usize
    }
}

} // verus!
