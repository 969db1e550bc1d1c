//! Order records as an XML document body spells them, and the reading of
//! their penalty amounts.

use vstd::prelude::*;
use vstd::string::StrSliceExecFns;
use vstd::string::StringExecFns;

use crate::numbers::{int_val, parse_i64, valid_int_str};
use crate::parser::{find_char, first_sep};
use crate::pieces::FinalPiece;

verus! {

/// The orderable work pieces as the XML document names them.
#[derive(Clone, Copy, Debug, PartialEq, Eq, Structural)]
pub enum WorkdPiece {
    P5,
    P6,
    P7,
    P9,
}

impl WorkdPiece {
    /// The corresponding final piece.
    pub open spec fn spec_as_final_piece(self) -> FinalPiece {
        match self {
            WorkdPiece::P5 => FinalPiece::P5,
            WorkdPiece::P6 => FinalPiece::P6,
            WorkdPiece::P7 => FinalPiece::P7,
            WorkdPiece::P9 => FinalPiece::P9,
        }
    }

    /// The corresponding final piece.
    pub fn as_final_piece(self) -> (r: FinalPiece)
        ensures
            r == self.spec_as_final_piece(),
    {
        match self {
            WorkdPiece::P5 => FinalPiece::P5,
            WorkdPiece::P6 => FinalPiece::P6,
            WorkdPiece::P7 => FinalPiece::P7,
            WorkdPiece::P9 => FinalPiece::P9,
        }
    }

    /// The piece's two-character code.
    pub fn code(self) -> (r: &'static str)
        ensures
            r@ == self.spec_as_final_piece().spec_code(),
    {
        self.as_final_piece().code()
    }
}

/// One order as deserialized from an XML document, penalties still raw.
#[derive(Debug)]
pub struct RawClientOrder {
    pub ordernumber: i64,
    pub clientnameid: String,
    pub workpiece: WorkdPiece,
    pub quantity: i32,
    pub duedate: i32,
    pub latepen: String,
    pub earlypen: String,
}

/// The string with the first occurrence of a character removed, when one
/// occurs.
pub open spec fn spec_remove_first(s: Seq<char>, c: char) -> Seq<char> {
    let j = first_sep(s, c);
    if j >= 0 {
        s.take(j) + s.skip(j + 1)
    } else {
        s
    }
}

/// Removes the first occurrence of a character, when one occurs.
fn remove_first_char(s: &str, c: char) -> (r: String)
    ensures
        r@ == spec_remove_first(s@, c),
{
    match find_char(s, c) {
        Some(j) => {
            let len = s.unicode_len();
            let head = s.substring_char(0, j);
            let tail = s.substring_char(j + 1, len);
            let mut r = String::from_str(head);
            r.append(tail);
            proof {
                assert(s@.subrange(0, j as int) =~= s@.take(j as int));
                assert(s@.subrange(j as int + 1, s@.len() as int) =~= s@.skip(j as int + 1));
            }
            r
        },
        None => String::from_str(s),
    }
}

/// The cents named by a raw penalty string: a dollar sign and a decimal
/// point are each dropped once, and the rest must be a decimal number of
/// cents that fits.
pub open spec fn spec_penalty_cents(s: Seq<char>) -> Option<i64> {
    let t = spec_remove_first(spec_remove_first(s, '$'), '.');
    if valid_int_str(t) && i64::MIN <= int_val(t) <= i64::MAX {
        Some(int_val(t) as i64)
    } else {
        None
    }
}

impl RawClientOrder {
    /// Reads both penalty amounts into cents; `None` when either is
    /// malformed.
    pub fn parse_penalties(&self) -> (r: Option<(i64, i64)>)
        ensures
            r == (match (spec_penalty_cents(self.latepen@), spec_penalty_cents(self.earlypen@)) {
                (Some(l), Some(e)) => Some((l, e)),
                _ => None::<(i64, i64)>,
            }),
    {
        let late0 = remove_first_char(self.latepen.as_str(), '$');
        let late1 = remove_first_char(late0.as_str(), '.');
        let early0 = remove_first_char(self.earlypen.as_str(), '$');
        let early1 = remove_first_char(early0.as_str(), '.');
        let late = match parse_i64(late1.as_str()) {
            Some(v) => v,
            None => {
                return None;
            },
        };
        let early = match parse_i64(early1.as_str()) {
            Some(v) => v,
            None => {
                return None;
            },
        };
        Some((late, early))
    }
}

} // verus!
