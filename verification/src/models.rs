//! Record shapes for pilots, aircraft and flights, the error taxonomy of the
//! service operations, and the temporal and textual predicates the business
//! rules rest on.

use vstd::prelude::*;

verus! {

/// The errors a service operation can signal: invalid client input, a
/// uniqueness violation on the flight identifier, or no matching record.
#[derive(Clone, Copy, PartialEq, Eq, Debug)]
pub enum FlightError {
    Validation,
    Conflict,
    NotFound,
}

/// A pilot on record. Pilots are loaded as seed rows when a store is created
/// and are immutable afterwards.
pub struct Pilot {
    pub pilot_id: u32,
    pub name: String,
    pub license_number: String,
}

impl Clone for Pilot {
    fn clone(&self) -> (r: Self)
        ensures
            r == *self,
    {
        Pilot {
            pilot_id: self.pilot_id,
            name: self.name.clone(),
            license_number: self.license_number.clone(),
        }
    }
}

/// An aircraft on record, with its passenger capacity. Seed-only and
/// immutable, like `Pilot`.
pub struct Aircraft {
    pub aircraft_id: u32,
    pub model: String,
    pub capacity: u32,
}

impl Clone for Aircraft {
    fn clone(&self) -> (r: Self)
        ensures
            r == *self,
    {
        Aircraft {
            aircraft_id: self.aircraft_id,
            model: self.model.clone(),
            capacity: self.capacity,
        }
    }
}

/// A scheduled flight. The departure time is kept as seconds since the Unix
/// epoch, so temporal rules are plain integer comparisons.
#[derive(Debug)]
pub struct Flight {
    pub flight_id: u32,
    pub pilot_id: u32,
    pub aircraft_id: u32,
    pub flight_plan: String,
    pub departure_time: i64,
}

impl Clone for Flight {
    fn clone(&self) -> (r: Self)
        ensures
            r == *self,
    {
        Flight {
            flight_id: self.flight_id,
            pilot_id: self.pilot_id,
            aircraft_id: self.aircraft_id,
            flight_plan: self.flight_plan.clone(),
            departure_time: self.departure_time,
        }
    }
}

impl Flight {
    /// A flight is in the past when its departure lies strictly before the
    /// given moment.
    pub fn is_in_past(&self, now: i64) -> (r: bool)
        ensures
            r == (self.departure_time < now),
    {
        self.departure_time < now
    }
}

/// The characters bearing the Unicode `White_Space` property: the set a
/// trimming pass strips from either end of a string.
pub open spec fn is_space(c: char) -> bool {
    ||| c == ' '
    ||| c == '\t'
    ||| c == '\n'
    ||| c == '\r'
    ||| c == '\u{000B}'
    ||| c == '\u{000C}'
    ||| c == '\u{0085}'
    ||| c == '\u{00A0}'
    ||| c == '\u{1680}'
    ||| c == '\u{2000}'
    ||| c == '\u{2001}'
    ||| c == '\u{2002}'
    ||| c == '\u{2003}'
    ||| c == '\u{2004}'
    ||| c == '\u{2005}'
    ||| c == '\u{2006}'
    ||| c == '\u{2007}'
    ||| c == '\u{2008}'
    ||| c == '\u{2009}'
    ||| c == '\u{200A}'
    ||| c == '\u{2028}'
    ||| c == '\u{2029}'
    ||| c == '\u{202F}'
    ||| c == '\u{205F}'
    ||| c == '\u{3000}'
}

/// A string is blank when it holds no character besides whitespace; an empty
/// string is blank. A blank flight plan is rejected wherever a plan is taken.
pub open spec fn blank(s: Seq<char>) -> bool {
    forall|i: int| 0 <= i < s.len() ==> is_space(#[trigger] s[i])
}

/// Whether one character counts as whitespace for the blankness rule.
pub fn char_is_space(c: char) -> (r: bool)
    ensures
        r == is_space(c),
{
    match c {
        ' ' | '\t' | '\n' | '\r' => true,
        '\u{000B}' | '\u{000C}' | '\u{0085}' | '\u{00A0}' | '\u{1680}' => true,
        '\u{2000}' | '\u{2001}' | '\u{2002}' | '\u{2003}' | '\u{2004}' => true,
        '\u{2005}' | '\u{2006}' | '\u{2007}' | '\u{2008}' | '\u{2009}' => true,
        '\u{200A}' | '\u{2028}' | '\u{2029}' | '\u{202F}' | '\u{205F}' => true,
        '\u{3000}' => true,
        _ => false,
    }
}

/// Whether a flight plan is blank: empty, or whitespace through and through.
pub fn plan_is_blank(s: &str) -> (r: bool)
    ensures
        r == blank(s@),
{
    let n = s.unicode_len();
    let mut i: usize = 0;
    while i < n
        invariant
            i <= n,
            n == s@.len(),
            forall|j: int| 0 <= j < i ==> is_space(#[trigger] s@[j]),
        decreases n - i,
    {
        let c = s.get_char(i);
        if !char_is_space(c) {
            assert(!blank(s@));
            return false;
        }
        i += 1;
    }
    true
}

} // verus!
