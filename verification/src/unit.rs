//! The closed set of measurement units an ingredient can carry, and
//! their German surface names used by the model protocol.

use vstd::prelude::*;
use vstd::string::StringExecFns;

use crate::text::string_is;

verus! {

#[derive(Debug, Clone, Copy, PartialEq, Eq, Structural)]
pub enum Unit {
    Gram,
    Kilogram,
    Milliliter,
    Liter,
    Piece,
}

/// The German name a unit carries in prompts, persisted edges and the
/// serialized form.
pub open spec fn spec_unit_name(u: Unit) -> Seq<char> {
    match u {
        Unit::Gram => "Gramm"@,
        Unit::Kilogram => "Kilogramm"@,
        Unit::Milliliter => "Milliliter"@,
        Unit::Liter => "Liter"@,
        Unit::Piece => "Stück"@,
    }
}

/// The unit denoted by a surface name; the capitalized German names
/// and their all-lowercase spellings are accepted.
pub open spec fn spec_unit_of(s: Seq<char>) -> Option<Unit> {
    if s == "Gramm"@ || s == "gramm"@ {
        Some(Unit::Gram)
    } else if s == "Kilogramm"@ || s == "kilogramm"@ {
        Some(Unit::Kilogram)
    } else if s == "Milliliter"@ || s == "milliliter"@ {
        Some(Unit::Milliliter)
    } else if s == "Liter"@ || s == "liter"@ {
        Some(Unit::Liter)
    } else if s == "Stück"@ || s == "stück"@ {
        Some(Unit::Piece)
    } else {
        None
    }
}

impl Unit {
    pub fn name(&self) -> (r: String)
        ensures
            r@ == spec_unit_name(*self),
    {
        match self {
            Unit::Gram => String::from_str("Gramm"),
            Unit::Kilogram => String::from_str("Kilogramm"),
            Unit::Milliliter => String::from_str("Milliliter"),
            Unit::Liter => String::from_str("Liter"),
            Unit::Piece => String::from_str("Stück"),
        }
    }

    pub fn from_name(s: &String) -> (r: Option<Unit>)
        ensures
            r == spec_unit_of(s@),
    {
        if string_is(s, "Gramm") || string_is(s, "gramm") {
            Some(Unit::Gram)
        } else if string_is(s, "Kilogramm") || string_is(s, "kilogramm") {
            Some(Unit::Kilogram)
        } else if string_is(s, "Milliliter") || string_is(s, "milliliter") {
            Some(Unit::Milliliter)
        } else if string_is(s, "Liter") || string_is(s, "liter") {
            Some(Unit::Liter)
        } else if string_is(s, "Stück") || string_is(s, "stück") {
            Some(Unit::Piece)
        } else {
            None
        }
    }
}

/// A unit's surface name denotes the unit itself.
pub proof fn lemma_unit_name_round_trip(u: Unit)
    ensures
        spec_unit_of(spec_unit_name(u)) == Some(u),
{
    reveal_strlit("Gramm");
    reveal_strlit("gramm");
    reveal_strlit("Kilogramm");
    reveal_strlit("kilogramm");
    reveal_strlit("Milliliter");
    reveal_strlit("milliliter");
    reveal_strlit("Liter");
    reveal_strlit("liter");
    reveal_strlit("Stück");
    reveal_strlit("stück");
    assert("Gramm"@.len() == 5 && "Kilogramm"@.len() == 9 && "Milliliter"@.len() == 10
        && "Liter"@.len() == 5 && "Stück"@.len() == 5);
    assert("Gramm"@[0] == 'G' && "gramm"@[0] == 'g' && "Liter"@[0] == 'L' && "liter"@[0] == 'l'
        && "Stück"@[0] == 'S' && "stück"@[0] == 's');
}

} // verus!
