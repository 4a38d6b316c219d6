//! The closed set of eight taste categories and the customer's categorical
//! preference view over them.

use vstd::prelude::*;

verus! {

/// Number of taste categories.
pub const TASTE_COUNT: u32 = 8;

/// One of the eight fixed taste categories.
#[derive(Clone, Copy, PartialEq, Eq, Structural, Debug)]
pub enum Taste {
    Sweet,
    Sour,
    Salty,
    Bitter,
    Savory,
    Spicy,
    Cool,
    Dry,
}

/// The taste with a given index, mirroring `Taste::from_u32`.
pub open spec fn taste_of(value: int) -> Taste {
    if value == 0 {
        Taste::Sweet
    } else if value == 1 {
        Taste::Sour
    } else if value == 2 {
        Taste::Salty
    } else if value == 3 {
        Taste::Bitter
    } else if value == 4 {
        Taste::Savory
    } else if value == 5 {
        Taste::Spicy
    } else if value == 6 {
        Taste::Cool
    } else {
        Taste::Dry
    }
}

impl Taste {
    /// The index of this taste, inverse of `taste_of`.
    pub open spec fn index(self) -> int {
        match self {
            Taste::Sweet => 0,
            Taste::Sour => 1,
            Taste::Salty => 2,
            Taste::Bitter => 3,
            Taste::Savory => 4,
            Taste::Spicy => 5,
            Taste::Cool => 6,
            Taste::Dry => 7,
        }
    }

    /// Decodes a taste from its index.
    pub fn from_u32(value: u32) -> (r: Taste)
        requires
            value < TASTE_COUNT,
        ensures
            r == taste_of(value as int),
            r.index() == value,
    {
        match value {
            0 => Taste::Sweet,
            1 => Taste::Sour,
            2 => Taste::Salty,
            3 => Taste::Bitter,
            4 => Taste::Savory,
            5 => Taste::Spicy,
            6 => Taste::Cool,
            _ => Taste::Dry,
        }
    }

    /// The display name of this taste.
    pub open spec fn spec_name(self) -> Seq<char> {
        match self {
            Taste::Sweet => "Sweet"@,
            Taste::Sour => "Sour"@,
            Taste::Salty => "Salty"@,
            Taste::Bitter => "Bitter"@,
            Taste::Savory => "Savory"@,
            Taste::Spicy => "Spicy"@,
            Taste::Cool => "Cool"@,
            Taste::Dry => "Dry"@,
        }
    }

    /// The display name of this taste.
    pub fn as_str(&self) -> (r: &'static str)
        ensures
            r@ == self.spec_name(),
    {
        match self {
            Taste::Sweet => "Sweet",
            Taste::Sour => "Sour",
            Taste::Salty => "Salty",
            Taste::Bitter => "Bitter",
            Taste::Savory => "Savory",
            Taste::Spicy => "Spicy",
            Taste::Cool => "Cool",
            Taste::Dry => "Dry",
        }
    }
}

/// The categorical view of one palate sample, in fixed-point milli-units:
/// `Like` above 1.0, `Normal` in (0.0, 1.0], `Resist` at exactly 0.0 and
/// `Dislike` below 0.0.
#[derive(Clone, Copy, PartialEq, Eq, Structural, Debug)]
pub enum Preference {
    Like,
    Dislike,
    Resist,
    Normal,
}

/// The preference category of an intensity given in milli-units.
pub open spec fn preference_of(n: int) -> Preference {
    if n < 0 {
        Preference::Dislike
    } else if n > 1000 {
        Preference::Like
    } else if n > 0 {
        Preference::Normal
    } else {
        Preference::Resist
    }
}

impl Preference {
    /// Classifies an intensity in milli-units into its preference category.
    pub fn from_milli(n: i64) -> (r: Preference)
        ensures
            r == preference_of(n as int),
    {
        if n < 0 {
            Preference::Dislike
        } else if n > 1000 {
            Preference::Like
        } else if n > 0 {
            Preference::Normal
        } else {
            Preference::Resist
        }
    }
}

} // verus!
