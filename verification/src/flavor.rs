//! Flavors: a total mapping from the eight tastes to a fixed-point
//! intensity in milli-units (1000 stands for an intensity of 1.0).
//!
//! Flavors are summed pointwise, and a customer's palate is a flavor drawn
//! at random per taste from a skewed four-value distribution.

use vstd::prelude::*;

verus! {

use vstd::set_lib::{lemma_int_range, set_int_range};
use crate::taste::Taste;
use crate::rng::rand_range;

/// Fixed-point scale: this many milli-units stand for an intensity of 1.0.
pub const MILLI: i64 = 1000;

/// Bound on the magnitude of every flavor intensity the library stores.
pub const MAX_INTENSITY: i64 = 1_000_000;

/// A flavor: one fixed-point intensity per taste. A taste that a food does
/// not carry simply holds 0.
#[derive(Clone, Copy, PartialEq, Eq, Structural, Debug)]
pub struct Flavor {
    pub sweet: i64,
    pub sour: i64,
    pub salty: i64,
    pub bitter: i64,
    pub savory: i64,
    pub spicy: i64,
    pub cool: i64,
    pub dry: i64,
}

impl Flavor {
    /// The intensity this flavor assigns to taste `t`.
    pub open spec fn value(self, t: Taste) -> int {
        match t {
            Taste::Sweet => self.sweet as int,
            Taste::Sour => self.sour as int,
            Taste::Salty => self.salty as int,
            Taste::Bitter => self.bitter as int,
            Taste::Savory => self.savory as int,
            Taste::Spicy => self.spicy as int,
            Taste::Cool => self.cool as int,
            Taste::Dry => self.dry as int,
        }
    }

    /// Every intensity stays within `MAX_INTENSITY` in magnitude.
    pub open spec fn wf(self) -> bool {
        &&& -MAX_INTENSITY <= self.sweet <= MAX_INTENSITY
        &&& -MAX_INTENSITY <= self.sour <= MAX_INTENSITY
        &&& -MAX_INTENSITY <= self.salty <= MAX_INTENSITY
        &&& -MAX_INTENSITY <= self.bitter <= MAX_INTENSITY
        &&& -MAX_INTENSITY <= self.savory <= MAX_INTENSITY
        &&& -MAX_INTENSITY <= self.spicy <= MAX_INTENSITY
        &&& -MAX_INTENSITY <= self.cool <= MAX_INTENSITY
        &&& -MAX_INTENSITY <= self.dry <= MAX_INTENSITY
    }

    /// The flavor with intensity 0 for every taste.
    pub open spec fn spec_zero() -> Flavor {
        Flavor { sweet: 0, sour: 0, salty: 0, bitter: 0, savory: 0, spicy: 0, cool: 0, dry: 0 }
    }

    /// The pointwise sum of two flavors, in fixed-point milli-units.
    pub open spec fn spec_add(self, other: Flavor) -> Flavor
        recommends
            self.wf(),
            other.wf(),
    {
        Flavor {
            sweet: (self.sweet + other.sweet) as i64,
            sour: (self.sour + other.sour) as i64,
            salty: (self.salty + other.salty) as i64,
            bitter: (self.bitter + other.bitter) as i64,
            savory: (self.savory + other.savory) as i64,
            spicy: (self.spicy + other.spicy) as i64,
            cool: (self.cool + other.cool) as i64,
            dry: (self.dry + other.dry) as i64,
        }
    }

    /// Reads the intensity of taste `t`.
    pub fn get(&self, t: Taste) -> (r: i64)
        ensures
            r == self.value(t),
    {
        match t {
            Taste::Sweet => self.sweet,
            Taste::Sour => self.sour,
            Taste::Salty => self.salty,
            Taste::Bitter => self.bitter,
            Taste::Savory => self.savory,
            Taste::Spicy => self.spicy,
            Taste::Cool => self.cool,
            Taste::Dry => self.dry,
        }
    }

    /// Sums two flavors pointwise.
    pub fn add(self, other: Flavor) -> (r: Flavor)
        requires
            self.wf(),
            other.wf(),
        ensures
            r == self.spec_add(other),
            forall|t: Taste| #[trigger] r.value(t) == self.value(t) + other.value(t),
    {
        let r = Flavor {
            sweet: self.sweet + other.sweet,
            sour: self.sour + other.sour,
            salty: self.salty + other.salty,
            bitter: self.bitter + other.bitter,
            savory: self.savory + other.savory,
            spicy: self.spicy + other.spicy,
            cool: self.cool + other.cool,
            dry: self.dry + other.dry,
        };
        proof {
            lemma_add_pointwise(self, other);
        }
        r
    }

    /// Draws a fresh customer palate: for each taste independently, a roll
    /// in 0..100 is mapped through `palate_value_spec`, so every sample is
    /// one of -1.0, 0.0, 1.0 or 2.0 with the skewed weights 10%, 10%, 60%
    /// and 20%.
    pub fn gen() -> (r: Flavor)
        ensures
            r.wf(),
            forall|t: Taste| is_palate_value(#[trigger] r.value(t)),
    {
        let r = Flavor {
            sweet: palate_sample(),
            sour: palate_sample(),
            salty: palate_sample(),
            bitter: palate_sample(),
            savory: palate_sample(),
            spicy: palate_sample(),
            cool: palate_sample(),
            dry: palate_sample(),
        };
        r
    }
}

impl Default for Flavor {
    /// The zero flavor.
    fn default() -> (r: Flavor)
        ensures
            r == Flavor::spec_zero(),
            forall|t: Taste| #[trigger] r.value(t) == 0,
    {
        Flavor { sweet: 0, sour: 0, salty: 0, bitter: 0, savory: 0, spicy: 0, cool: 0, dry: 0 }
    }
}

/// The sum of two flavors carries, for every taste, the sum of the two
/// intensities, with absent tastes counting as 0.
pub proof fn lemma_add_pointwise(a: Flavor, b: Flavor)
    requires
        a.wf(),
        b.wf(),
    ensures
        forall|t: Taste| #[trigger] a.spec_add(b).value(t) == a.value(t) + b.value(t),
{
}

/// Flavor addition is commutative.
pub proof fn lemma_add_comm(a: Flavor, b: Flavor)
    ensures
        a.spec_add(b) == b.spec_add(a),
{
}

/// Flavor addition is associative.
pub proof fn lemma_add_assoc(a: Flavor, b: Flavor, c: Flavor)
    requires
        a.wf(),
        b.wf(),
        c.wf(),
    ensures
        a.spec_add(b).spec_add(c) == a.spec_add(b.spec_add(c)),
{
}

/// The palate value a roll in 0..100 stands for, in milli-units: rolls
/// below 10 give 0.0, rolls in 10..20 give -1.0 (a dislike), rolls in
/// 20..40 give 2.0 (a like), and all other rolls give 1.0.
pub open spec fn palate_value_spec(r: int) -> int {
    if r < 10 {
        0
    } else if r < 20 {
        -1000
    } else if r < 40 {
        2000
    } else {
        1000
    }
}

/// Whether `v` is one of the four values a palate sample can take.
pub open spec fn is_palate_value(v: int) -> bool {
    v == 0 || v == -1000 || v == 2000 || v == 1000
}

/// Maps one uniform roll in 0..100 to its palate value.
pub fn palate_value_from_roll(r: i64) -> (v: i64)
    requires
        0 <= r < 100,
    ensures
        v == palate_value_spec(r as int),
        is_palate_value(v as int),
{
    if r < 10 {
        0
    } else if r < 20 {
        -1000
    } else if r < 40 {
        2000
    } else {
        1000
    }
}

/// Draws one palate sample: a uniform roll in 0..100 mapped through
/// `palate_value_spec`.
pub fn palate_sample() -> (v: i64)
    ensures
        is_palate_value(v as int),
        -MAX_INTENSITY <= v <= MAX_INTENSITY,
{
    let r = rand_range(0, 100);
    palate_value_from_roll(r)
}

/// The set of rolls in 0..100 whose palate value is `v`.
pub open spec fn rolls_to(v: int) -> Set<int> {
    Set::new(|r: int| 0 <= r < 100 && palate_value_spec(r) == v)
}

/// Of the 100 equally likely rolls, exactly 10 give the palate value 0.0,
/// 10 give -1.0, 20 give 2.0 and 60 give 1.0 — the documented 10% / 10% /
/// 20% / 60% skew.
pub proof fn lemma_palate_roll_distribution()
    ensures
        rolls_to(0).len() == 10,
        rolls_to(-1000).len() == 10,
        rolls_to(2000).len() == 20,
        rolls_to(1000).len() == 60,
{
    assert(rolls_to(0) =~= set_int_range(0, 10));
    assert(rolls_to(-1000) =~= set_int_range(10, 20));
    assert(rolls_to(2000) =~= set_int_range(20, 40));
    assert(rolls_to(1000) =~= set_int_range(40, 100));
    lemma_int_range(0, 10);
    lemma_int_range(10, 20);
    lemma_int_range(20, 40);
    lemma_int_range(40, 100);
}

/// How many objective tokens an intensity in milli-units spawns: the
/// integer part of the intensity, and none for intensities at or below 0.
pub open spec fn tokens_of(v: int) -> int {
    if v > 0 {
        v / 1000
    } else {
        0
    }
}

/// Computes the token count of an intensity.
pub fn token_count(v: i64) -> (r: u64)
    requires
        -MAX_INTENSITY <= v <= MAX_INTENSITY,
    ensures
        r == tokens_of(v as int),
        r <= 1000,
{
    if v > 0 {
        (v as u64) / 1000
    } else {
        0
    }
}

} // verus!
