//! The static catalogs: the fixed food table each shelf restock draws
//! from, the customer skins, and the names of the image and audio
//! resources the embedding program must load.

use vstd::prelude::*;

verus! {

use vstd::string::StringExecFns;
use crate::flavor::Flavor;
use crate::taste::{Taste, taste_of};

/// Bound on a single catalog food intensity, in milli-units.
pub const MAX_FOOD_INTENSITY: i64 = 4_000;

/// Number of entries in the food catalog.
pub const FOOD_COUNT: usize = 17;

/// Number of customer skins.
pub const DUDE_COUNT: usize = 3;

/// A catalog entry: a sprite identifier and a fixed flavor profile.
#[derive(Debug)]
pub struct FoodInfo {
    pub sprite: String,
    pub flavor: Flavor,
}

impl FoodInfo {
    /// Catalog entries carry only non-negative, bounded intensities.
    pub open spec fn wf(self) -> bool {
        &&& self.flavor.wf()
        &&& forall|t: Taste| 0 <= #[trigger] self.flavor.value(t) <= MAX_FOOD_INTENSITY
    }

    /// Copies the entry, field by field.
    pub fn duplicate(&self) -> (r: FoodInfo)
        ensures
            r.sprite@ == self.sprite@,
            r.flavor == self.flavor,
    {
        FoodInfo { sprite: self.sprite.clone(), flavor: self.flavor }
    }
}

/// A customer skin: a sprite identifier.
#[derive(Debug)]
pub struct DudeInfo {
    pub sprite: String,
}

/// The static catalogs built once at startup.
#[derive(Debug)]
pub struct Info {
    pub food: Vec<FoodInfo>,
    pub dude: Vec<DudeInfo>,
}

impl Info {
    /// Non-empty, modestly sized catalogs of well-formed entries.
    pub open spec fn wf(self) -> bool {
        &&& 0 < self.food@.len() <= 100
        &&& 0 < self.dude@.len() <= 100
        &&& forall|i: int| 0 <= i < self.food@.len() ==> (#[trigger] self.food@[i]).wf()
    }
}

/// The flavor profile of catalog entry `i`.
pub open spec fn catalog_flavor(i: int) -> Flavor {
    let z = Flavor::spec_zero();
    if i == 0 {
        Flavor { sweet: 1000, salty: 1000, savory: 2000, spicy: 333, ..z }
    } else if i == 1 {
        Flavor { spicy: 3000, ..z }
    } else if i == 2 {
        Flavor { bitter: 1000, ..z }
    } else if i == 3 {
        Flavor { dry: 1000, cool: 2000, ..z }
    } else if i == 4 {
        Flavor { savory: 1000, salty: 1000, ..z }
    } else if i == 5 {
        Flavor { dry: 1000, bitter: 2000, ..z }
    } else if i == 6 {
        Flavor { sour: 3000, ..z }
    } else if i == 7 {
        Flavor { sweet: 1000, savory: 1000, ..z }
    } else if i == 8 {
        Flavor { dry: 1000, spicy: 1000, ..z }
    } else if i == 9 {
        Flavor { cool: 2000, ..z }
    } else if i == 10 {
        Flavor { sweet: 1000, ..z }
    } else if i == 11 {
        Flavor { sweet: 2000, sour: 1000, ..z }
    } else if i == 12 {
        Flavor { dry: 2000, ..z }
    } else if i == 13 {
        Flavor { spicy: 2000, bitter: 2000, ..z }
    } else if i == 14 {
        Flavor { spicy: 2000, savory: 1000, ..z }
    } else if i == 15 {
        Flavor { sweet: 1000, salty: 3000, dry: 1000, ..z }
    } else {
        Flavor { sweet: 1000, sour: 2000, spicy: 1000, ..z }
    }
}

/// The sprite identifier of catalog entry `i`.
pub open spec fn catalog_sprite(i: int) -> Seq<char> {
    if i == 0 {
        "leg"@
    } else if i == 1 {
        "chili"@
    } else if i == 2 {
        "chocolate"@
    } else if i == 3 {
        "ice-cream"@
    } else if i == 4 {
        "fish"@
    } else if i == 5 {
        "coffee"@
    } else if i == 6 {
        "lemon"@
    } else if i == 7 {
        "cheese"@
    } else if i == 8 {
        "cinnamon"@
    } else if i == 9 {
        "mint"@
    } else if i == 10 {
        "apple"@
    } else if i == 11 {
        "blueberry"@
    } else if i == 12 {
        "feather"@
    } else if i == 13 {
        "gas"@
    } else if i == 14 {
        "dynamite"@
    } else if i == 15 {
        "chips"@
    } else {
        "onion"@
    }
}

/// The sprite identifier of customer skin `i`.
pub open spec fn dude_sprite(i: int) -> Seq<char> {
    if i == 0 {
        "dude"@
    } else if i == 1 {
        "ale"@
    } else {
        "elena"@
    }
}

/// Builds the static catalogs: the 17 foods with their fixed flavor
/// profiles and the 3 customer skins.
pub fn init() -> (r: Info)
    ensures
        r.food@.len() == FOOD_COUNT,
        r.dude@.len() == DUDE_COUNT,
        forall|i: int|
            0 <= i < FOOD_COUNT ==> (#[trigger] r.food@[i]).sprite@ == catalog_sprite(i)
                && r.food@[i].flavor == catalog_flavor(i),
        forall|i: int| 0 <= i < DUDE_COUNT ==> (#[trigger] r.dude@[i]).sprite@ == dude_sprite(i),
        r.wf(),
{
    let z = Flavor::default();
    let mut food: Vec<FoodInfo> = Vec::new();
    food.push(
        FoodInfo {
            sprite: String::from_str("leg"),
            flavor: Flavor { sweet: 1000, salty: 1000, savory: 2000, spicy: 333, ..z },
        },
    );
    food.push(FoodInfo { sprite: String::from_str("chili"), flavor: Flavor { spicy: 3000, ..z } });
    food.push(
        FoodInfo { sprite: String::from_str("chocolate"), flavor: Flavor { bitter: 1000, ..z } },
    );
    food.push(
        FoodInfo {
            sprite: String::from_str("ice-cream"),
            flavor: Flavor { dry: 1000, cool: 2000, ..z },
        },
    );
    food.push(
        FoodInfo {
            sprite: String::from_str("fish"),
            flavor: Flavor { savory: 1000, salty: 1000, ..z },
        },
    );
    food.push(
        FoodInfo {
            sprite: String::from_str("coffee"),
            flavor: Flavor { dry: 1000, bitter: 2000, ..z },
        },
    );
    food.push(FoodInfo { sprite: String::from_str("lemon"), flavor: Flavor { sour: 3000, ..z } });
    food.push(
        FoodInfo {
            sprite: String::from_str("cheese"),
            flavor: Flavor { sweet: 1000, savory: 1000, ..z },
        },
    );
    food.push(
        FoodInfo {
            sprite: String::from_str("cinnamon"),
            flavor: Flavor { dry: 1000, spicy: 1000, ..z },
        },
    );
    food.push(FoodInfo { sprite: String::from_str("mint"), flavor: Flavor { cool: 2000, ..z } });
    food.push(FoodInfo { sprite: String::from_str("apple"), flavor: Flavor { sweet: 1000, ..z } });
    food.push(
        FoodInfo {
            sprite: String::from_str("blueberry"),
            flavor: Flavor { sweet: 2000, sour: 1000, ..z },
        },
    );
    food.push(FoodInfo { sprite: String::from_str("feather"), flavor: Flavor { dry: 2000, ..z } });
    food.push(
        FoodInfo {
            sprite: String::from_str("gas"),
            flavor: Flavor { spicy: 2000, bitter: 2000, ..z },
        },
    );
    food.push(
        FoodInfo {
            sprite: String::from_str("dynamite"),
            flavor: Flavor { spicy: 2000, savory: 1000, ..z },
        },
    );
    food.push(
        FoodInfo {
            sprite: String::from_str("chips"),
            flavor: Flavor { sweet: 1000, salty: 3000, dry: 1000, ..z },
        },
    );
    food.push(
        FoodInfo {
            sprite: String::from_str("onion"),
            flavor: Flavor { sweet: 1000, sour: 2000, spicy: 1000, ..z },
        },
    );
    let mut dude: Vec<DudeInfo> = Vec::new();
    dude.push(DudeInfo { sprite: String::from_str("dude") });
    dude.push(DudeInfo { sprite: String::from_str("ale") });
    dude.push(DudeInfo { sprite: String::from_str("elena") });
    Info { food, dude }
}

/// Builds a one-name atlas group.
fn group1(name: &str) -> (r: Vec<String>)
    ensures
        r@.len() == 1,
        r@[0]@ == name@,
{
    let mut v: Vec<String> = Vec::new();
    v.push(String::from_str(name));
    v
}

/// Builds a three-name atlas group.
fn group3(a: &str, b: &str, c: &str) -> (r: Vec<String>)
    ensures
        r@.len() == 3,
        r@[0]@ == a@,
        r@[1]@ == b@,
        r@[2]@ == c@,
{
    let mut v: Vec<String> = Vec::new();
    v.push(String::from_str(a));
    v.push(String::from_str(b));
    v.push(String::from_str(c));
    v
}

/// Assembles the names of every image resource, grouped by texture atlas:
/// the twelve fixed groups (customer skins with their chewing and puking
/// frames, the pan frames and the static scenery), one group per catalog
/// food sprite, and one group per taste token sprite. The first name of a
/// group doubles as the atlas key.
#[verifier::loop_isolation(false)]
pub fn load_all(info: &Info) -> (r: Vec<Vec<String>>)
    ensures
        r@.len() == 20 + info.food@.len(),
        r@[0]@.len() == 3 && r@[0]@[0]@ == "dude"@ && r@[0]@[1]@ == "dude-gnam"@ && r@[0]@[2]@
            == "dude-puke"@,
        r@[1]@.len() == 3 && r@[1]@[0]@ == "elena"@ && r@[1]@[1]@ == "elena-gnam"@ && r@[1]@[2]@
            == "elena-puke"@,
        r@[2]@.len() == 3 && r@[2]@[0]@ == "ale"@ && r@[2]@[1]@ == "ale-gnam"@ && r@[2]@[2]@
            == "ale-puke"@,
        r@[3]@.len() == 3 && r@[3]@[0]@ == "pan"@ && r@[3]@[1]@ == "pan-anim1"@ && r@[3]@[2]@
            == "pan-anim2"@,
        r@[4]@.len() == 1 && r@[4]@[0]@ == "Time"@,
        r@[5]@.len() == 1 && r@[5]@[0]@ == "guuut"@,
        r@[6]@.len() == 1 && r@[6]@[0]@ == "bad"@,
        r@[7]@.len() == 1 && r@[7]@[0]@ == "resist"@,
        r@[8]@.len() == 1 && r@[8]@[0]@ == "stomach"@,
        r@[9]@.len() == 1 && r@[9]@[0]@ == "goal"@,
        r@[10]@.len() == 1 && r@[10]@[0]@ == "pan-icon"@,
        r@[11]@.len() == 1 && r@[11]@[0]@ == "background"@,
        forall|i: int|
            0 <= i < info.food@.len() ==> (#[trigger] r@[12 + i])@.len() == 1 && r@[12 + i]@[0]@
                == info.food@[i].sprite@,
        forall|i: int|
            0 <= i < 8 ==> (#[trigger] r@[12 + info.food@.len() + i])@.len() == 1 && r@[12
                + info.food@.len() + i]@[0]@ == taste_of(i).spec_name(),
{
    let mut groups: Vec<Vec<String>> = Vec::new();
    groups.push(group3("dude", "dude-gnam", "dude-puke"));
    groups.push(group3("elena", "elena-gnam", "elena-puke"));
    groups.push(group3("ale", "ale-gnam", "ale-puke"));
    groups.push(group3("pan", "pan-anim1", "pan-anim2"));
    groups.push(group1("Time"));
    groups.push(group1("guuut"));
    groups.push(group1("bad"));
    groups.push(group1("resist"));
    groups.push(group1("stomach"));
    groups.push(group1("goal"));
    groups.push(group1("pan-icon"));
    groups.push(group1("background"));
    let ghost fixed = groups@;
    proof {
        assert(groups@.subrange(0, 12) =~= fixed);
    }
    let flen = info.food.len();
    let mut i: usize = 0;
    while i < flen
        invariant
            flen == info.food@.len(),
            i <= flen,
            groups@.len() == 12 + i,
            groups@.subrange(0, 12) == fixed,
            fixed.len() == 12,
            forall|j: int|
                0 <= j < i ==> (#[trigger] groups@[12 + j])@.len() == 1 && groups@[12 + j]@[0]@
                    == info.food@[j].sprite@,
        decreases flen - i,
    {
        groups.push(group1(info.food[i].sprite.as_str()));
        proof {
            assert(groups@.subrange(0, 12) =~= fixed);
        }
        i = i + 1;
    }
    let ghost with_food = groups@;
    proof {
        assert(groups@.subrange(0, 12 + flen as int) =~= with_food);
    }
    let mut k: u32 = 0;
    while k < 8
        invariant
            flen == info.food@.len(),
            k <= 8,
            groups@.len() == 12 + flen + k,
            groups@.subrange(0, 12 + flen as int) == with_food,
            with_food.len() == 12 + flen,
            with_food.subrange(0, 12) == fixed,
            fixed.len() == 12,
            forall|j: int|
                0 <= j < flen ==> (#[trigger] with_food[12 + j])@.len() == 1 && with_food[12
                    + j]@[0]@ == info.food@[j].sprite@,
            forall|j: int|
                0 <= j < k ==> (#[trigger] groups@[12 + flen + j])@.len() == 1 && groups@[12 + flen
                    + j]@[0]@ == taste_of(j).spec_name(),
        decreases 8 - k,
    {
        let t = Taste::from_u32(k);
        groups.push(group1(t.as_str()));
        proof {
            assert(groups@.subrange(0, 12 + flen as int) =~= with_food);
        }
        k = k + 1;
    }
    proof {
        assert forall|i2: int| 0 <= i2 < 12 + flen implies groups@[i2] == with_food[i2] by {
            assert(groups@.subrange(0, 12 + flen as int)[i2] == groups@[i2]);
        }
        assert forall|j: int|
            0 <= j < flen implies (#[trigger] groups@[12 + j])@.len() == 1 && groups@[12 + j]@[0]@
                == info.food@[j].sprite@ by {
            assert(groups@[12 + j] == with_food[12 + j]);
            assert(with_food[12 + j]@.len() == 1 && with_food[12 + j]@[0]@
                == info.food@[j].sprite@);
        }
        assert forall|i2: int| 0 <= i2 < 12 implies with_food[i2] == fixed[i2] by {
            assert(with_food.subrange(0, 12)[i2] == with_food[i2]);
        }
        assert(groups@[0] == fixed[0]);
        assert(groups@[1] == fixed[1]);
        assert(groups@[2] == fixed[2]);
        assert(groups@[3] == fixed[3]);
        assert(groups@[4] == fixed[4]);
        assert(groups@[5] == fixed[5]);
        assert(groups@[6] == fixed[6]);
        assert(groups@[7] == fixed[7]);
        assert(groups@[8] == fixed[8]);
        assert(groups@[9] == fixed[9]);
        assert(groups@[10] == fixed[10]);
        assert(groups@[11] == fixed[11]);
    }
    groups
}

/// The names of the audio resources: the looping ambient track and the
/// chew, puke and cheer cues of each customer skin.
pub fn audio_names() -> (r: Vec<String>)
    ensures
        r@.len() == 10,
        r@[0]@ == "lol"@,
        r@[1]@ == "elena-gnam"@,
        r@[2]@ == "elena-puke"@,
        r@[3]@ == "elena-yeah"@,
        r@[4]@ == "dude-gnam"@,
        r@[5]@ == "dude-puke"@,
        r@[6]@ == "dude-yeah"@,
        r@[7]@ == "ale-gnam"@,
        r@[8]@ == "ale-puke"@,
        r@[9]@ == "ale-yeah"@,
{
    let mut v: Vec<String> = Vec::new();
    v.push(String::from_str("lol"));
    v.push(String::from_str("elena-gnam"));
    v.push(String::from_str("elena-puke"));
    v.push(String::from_str("elena-yeah"));
    v.push(String::from_str("dude-gnam"));
    v.push(String::from_str("dude-puke"));
    v.push(String::from_str("dude-yeah"));
    v.push(String::from_str("ale-gnam"));
    v.push(String::from_str("ale-puke"));
    v.push(String::from_str("ale-yeah"));
    v
}

} // verus!
