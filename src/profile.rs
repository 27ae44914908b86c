//! The statted item record and the additive combination rule.
use vstd::prelude::*;

verus! {

/// A single item (driver, vehicle, tire, glider) or an aggregate of several.
///
/// The five stats are integers in the tables' own unit (a caller holding
/// fractional stats scales them to a fixed unit first).
#[derive(Debug)]
pub struct StatProfile {
    pub name: String,
    pub speed: i64,
    pub acceleration: i64,
    pub weight: i64,
    pub handling: i64,
    pub traction: i64,
}

/// The mathematical value of a `StatProfile`.
pub struct ProfileView {
    pub name: Seq<char>,
    pub speed: int,
    pub acceleration: int,
    pub weight: int,
    pub handling: int,
    pub traction: int,
}

impl View for StatProfile {
    type V = ProfileView;

    open spec fn view(&self) -> ProfileView {
        ProfileView {
            name: self.name@,
            speed: self.speed as int,
            acceleration: self.acceleration as int,
            weight: self.weight as int,
            handling: self.handling as int,
            traction: self.traction as int,
        }
    }
}

/// The text placed between two names of an aggregate.
pub open spec fn name_separator() -> Seq<char> {
    seq![',', ' ']
}

/// Whether `x` is a value of `i64`.
pub open spec fn fits_i64(x: int) -> bool {
    i64::MIN <= x <= i64::MAX
}

impl ProfileView {
    /// The identity of combination: no name, all stats zero.
    pub open spec fn empty() -> ProfileView {
        ProfileView {
            name: Seq::empty(),
            speed: 0,
            acceleration: 0,
            weight: 0,
            handling: 0,
            traction: 0,
        }
    }

    /// The name of `self` combined with `other`: `other`'s name alone when
    /// `self` has none, else both joined by the separator.
    pub open spec fn combined_name(self, other: ProfileView) -> Seq<char> {
        if self.name.len() == 0 {
            other.name
        } else {
            self.name + name_separator() + other.name
        }
    }

    /// `self` combined with `other`: names joined, stats added.
    pub open spec fn combined(self, other: ProfileView) -> ProfileView {
        ProfileView {
            name: self.combined_name(other),
            speed: self.speed + other.speed,
            acceleration: self.acceleration + other.acceleration,
            weight: self.weight + other.weight,
            handling: self.handling + other.handling,
            traction: self.traction + other.traction,
        }
    }

    /// Every stat is a value of `i64`: the views of `StatProfile` values.
    pub open spec fn stats_fit(self) -> bool {
        &&& fits_i64(self.speed)
        &&& fits_i64(self.acceleration)
        &&& fits_i64(self.weight)
        &&& fits_i64(self.handling)
        &&& fits_i64(self.traction)
    }

    /// Every stat of the combination of `self` and `other` is a value of `i64`.
    pub open spec fn combinable(self, other: ProfileView) -> bool {
        &&& fits_i64(self.speed + other.speed)
        &&& fits_i64(self.acceleration + other.acceleration)
        &&& fits_i64(self.weight + other.weight)
        &&& fits_i64(self.handling + other.handling)
        &&& fits_i64(self.traction + other.traction)
    }
}

impl StatProfile {
    /// An item with the given name and stats.
    pub fn new(
        name: String,
        speed: i64,
        acceleration: i64,
        weight: i64,
        handling: i64,
        traction: i64,
    ) -> (r: StatProfile)
        ensures
            r.name@ == name@,
            r.speed == speed,
            r.acceleration == acceleration,
            r.weight == weight,
            r.handling == handling,
            r.traction == traction,
    {
        StatProfile { name, speed, acceleration, weight, handling, traction }
    }

    /// The empty profile, the identity of `combine`.
    pub fn empty() -> (r: StatProfile)
        ensures
            r@ == ProfileView::empty(),
    {
        StatProfile {
            name: String::new(),
            speed: 0,
            acceleration: 0,
            weight: 0,
            handling: 0,
            traction: 0,
        }
    }

    /// A copy of this profile.
    pub fn duplicate(&self) -> (r: StatProfile)
        ensures
            r@ == self@,
    {
        StatProfile {
            name: self.name.clone(),
            speed: self.speed,
            acceleration: self.acceleration,
            weight: self.weight,
            handling: self.handling,
            traction: self.traction,
        }
    }

    /// This profile combined with `other`: the name is `other`'s name when
    /// this one has none, else this name, `", "` and `other`'s name; each
    /// stat is the sum of the two.
    pub fn combine(&self, other: &StatProfile) -> (r: StatProfile)
        requires
            self@.combinable(other@),
        ensures
            r@ == self@.combined(other@),
    {
        let mut name = self.name.clone();
        if name.as_str().is_empty() {
            name = other.name.clone();
        } else {
            let sep = ", ";
            proof {
                reveal_strlit(", ");
            }
            assert(sep@ == name_separator());
            name.append(sep);
            name.append(other.name.as_str());
        }
        StatProfile {
            name,
            speed: self.speed + other.speed,
            acceleration: self.acceleration + other.acceleration,
            weight: self.weight + other.weight,
            handling: self.handling + other.handling,
            traction: self.traction + other.traction,
        }
    }
}

/// Combining the empty profile with any item gives that item unchanged: its
/// name with no leading separator, and its stats.
pub proof fn lemma_empty_is_left_identity(x: ProfileView)
    requires
        x.stats_fit(),
    ensures
        ProfileView::empty().combinable(x),
        ProfileView::empty().combined(x) == x,
{
}

} // verus!
