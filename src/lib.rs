//! Loadout sampling and map rotation.
//!
//! A loadout draws one item from each of four category tables and folds them
//! into one aggregate profile; a rotation cursor hands out map names one at a
//! time and reshuffles once a full cycle has been shown. Randomness is never
//! drawn here: callers hand in the random numbers, and every contract holds
//! for every value of them.
pub mod loadout;
pub mod profile;
pub mod rotation;
