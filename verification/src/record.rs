//! A record: a value together with its retention chance.

use vstd::prelude::*;
use crate::random::random_u64;
use crate::value::{DataValue, ValueView};

verus! {

/// The identifier of a record.
pub type Id = u64;

/// A chance is a number of parts out of this many: two to the power of 24.
pub const CHANCE_SCALE: u32 = 0x100_0000;

/// A stored value and the chance that it is kept when an eviction sweep
/// picks it. The chance is counted in parts of [`CHANCE_SCALE`]: `chance`
/// stands for `chance / CHANCE_SCALE`. It is fixed when the record is made.
#[derive(Debug, Clone, PartialEq, Eq)]
pub struct Data {
    pub value: DataValue,
    pub chance: u32,
}

/// What a [`Data`] holds, as mathematics.
pub struct DataView {
    pub value: ValueView,
    pub chance: u32,
}

impl View for Data {
    type V = DataView;

    open spec fn view(&self) -> DataView {
        DataView { value: self.value@, chance: self.chance }
    }
}

/// The chance that 64 random bits stand for: their 24 highest bits, so that
/// every chance from zero to just below [`CHANCE_SCALE`] is as likely as any
/// other.
pub open spec fn chance_of(draw: u64) -> u32 {
    (draw / 0x100_0000_0000) as u32
}

/// The chance that 64 random bits stand for.
pub fn draw_chance(draw: u64) -> (chance: u32)
    ensures
        chance == chance_of(draw),
        chance < CHANCE_SCALE,
{
    (draw / 0x100_0000_0000) as u32
}

impl Data {
    /// A record of `value` whose chance is what `draw` stands for.
    pub fn with_draw(value: DataValue, draw: u64) -> (data: Self)
        ensures
            data.value == value,
            data.chance == chance_of(draw),
    {
        Data { value, chance: draw_chance(draw) }
    }

    /// A record of `value` with a chance drawn at random, below
    /// [`CHANCE_SCALE`].
    pub fn new(value: DataValue) -> (data: Self)
        ensures
            data.value == value,
            data.chance < CHANCE_SCALE,
    {
        Data::with_draw(value, random_u64())
    }
}

} // verus!
