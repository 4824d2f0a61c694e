use vstd::prelude::*;

verus! {

/// Closed catalog of item kinds. `ItemType::Empty` is the reserved value that
/// marks an empty inventory slot; it is never a real item.
#[derive(Clone, Copy, PartialEq, Eq, Structural, Debug)]
pub enum ItemType {
    Empty,
    Flint,
    Axe,
    Twig,
    Grass,
    Wood,
    PineCone,
    Fire,
    ChoppedPineCone,
    Fallback,
}

impl core::default::Default for ItemType {
    /// A default-constructed kind is the empty marker.
    fn default() -> (r: Self)
        ensures
            r == ItemType::Empty,
    {
        ItemType::Empty
    }
}

/// Out of every hundred-and-one rolls, flint appears in the world on rolls
/// at or below this threshold.
pub const FLINT_SPAWN_CHANCE: u32 = 5;

/// Decides whether a natural flint spawn is due: the world must still be
/// under its flint cap, and the random roll (drawn by the caller) must land
/// at or below the spawn chance.
pub fn flint_spawn_due(current: u32, max: u32, roll: u32) -> (due: bool)
    ensures
        due == (current < max && roll <= FLINT_SPAWN_CHANCE),
{
    current < max && roll <= FLINT_SPAWN_CHANCE
}

} // verus!
