use vstd::prelude::*;

verus! {

/// The edge of the screen beyond which a new enemy appears.
#[derive(PartialEq, Eq, Structural, Debug, Clone, Copy)]
pub enum EdgeSide {
    Top,
    Bottom,
    Left,
    Right,
}

/// The side that a roll of the four-sided die picks; any roll past the
/// third picks the right edge.
pub open spec fn spec_edge_side(roll: int) -> EdgeSide {
    if roll == 0 {
        EdgeSide::Top
    } else if roll == 1 {
        EdgeSide::Bottom
    } else if roll == 2 {
        EdgeSide::Left
    } else {
        EdgeSide::Right
    }
}

/// The first four rolls pick four different sides, and any roll past the
/// third picks the right edge.
pub proof fn lemma_edge_sides_distinct(roll: int)
    ensures
        spec_edge_side(0) == EdgeSide::Top,
        spec_edge_side(1) == EdgeSide::Bottom,
        spec_edge_side(2) == EdgeSide::Left,
        roll >= 3 ==> spec_edge_side(roll) == EdgeSide::Right,
        forall|a: int, b: int|
            0 <= a < b < 4 ==> #[trigger] spec_edge_side(a) != #[trigger] spec_edge_side(b),
{
}

/// Number of faces of the die that picks a side.
pub const EDGE_SIDES: i32 = 4;

/// `fastrand::i32(low..high)`: a random integer drawn from the thread-local
/// generator. Its source panics on an empty range and otherwise returns a
/// value at least `low` and below `high`; which one is left to chance.
#[verifier::external_body]
fn random_i32_below(low: i32, high: i32) -> (r: i32)
    requires
        low < high,
    ensures
        low <= r < high,
{
    fastrand::i32(low..high)
}

/// The side that roll `roll` picks.
pub fn edge_side(roll: i32) -> (side: EdgeSide)
    ensures
        side == spec_edge_side(roll as int),
{
    match roll {
        0 => EdgeSide::Top,
        1 => EdgeSide::Bottom,
        2 => EdgeSide::Left,
        _ => EdgeSide::Right,
    }
}

/// Rolls the four-sided die and returns the side it picks; every side can
/// come up, and nothing else can.
pub fn random_edge_side() -> (side: EdgeSide)
    ensures
        exists|roll: int| 0 <= roll < EDGE_SIDES && side == spec_edge_side(roll),
{
    let roll = random_i32_below(0, EDGE_SIDES);
    edge_side(roll)
}

} // verus!
