use vstd::prelude::*;

use crate::raw_game::{ink_spec, paper_spec, attribute_spec, CellBehaviour, JswRawCell};

verus! {

/// Where a cell comes from in the payload: its slot, attribute byte, behaviour and the
/// eight bytes of its bitmap.
pub struct CellSource {
    pub id: u8,
    pub attribute: u8,
    pub behaviour: CellBehaviour,
    pub sprite: Seq<u8>,
}

/// `c` is the cell decoded from `src`.
pub open spec fn cell_matches(c: JswRawCell, src: CellSource) -> bool {
    &&& c.id == src.id
    &&& c.attribute == src.attribute
    &&& c.behaviour == src.behaviour
    &&& c.ink == ink_spec(src.attribute)
    &&& c.paper == paper_spec(src.attribute)
    &&& c.bright == attribute_spec(src.attribute).bright
    &&& c.flash == attribute_spec(src.attribute).flash
    &&& !c.animated
    &&& !c.event
    &&& c.sprite@ == src.sprite
}

/// The cells are those decoded from the sources, in order.
pub open spec fn cells_match(cells: Seq<JswRawCell>, srcs: Seq<CellSource>) -> bool {
    cells.len() == srcs.len() && forall|i: int|
        0 <= i < cells.len() ==> cell_matches(#[trigger] cells[i], srcs[i])
}

/// Some source in `srcs` has attribute `a`.
pub open spec fn has_attribute(srcs: Seq<CellSource>, a: u8) -> bool {
    exists|k: int| 0 <= k < srcs.len() && (#[trigger] srcs[k]).attribute == a
}

/// The sources without those whose attribute an earlier one already has: a repeated
/// attribute marks an unused slot.
pub open spec fn first_attributes(srcs: Seq<CellSource>) -> Seq<CellSource>
    decreases srcs.len(),
{
    if srcs.len() == 0 {
        seq![]
    } else {
        let prev = first_attributes(srcs.drop_last());
        if has_attribute(prev, srcs.last().attribute) {
            prev
        } else {
            prev.push(srcs.last())
        }
    }
}

/// Whether a cell already kept has attribute `a`.
pub fn contains_attribute(cells: &Vec<JswRawCell>, a: u8) -> (r: bool)
    ensures
        r == exists|k: int| 0 <= k < cells@.len() && (#[trigger] cells@[k]).attribute == a,
{
    let mut i: usize = 0;
    while i < cells.len()
        invariant
            i <= cells@.len(),
            forall|k: int| 0 <= k < i ==> (#[trigger] cells@[k]).attribute != a,
        decreases cells@.len() - i,
    {
        if cells[i].attribute == a {
            return true;
        }
        i = i + 1;
    }
    false
}

/// Cells decoded from matching sources have the same attributes.
pub proof fn lemma_matching_attributes(cells: Seq<JswRawCell>, srcs: Seq<CellSource>, a: u8)
    requires
        cells_match(cells, srcs),
    ensures
        (exists|k: int| 0 <= k < cells.len() && (#[trigger] cells[k]).attribute == a)
            == has_attribute(srcs, a),
{
    if exists|k: int| 0 <= k < cells.len() && (#[trigger] cells[k]).attribute == a {
        let k = choose|k: int| 0 <= k < cells.len() && (#[trigger] cells[k]).attribute == a;
        assert(cell_matches(cells[k], srcs[k]));
    }
    if has_attribute(srcs, a) {
        let k = choose|k: int| 0 <= k < srcs.len() && (#[trigger] srcs[k]).attribute == a;
        assert(cell_matches(cells[k], srcs[k]));
    }
}

/// The behaviour of the second game's cell slots; slots 4 and 5 hold the room's ramp and
/// conveyor, whose direction the room metadata gives.
pub open spec fn jsw_behaviour_spec(slot: int, conveyor_left: bool, ramp_left: bool) -> CellBehaviour {
    if slot == 0 {
        CellBehaviour::Air
    } else if slot == 1 {
        CellBehaviour::Water
    } else if slot == 2 {
        CellBehaviour::Earth
    } else if slot == 3 {
        CellBehaviour::Fire
    } else if slot == 4 {
        if ramp_left {
            CellBehaviour::LRamp
        } else {
            CellBehaviour::RRamp
        }
    } else if slot == 5 {
        if conveyor_left {
            CellBehaviour::LConveyor
        } else {
            CellBehaviour::RConveyor
        }
    } else {
        CellBehaviour::Air
    }
}

} // verus!
