//! Assignment of scene lights to the fixed light slots of the light uniforms.
//!
//! Lights are taken in entity order; each kind fills its own slots, and
//! lights beyond a kind's slot count are dropped. A scene without any
//! assigned light falls back to the default lighting.

use vstd::prelude::*;
use crate::text::str_equal;

verus! {

/// Directional light slots.
pub const MAX_DIRECTIONAL_LIGHTS: u32 = 4;

/// Point light slots.
pub const MAX_POINT_LIGHTS: u32 = 16;

/// Spot light slots.
pub const MAX_SPOT_LIGHTS: u32 = 8;

/// The kinds of light a `light` component can name.
#[derive(Debug, Clone, Copy, PartialEq, Eq, Structural)]
pub enum LightKind {
    Directional,
    Point,
    Spot,
}

/// The kind a light component's `type` entry names: a missing entry means
/// directional; unknown names name no kind.
pub open spec fn kind_named(t: Option<Seq<char>>) -> Option<LightKind> {
    match t {
        None => Some(LightKind::Directional),
        Some(s) => if s == "directional"@ {
            Some(LightKind::Directional)
        } else if s == "point"@ {
            Some(LightKind::Point)
        } else if s == "spot"@ {
            Some(LightKind::Spot)
        } else {
            None
        },
    }
}

/// Slots available for a kind.
pub open spec fn capacity(k: LightKind) -> nat {
    match k {
        LightKind::Directional => MAX_DIRECTIONAL_LIGHTS as nat,
        LightKind::Point => MAX_POINT_LIGHTS as nat,
        LightKind::Spot => MAX_SPOT_LIGHTS as nat,
    }
}

/// The kinds named by a list of `type` entries.
pub open spec fn kinds_of(types: Seq<Option<String>>) -> Seq<Option<LightKind>> {
    types.map_values(
        |t: Option<String>|
            kind_named(
                match t {
                    Some(s) => Some(s@),
                    None => None,
                },
            ),
    )
}

/// How many of the first `i` lights are of kind `k`.
pub open spec fn count_before(kinds: Seq<Option<LightKind>>, i: int, k: LightKind) -> nat
    decreases i,
{
    if i <= 0 {
        0
    } else {
        count_before(kinds, i - 1, k) + (if kinds[i - 1] == Some(k) { 1nat } else { 0nat })
    }
}

/// The slot of light `i`: its kind and its index among the lights of that
/// kind before it, if a slot of that kind is left.
pub open spec fn slot_of(kinds: Seq<Option<LightKind>>, i: int) -> Option<(LightKind, u32)> {
    match kinds[i] {
        Some(k) => if count_before(kinds, i, k) < capacity(k) {
            Some((k, count_before(kinds, i, k) as u32))
        } else {
            None
        },
        None => None,
    }
}

/// Lights of kind `k` that received a slot.
pub open spec fn assigned_count(kinds: Seq<Option<LightKind>>, k: LightKind) -> nat {
    let c = count_before(kinds, kinds.len() as int, k);
    if c < capacity(k) {
        c
    } else {
        capacity(k)
    }
}

/// Slot assignment of a scene's lights.
pub struct LightSlots {
    /// The slot of each light, in the order given
    pub slots: Vec<Option<(LightKind, u32)>>,
    pub directional_count: u32,
    pub point_count: u32,
    pub spot_count: u32,
    /// Whether no light was assigned, so the default lighting applies
    pub use_defaults: bool,
}

fn light_kind(t: &Option<String>) -> (k: Option<LightKind>)
    ensures
        k == kind_named(
            match *t {
                Some(s) => Some(s@),
                None => None,
            },
        ),
{
    match t {
        None => Some(LightKind::Directional),
        Some(s) => if str_equal(s.as_str(), "directional") {
            Some(LightKind::Directional)
        } else if str_equal(s.as_str(), "point") {
            Some(LightKind::Point)
        } else if str_equal(s.as_str(), "spot") {
            Some(LightKind::Spot)
        } else {
            None
        },
    }
}

/// Assign slots to lights whose components carry the given `type` entries
/// (`None` where the entry is missing or not a string).
pub fn assign_light_slots(types: &Vec<Option<String>>) -> (r: LightSlots)
    ensures
        r.slots@.len() == types@.len(),
        forall|i: int| 0 <= i < types@.len() ==> #[trigger] r.slots@[i] == slot_of(kinds_of(types@), i),
        r.directional_count == assigned_count(kinds_of(types@), LightKind::Directional),
        r.point_count == assigned_count(kinds_of(types@), LightKind::Point),
        r.spot_count == assigned_count(kinds_of(types@), LightKind::Spot),
        r.use_defaults == (r.directional_count == 0 && r.point_count == 0 && r.spot_count == 0),
{
    let ghost kinds = kinds_of(types@);
    let mut slots: Vec<Option<(LightKind, u32)>> = Vec::new();
    let mut dir_count: u32 = 0;
    let mut point_count: u32 = 0;
    let mut spot_count: u32 = 0;
    let mut i: usize = 0;
    while i < types.len()
        invariant
            kinds == kinds_of(types@),
            i <= types@.len(),
            slots@.len() == i,
            forall|j: int| 0 <= j < i ==> #[trigger] slots@[j] == slot_of(kinds, j),
            dir_count == (if count_before(kinds, i as int, LightKind::Directional) < capacity(LightKind::Directional) { count_before(kinds, i as int, LightKind::Directional) } else { capacity(LightKind::Directional) }),
            point_count == (if count_before(kinds, i as int, LightKind::Point) < capacity(LightKind::Point) { count_before(kinds, i as int, LightKind::Point) } else { capacity(LightKind::Point) }),
            spot_count == (if count_before(kinds, i as int, LightKind::Spot) < capacity(LightKind::Spot) { count_before(kinds, i as int, LightKind::Spot) } else { capacity(LightKind::Spot) }),
        decreases types@.len() - i,
    {
        let kind = light_kind(&types[i]);
        assert(kind == kinds[i as int]);
        let slot = match kind {
            Some(LightKind::Directional) => if dir_count < MAX_DIRECTIONAL_LIGHTS {
                dir_count = dir_count + 1;
                Some((LightKind::Directional, dir_count - 1))
            } else {
                None
            },
            Some(LightKind::Point) => if point_count < MAX_POINT_LIGHTS {
                point_count = point_count + 1;
                Some((LightKind::Point, point_count - 1))
            } else {
                None
            },
            Some(LightKind::Spot) => if spot_count < MAX_SPOT_LIGHTS {
                spot_count = spot_count + 1;
                Some((LightKind::Spot, spot_count - 1))
            } else {
                None
            },
            None => None,
        };
        slots.push(slot);
        i = i + 1;
    }
    let use_defaults = dir_count == 0 && point_count == 0 && spot_count == 0;
    LightSlots {
        slots,
        directional_count: dir_count,
        point_count,
        spot_count,
        use_defaults,
    }
}

proof fn lemma_count_before_step(kinds: Seq<Option<LightKind>>, i: int, j: int, k: LightKind)
    requires
        0 <= i <= j <= kinds.len(),
    ensures
        count_before(kinds, i, k) <= count_before(kinds, j, k),
        count_before(kinds, j, k) <= count_before(kinds, i, k) + (j - i),
    decreases j - i,
{
    if i < j {
        lemma_count_before_step(kinds, i, j - 1, k);
    }
}

/// No two lights share a slot, and every slot index lies below its kind's
/// slot count; a light is dropped only when its kind's slots are all taken.
pub proof fn law_slots_distinct(kinds: Seq<Option<LightKind>>, i: int, j: int)
    requires
        0 <= i < j < kinds.len(),
    ensures
        slot_of(kinds, i) matches Some(s) ==> (s.1 as nat) < capacity(s.0),
        slot_of(kinds, i) is Some && slot_of(kinds, j) is Some ==> slot_of(kinds, i) != slot_of(kinds, j),
        kinds[j] matches Some(k) ==> (slot_of(kinds, j) is None ==> count_before(kinds, j, k) >= capacity(k)),
{
    if let (Some(a), Some(b)) = (slot_of(kinds, i), slot_of(kinds, j)) {
        if a.0 == b.0 {
            let k = a.0;
            lemma_count_before_step(kinds, i + 1, j, k);
            assert(count_before(kinds, i + 1, k) == count_before(kinds, i, k) + 1);
        }
    }
}

} // verus!
