//! Static analyses over IR nodes: static levels, patch flags and slot flags.

use vstd::prelude::*;
use crate::flags::{PatchFlag, SlotFlag, StaticLevel, valid_bits};

verus! {

/// The lowest rank among `levels`, and `cap` when that is lower.
pub open spec fn min_rank(cap: nat, levels: Seq<StaticLevel>) -> nat
    decreases levels.len(),
{
    if levels.len() == 0 {
        cap
    } else {
        let rest = min_rank(cap, levels.drop_last());
        let last = levels.last().rank();
        if last < rest {
            last
        } else {
            rest
        }
    }
}

/// The level of a node: `NotStatic` when the node itself has a dynamic
/// binding, else the lowest of its own level and its children's levels.
pub open spec fn node_level_rank(dynamic_binding: bool, own: StaticLevel, children: Seq<StaticLevel>) -> nat {
    if dynamic_binding {
        0
    } else {
        min_rank(own.rank(), children)
    }
}

proof fn lemma_min_rank_bounds(cap: nat, levels: Seq<StaticLevel>)
    ensures
        min_rank(cap, levels) <= cap,
        forall|i: int| 0 <= i < levels.len() ==> min_rank(cap, levels) <= #[trigger] levels[i].rank(),
        min_rank(cap, levels) == cap || exists|i: int| 0 <= i < levels.len() && min_rank(cap, levels) == #[trigger] levels[i].rank(),
    decreases levels.len(),
{
    if levels.len() > 0 {
        let init = levels.drop_last();
        lemma_min_rank_bounds(cap, init);
        assert forall|i: int| 0 <= i < levels.len() implies min_rank(cap, levels) <= #[trigger] levels[i].rank() by {
            if i < levels.len() - 1 {
                assert(levels[i] == init[i]);
            }
        }
        if min_rank(cap, levels) != cap && min_rank(cap, levels) != levels.last().rank() {
            let i = choose|i: int| 0 <= i < init.len() && min_rank(cap, init) == #[trigger] init[i].rank();
            assert(levels[i] == init[i]);
        }
    }
}

/// Static level of a node from its own level, whether it has a dynamic
/// binding, and its children's levels.
pub fn static_level(dynamic_binding: bool, own: StaticLevel, children: &[StaticLevel]) -> (r: StaticLevel)
    ensures
        r.rank() == node_level_rank(dynamic_binding, own, children@),
{
    if dynamic_binding {
        return StaticLevel::NotStatic;
    }
    let mut level = own;
    let mut i: usize = 0;
    while i < children.len()
        invariant
            i <= children@.len(),
            level.rank() == min_rank(own.rank(), children@.subrange(0, i as int)),
        decreases children@.len() - i,
    {
        let c = children[i];
        assert(children@.subrange(0, i + 1).drop_last() =~= children@.subrange(0, i as int));
        if c.rank_of() < level.rank_of() {
            level = c;
        }
        i = i + 1;
    }
    assert(children@.subrange(0, i as int) =~= children@);
    level
}

/// A node without a dynamic binding of its own is never more static than
/// any of its children, nor than its own content.
pub proof fn lemma_level_below_children(own: StaticLevel, children: Seq<StaticLevel>)
    ensures
        node_level_rank(false, own, children) <= own.rank(),
        forall|i: int| 0 <= i < children.len() ==> node_level_rank(false, own, children) <= #[trigger] children[i].rank(),
{
    lemma_min_rank_bounds(own.rank(), children);
}

/// A dynamic binding on the node forces `NotStatic` whatever its children are.
pub proof fn lemma_dynamic_binding_not_static(own: StaticLevel, children: Seq<StaticLevel>)
    ensures
        node_level_rank(true, own, children) == 0,
{
}

/// What the analysis found dynamic on one renderable node.
#[derive(PartialEq, Eq, Structural, Clone, Copy, Debug)]
pub struct DynamicInfo {
    /// Text content that changes.
    pub text: bool,
    /// A bound `class`.
    pub class: bool,
    /// A bound `style`.
    pub style: bool,
    /// Other bound props with fixed keys.
    pub props: bool,
    /// Props whose keys are themselves dynamic.
    pub dynamic_keys: bool,
    /// Event listeners to attach during hydration.
    pub hydrate_events: bool,
    /// A fragment whose children keep their order.
    pub stable_fragment: bool,
    /// A fragment with keyed or partly keyed children.
    pub keyed_fragment: bool,
    /// A fragment with unkeyed children.
    pub unkeyed_fragment: bool,
    /// Only refs or directives need patching.
    pub need_patch: bool,
    /// A component with dynamic slots.
    pub dynamic_slots: bool,
    /// A fragment created only for comments at the template root.
    pub dev_root_fragment: bool,
    /// A fragment whose content the compiler did not produce (hand-written
    /// content or slot content of unknown origin).
    pub bail: bool,
}

/// `mask` when `c` holds, else no bit.
pub open spec fn bit_if(c: bool, mask: u16) -> u16 {
    if c {
        mask
    } else {
        0u16
    }
}

/// The composable bits for `info`; the development-only root-fragment bit
/// only when `dev` is set.
pub open spec fn patch_bits(info: DynamicInfo, dev: bool) -> u16 {
    let keyed = info.dynamic_keys;
    bit_if(info.text, 1u16) | bit_if(info.class && !keyed, 2u16) | bit_if(info.style && !keyed, 4u16)
        | bit_if(info.props && !keyed, 8u16) | bit_if(keyed, 16u16) | bit_if(info.hydrate_events, 32u16)
        | bit_if(info.stable_fragment, 64u16) | bit_if(info.keyed_fragment, 128u16)
        | bit_if(info.unkeyed_fragment, 256u16) | bit_if(info.need_patch, 512u16)
        | bit_if(info.dynamic_slots, 1024u16) | bit_if(info.dev_root_fragment && dev, 2048u16)
}

/// The patch flag of a node with dynamic parts `info` and static level `level`.
pub open spec fn patch_flag_of(info: DynamicInfo, level: StaticLevel, dev: bool) -> PatchFlag {
    if info.bail {
        PatchFlag::Bail
    } else if level.rank() >= 2 {
        PatchFlag::Hoisted
    } else {
        PatchFlag::Dynamic(patch_bits(info, dev))
    }
}

proof fn lemma_pack(
    a: bool,
    b: bool,
    c: bool,
    d: bool,
    e: bool,
    f: bool,
    g: bool,
    h: bool,
    i: bool,
    j: bool,
    k: bool,
    l: bool,
    x: u16,
)
    by (bit_vector)
    requires
        x == (if a { 1u16 } else { 0u16 }) | (if b { 2u16 } else { 0u16 }) | (if c { 4u16 } else { 0u16 })
            | (if d { 8u16 } else { 0u16 }) | (if e { 16u16 } else { 0u16 }) | (if f { 32u16 } else { 0u16 })
            | (if g { 64u16 } else { 0u16 }) | (if h { 128u16 } else { 0u16 }) | (if i { 256u16 } else { 0u16 })
            | (if j { 512u16 } else { 0u16 }) | (if k { 1024u16 } else { 0u16 }) | (if l { 2048u16 } else { 0u16 }),
    ensures
        x < 4096,
        (x & 1 != 0) == a,
        (x & 2 != 0) == b,
        (x & 4 != 0) == c,
        (x & 8 != 0) == d,
        (x & 16 != 0) == e,
        (x & 32 != 0) == f,
        (x & 64 != 0) == g,
        (x & 128 != 0) == h,
        (x & 256 != 0) == i,
        (x & 512 != 0) == j,
        (x & 1024 != 0) == k,
        (x & 2048 != 0) == l,
        (x & 16 != 0) ==> (x & (2u16 | 4u16 | 8u16) == 0) == !(b || c || d),
{
}

proof fn lemma_patch_bits(info: DynamicInfo, dev: bool)
    ensures
        valid_bits(patch_bits(info, dev)),
        PatchFlag::Dynamic(patch_bits(info, dev)).holds(PatchFlag::TEXT) == info.text,
        PatchFlag::Dynamic(patch_bits(info, dev)).holds(PatchFlag::CLASS) == (info.class && !info.dynamic_keys),
        PatchFlag::Dynamic(patch_bits(info, dev)).holds(PatchFlag::STYLE) == (info.style && !info.dynamic_keys),
        PatchFlag::Dynamic(patch_bits(info, dev)).holds(PatchFlag::PROPS) == (info.props && !info.dynamic_keys),
        PatchFlag::Dynamic(patch_bits(info, dev)).holds(PatchFlag::FULL_PROPS) == info.dynamic_keys,
        PatchFlag::Dynamic(patch_bits(info, dev)).holds(PatchFlag::HYDRATE_EVENTS) == info.hydrate_events,
        PatchFlag::Dynamic(patch_bits(info, dev)).holds(PatchFlag::STABLE_FRAGMENT) == info.stable_fragment,
        PatchFlag::Dynamic(patch_bits(info, dev)).holds(PatchFlag::KEYED_FRAGMENT) == info.keyed_fragment,
        PatchFlag::Dynamic(patch_bits(info, dev)).holds(PatchFlag::UNKEYED_FRAGMENT) == info.unkeyed_fragment,
        PatchFlag::Dynamic(patch_bits(info, dev)).holds(PatchFlag::NEED_PATCH) == info.need_patch,
        PatchFlag::Dynamic(patch_bits(info, dev)).holds(PatchFlag::DYNAMIC_SLOTS) == info.dynamic_slots,
        PatchFlag::Dynamic(patch_bits(info, dev)).holds(PatchFlag::DEV_ROOT_FRAGMENT) == (info.dev_root_fragment && dev),
{
    let keyed = info.dynamic_keys;
    lemma_pack(info.text, info.class && !keyed, info.style && !keyed, info.props && !keyed, keyed,
        info.hydrate_events, info.stable_fragment, info.keyed_fragment, info.unkeyed_fragment,
        info.need_patch, info.dynamic_slots, info.dev_root_fragment && dev, patch_bits(info, dev));
}

fn pick(c: bool, mask: u16) -> (r: u16)
    ensures
        r == bit_if(c, mask),
{
    if c {
        mask
    } else {
        0
    }
}

/// Patch flag of a node: `Bail` for a fragment the compiler did not produce,
/// `Hoisted` for a node that can be hoisted, else the bits of what is dynamic.
/// Without `dev` the root-fragment bit is never set.
pub fn compute_patch_flag(info: &DynamicInfo, level: StaticLevel, dev: bool) -> (r: PatchFlag)
    ensures
        r == patch_flag_of(*info, level, dev),
        r.is_valid(),
        info.bail ==> r == PatchFlag::Bail,
        !info.bail && level.rank() >= 2 ==> r == PatchFlag::Hoisted,
        !info.bail && level.rank() < 2 ==> {
            &&& r is Dynamic
            &&& r.holds(PatchFlag::TEXT) == info.text
            &&& r.holds(PatchFlag::CLASS) == (info.class && !info.dynamic_keys)
            &&& r.holds(PatchFlag::STYLE) == (info.style && !info.dynamic_keys)
            &&& r.holds(PatchFlag::PROPS) == (info.props && !info.dynamic_keys)
            &&& r.holds(PatchFlag::FULL_PROPS) == info.dynamic_keys
            &&& r.holds(PatchFlag::HYDRATE_EVENTS) == info.hydrate_events
            &&& r.holds(PatchFlag::STABLE_FRAGMENT) == info.stable_fragment
            &&& r.holds(PatchFlag::KEYED_FRAGMENT) == info.keyed_fragment
            &&& r.holds(PatchFlag::UNKEYED_FRAGMENT) == info.unkeyed_fragment
            &&& r.holds(PatchFlag::NEED_PATCH) == info.need_patch
            &&& r.holds(PatchFlag::DYNAMIC_SLOTS) == info.dynamic_slots
            &&& r.holds(PatchFlag::DEV_ROOT_FRAGMENT) == (info.dev_root_fragment && dev)
        },
{
    proof {
        lemma_patch_bits(*info, dev);
    }
    if info.bail {
        return PatchFlag::Bail;
    }
    if level.can_hoist() {
        return PatchFlag::Hoisted;
    }
    let keyed = info.dynamic_keys;
    let bits: u16 = pick(info.text, PatchFlag::TEXT) | pick(info.class && !keyed, PatchFlag::CLASS)
        | pick(info.style && !keyed, PatchFlag::STYLE) | pick(info.props && !keyed, PatchFlag::PROPS)
        | pick(keyed, PatchFlag::FULL_PROPS) | pick(info.hydrate_events, PatchFlag::HYDRATE_EVENTS)
        | pick(info.stable_fragment, PatchFlag::STABLE_FRAGMENT)
        | pick(info.keyed_fragment, PatchFlag::KEYED_FRAGMENT)
        | pick(info.unkeyed_fragment, PatchFlag::UNKEYED_FRAGMENT)
        | pick(info.need_patch, PatchFlag::NEED_PATCH)
        | pick(info.dynamic_slots, PatchFlag::DYNAMIC_SLOTS)
        | pick(info.dev_root_fragment && dev, PatchFlag::DEV_ROOT_FRAGMENT);
    assert(bits == patch_bits(*info, dev));
    PatchFlag::Dynamic(bits)
}

/// Every flag the analysis produces is valid: a negative value is `Hoisted`
/// or `Bail`, never mixed with bits, and `FULL_PROPS` comes without `CLASS`,
/// `STYLE` and `PROPS`.
pub proof fn lemma_generated_flag_valid(info: DynamicInfo, level: StaticLevel, dev: bool)
    ensures
        patch_flag_of(info, level, dev).is_valid(),
        patch_flag_of(info, level, dev).spec_value() < 0 ==> patch_flag_of(info, level, dev)
            == PatchFlag::Hoisted || patch_flag_of(info, level, dev) == PatchFlag::Bail,
        patch_flag_of(info, level, dev).holds(PatchFlag::FULL_PROPS) ==> {
            &&& !patch_flag_of(info, level, dev).holds(PatchFlag::CLASS)
            &&& !patch_flag_of(info, level, dev).holds(PatchFlag::STYLE)
            &&& !patch_flag_of(info, level, dev).holds(PatchFlag::PROPS)
        },
        !dev ==> !patch_flag_of(info, level, dev).holds(PatchFlag::DEV_ROOT_FRAGMENT),
{
    lemma_patch_bits(info, dev);
}

/// What a slot body depends on.
#[derive(PartialEq, Eq, Structural, Clone, Copy, Debug)]
pub struct SlotInfo {
    /// The body reads a variable of an enclosing loop or an outer slot's props.
    pub reads_scope: bool,
    /// The slot is rendered under a condition or once per loop iteration.
    pub conditional: bool,
    /// The body passes a slot that the component itself received on unchanged.
    pub forwards_slot: bool,
}

/// The slot flag for a slot body described by `info`.
pub open spec fn slot_flag_of(info: SlotInfo) -> SlotFlag {
    if info.reads_scope || info.conditional {
        SlotFlag::Dynamic
    } else if info.forwards_slot {
        SlotFlag::Forwarded
    } else {
        SlotFlag::Stable
    }
}

/// Classifies a slot: `Dynamic` when it captures loop or conditional scope,
/// else `Forwarded` when it passes a received slot on, else `Stable`.
pub fn classify_slot(info: &SlotInfo) -> (r: SlotFlag)
    ensures
        r == slot_flag_of(*info),
{
    if info.reads_scope || info.conditional {
        SlotFlag::Dynamic
    } else if info.forwards_slot {
        SlotFlag::Forwarded
    } else {
        SlotFlag::Stable
    }
}

} // verus!
