//! One bottom-up step of the transform passes: an element's static level,
//! patch flag and the helpers that building it needs, from its own dynamic
//! parts and its already analysed children.

use vstd::prelude::*;
use crate::flags::{HelperCollector, PatchFlag, RuntimeHelper, StaticLevel};
use crate::optimize::{DynamicInfo, compute_patch_flag, node_level_rank, patch_flag_of, static_level};

verus! {

/// What analysis decided for one node.
#[derive(PartialEq, Eq, Structural, Clone, Copy, Debug)]
pub struct NodePlan {
    pub level: StaticLevel,
    pub flag: PatchFlag,
}

/// A child of an element, as the element's analysis sees it.
#[derive(PartialEq, Eq, Structural, Clone, Copy, Debug)]
pub enum ChildNode {
    /// Literal text.
    Text,
    /// An interpolated expression, displayed as text.
    Interpolation,
    /// An element planned earlier.
    Element(NodePlan),
}

/// Whether the element itself has a dynamic binding.
pub open spec fn has_binding(info: DynamicInfo) -> bool {
    info.text || info.class || info.style || info.props || info.dynamic_keys || info.hydrate_events
        || info.need_patch || info.dynamic_slots
}

/// The plan of a child: literal text can be stringified, an interpolation
/// is dynamic text.
pub open spec fn child_plan(c: ChildNode) -> NodePlan {
    match c {
        ChildNode::Text => NodePlan { level: StaticLevel::CanStringify, flag: PatchFlag::Hoisted },
        ChildNode::Interpolation => NodePlan {
            level: StaticLevel::NotStatic,
            flag: PatchFlag::Dynamic(PatchFlag::TEXT),
        },
        ChildNode::Element(p) => p,
    }
}

/// The helpers that building child `c` needs beyond its own element helper.
pub open spec fn child_helpers(c: ChildNode) -> Set<u8> {
    match c {
        ChildNode::Text => set![RuntimeHelper::CREATE_TEXT],
        ChildNode::Interpolation => set![RuntimeHelper::CREATE_TEXT, RuntimeHelper::TO_DISPLAY_STRING],
        ChildNode::Element(_) => Set::empty(),
    }
}

/// The helpers that building an element with children `cs` needs.
pub open spec fn element_helpers(cs: Seq<ChildNode>) -> Set<u8> {
    Set::new(
        |i: u8|
            i == RuntimeHelper::CREATE_ELEMENT_VNODE || exists|k: int|
                0 <= k < cs.len() && #[trigger] child_helpers(cs[k]).contains(i),
    )
}

/// Whether the children are text only, with at least one interpolation: the
/// element's text content is then dynamic.
pub open spec fn dynamic_text_children(cs: Seq<ChildNode>) -> bool {
    &&& forall|k: int| 0 <= k < cs.len() ==> !(#[trigger] cs[k] is Element)
    &&& exists|k: int| 0 <= k < cs.len() && #[trigger] cs[k] is Interpolation
}

/// The element's own dynamic parts, with dynamic text also when its children
/// are text with an interpolation.
pub open spec fn effective_info(own: DynamicInfo, cs: Seq<ChildNode>) -> DynamicInfo {
    DynamicInfo { text: own.text || dynamic_text_children(cs), ..own }
}

/// The plan of an element.
pub open spec fn element_plan(own: DynamicInfo, cs: Seq<ChildNode>, dev: bool) -> NodePlan {
    let info = effective_info(own, cs);
    let levels = cs.map_values(|c: ChildNode| child_plan(c).level);
    let level = level_of_rank(node_level_rank(has_binding(info), StaticLevel::CanStringify, levels));
    NodePlan { level, flag: patch_flag_of(info, level, dev) }
}

pub open spec fn level_of_rank(r: nat) -> StaticLevel {
    if r == 0 {
        StaticLevel::NotStatic
    } else if r == 1 {
        StaticLevel::CanSkipPatch
    } else if r == 2 {
        StaticLevel::CanHoist
    } else {
        StaticLevel::CanStringify
    }
}

/// Plans an element from its own dynamic parts `own` and its children, and
/// records in `helpers` what building it needs. An element whose children are
/// text with at least one interpolation gets `TEXT` even when `own.text` is
/// unset.
pub fn plan_element(
    own: &DynamicInfo,
    children: &[ChildNode],
    dev: bool,
    helpers: &mut HelperCollector,
) -> (r: (NodePlan, Vec<NodePlan>))
    ensures
        r.0 == element_plan(*own, children@, dev),
        r.0.flag.is_valid(),
        r.1@.len() == children@.len(),
        forall|k: int| 0 <= k < children@.len() ==> r.1@[k] == child_plan(#[trigger] children@[k]),
        final(helpers)@ == old(helpers)@.union(element_helpers(children@)),
        old(helpers).is_permissive() ==> final(helpers).is_permissive(),
{
    let mut plans: Vec<NodePlan> = Vec::new();
    let mut levels: Vec<StaticLevel> = Vec::new();
    helpers.collect(RuntimeHelper::new(RuntimeHelper::CREATE_ELEMENT_VNODE));
    let mut all_text = true;
    let mut any_interpolation = false;
    let mut i: usize = 0;
    while i < children.len()
        invariant
            i <= children@.len(),
            all_text == forall|k: int| 0 <= k < i ==> !(#[trigger] children@[k] is Element),
            any_interpolation == exists|k: int| 0 <= k < i && #[trigger] children@[k] is Interpolation,
            plans@.len() == i,
            levels@.len() == i,
            forall|k: int| 0 <= k < i ==> plans@[k] == child_plan(#[trigger] children@[k]),
            forall|k: int| 0 <= k < i ==> levels@[k] == #[trigger] plans@[k].level,
            helpers@ == old(helpers)@.union(element_helpers(children@.subrange(0, i as int))),
            old(helpers).is_permissive() ==> helpers.is_permissive(),
        decreases children@.len() - i,
    {
        let ghost before = helpers@;
        let c = children[i];
        let p = match c {
            ChildNode::Text => {
                helpers.collect(RuntimeHelper::new(RuntimeHelper::CREATE_TEXT));
                NodePlan { level: StaticLevel::CanStringify, flag: PatchFlag::Hoisted }
            },
            ChildNode::Interpolation => {
                helpers.collect(RuntimeHelper::new(RuntimeHelper::CREATE_TEXT));
                helpers.collect(RuntimeHelper::new(RuntimeHelper::TO_DISPLAY_STRING));
                NodePlan { level: StaticLevel::NotStatic, flag: PatchFlag::Dynamic(PatchFlag::TEXT) }
            },
            ChildNode::Element(p) => p,
        };
        match c {
            ChildNode::Element(_) => {
                all_text = false;
            },
            ChildNode::Interpolation => {
                any_interpolation = true;
            },
            ChildNode::Text => {},
        }
        plans.push(p);
        levels.push(p.level);
        proof {
            let pre = children@.subrange(0, i as int);
            let post = children@.subrange(0, i + 1);
            assert forall|x: u8| element_helpers(post).contains(x) == (element_helpers(pre).contains(x)
                || child_helpers(c).contains(x)) by {
                if element_helpers(post).contains(x) && x != RuntimeHelper::CREATE_ELEMENT_VNODE {
                    let k = choose|k: int| 0 <= k < post.len() && #[trigger] child_helpers(post[k]).contains(x);
                    if k < i {
                        assert(pre[k] == post[k]);
                    }
                }
                if element_helpers(pre).contains(x) && x != RuntimeHelper::CREATE_ELEMENT_VNODE {
                    let k = choose|k: int| 0 <= k < pre.len() && #[trigger] child_helpers(pre[k]).contains(x);
                    assert(pre[k] == post[k]);
                }
                if child_helpers(c).contains(x) {
                    assert(post[i as int] == c);
                }
            }
            assert(element_helpers(post) =~= element_helpers(pre).union(child_helpers(c)));
            assert(helpers@ =~= old(helpers)@.union(element_helpers(post)));
        }
        i = i + 1;
    }
    assert(children@.subrange(0, i as int) =~= children@);
    let info = DynamicInfo { text: own.text || (all_text && any_interpolation), ..*own };
    assert(info == effective_info(*own, children@));
    let level = static_level(
        info.text || own.class || own.style || own.props || own.dynamic_keys || own.hydrate_events
            || own.need_patch || own.dynamic_slots,
        StaticLevel::CanStringify,
        levels.as_slice(),
    );
    proof {
        let lv = children@.map_values(|c: ChildNode| child_plan(c).level);
        assert(levels@ =~= lv);
        assert(level == level_of_rank(level.rank()));
    }
    let flag = compute_patch_flag(&info, level, dev);
    (NodePlan { level, flag }, plans)
}

/// Whether a run of `size` static nodes at level `level` is emitted as one
/// string: only content that can be stringified, and only from `threshold`
/// nodes on.
pub fn stringify_eligible(level: StaticLevel, size: usize, threshold: usize) -> (r: bool)
    ensures
        r == (level == StaticLevel::CanStringify && size >= threshold),
{
    level.rank_of() == 3 && size >= threshold
}

} // verus!
