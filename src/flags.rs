//! Flags attached to IR nodes and the per-compile set of runtime helpers.

use vstd::prelude::*;
use vstd::std_specs::bits::axiom_u64_trailing_zeros;

verus! {

/// Helpers that the generated code references, identified by small integer ids.
/// Ids below `INTERNAL_MAX` are built in; larger ids are custom and are named
/// through a table supplied by the caller.
#[derive(PartialEq, Eq, Structural, Clone, Copy, Debug)]
pub struct RuntimeHelper(u8);

impl View for RuntimeHelper {
    type V = u8;

    closed spec fn view(&self) -> u8 {
        self.0
    }
}

impl RuntimeHelper {
    pub const FRAGMENT: u8 = 0;
    pub const TELEPORT: u8 = 1;
    pub const SUSPENSE: u8 = 2;
    pub const KEEP_ALIVE: u8 = 3;
    pub const BASE_TRANSITION: u8 = 4;
    pub const OPEN_BLOCK: u8 = 5;
    pub const CREATE_BLOCK: u8 = 6;
    pub const CREATE_ELEMENT_BLOCK: u8 = 7;
    pub const CREATE_VNODE: u8 = 8;
    pub const CREATE_ELEMENT_VNODE: u8 = 9;
    pub const CREATE_COMMENT: u8 = 11;
    pub const CREATE_TEXT: u8 = 12;
    pub const CREATE_STATIC: u8 = 13;
    pub const RESOLVE_COMPONENT: u8 = 14;
    pub const RESOLVE_DYNAMIC_COMPONENT: u8 = 15;
    pub const RESOLVE_DIRECTIVE: u8 = 16;
    pub const RESOLVE_FILTER: u8 = 17;
    pub const WITH_DIRECTIVES: u8 = 18;
    pub const RENDER_LIST: u8 = 19;
    pub const RENDER_SLOT: u8 = 20;
    pub const CREATE_SLOTS: u8 = 21;
    pub const TO_DISPLAY_STRING: u8 = 22;
    pub const MERGE_PROPS: u8 = 23;
    pub const NORMALIZE_CLASS: u8 = 24;
    pub const NORMALIZE_STYLE: u8 = 25;
    pub const NORMALIZE_PROPS: u8 = 26;
    pub const GUARD_REACTIVE_PROPS: u8 = 27;
    pub const TO_HANDLERS: u8 = 28;
    pub const CAMELIZE: u8 = 29;
    pub const CAPITALIZE: u8 = 30;
    pub const TO_HANDLER_KEY: u8 = 31;
    pub const SET_BLOCK_TRACKING: u8 = 32;
    pub const PUSH_SCOPE_ID: u8 = 33;
    pub const POP_SCOPE_ID: u8 = 34;
    pub const WITH_CTX: u8 = 35;
    pub const UNREF: u8 = 36;
    pub const IS_REF: u8 = 37;
    pub const WITH_MEMO: u8 = 38;
    pub const IS_MEMO_SAME: u8 = 39;

    /// First id of the custom range.
    pub const INTERNAL_MAX: u8 = 40;

    pub fn new(id: u8) -> (r: RuntimeHelper)
        ensures
            r@ == id,
    {
        RuntimeHelper(id)
    }

    pub fn id(&self) -> (r: u8)
        ensures
            r == self@,
    {
        self.0
    }
}

/// Whether `id` names a built-in helper (id 10 is unassigned).
pub open spec fn is_builtin_id(id: u8) -> bool {
    id < RuntimeHelper::INTERNAL_MAX && id != 10
}

/// Display name of a built-in helper.
pub open spec fn builtin_name(id: u8) -> &'static str
    recommends
        is_builtin_id(id),
{
    match id {
        0 => "Fragment",
        1 => "Teleport",
        2 => "Suspense",
        3 => "KeepAlive",
        4 => "BaseTransition",
        5 => "openBlock",
        6 => "createBlock",
        7 => "createElementBlock",
        8 => "createVNode",
        9 => "createElementVNode",
        11 => "createCommentVNode",
        12 => "createTextVNode",
        13 => "createStaticVNode",
        14 => "resolveComponent",
        15 => "resolveDynamicComponent",
        16 => "resolveDirective",
        17 => "resolveFilter",
        18 => "withDirectives",
        19 => "renderList",
        20 => "renderSlot",
        21 => "createSlots",
        22 => "toDisplayString",
        23 => "mergeProps",
        24 => "normalizeClass",
        25 => "normalizeStyle",
        26 => "normalizeProps",
        27 => "guardReactiveProps",
        28 => "toHandlers",
        29 => "camelize",
        30 => "capitalize",
        31 => "toHandlerKey",
        32 => "setBlockTracking",
        33 => "pushScopeId",
        34 => "popScopeId",
        35 => "withCtx",
        36 => "unref",
        37 => "isRef",
        38 => "withMemo",
        39 => "isMemoSame",
        _ => "",
    }
}

impl RuntimeHelper {
    /// The name under which generated code refers to this helper; custom ids
    /// are looked up in `map` at index `id - INTERNAL_MAX`.
    pub fn helper_str(&self, map: &[&'static str]) -> (r: &'static str)
        requires
            is_builtin_id(self@) || (self@ >= RuntimeHelper::INTERNAL_MAX && self@
                - RuntimeHelper::INTERNAL_MAX < map@.len()),
        ensures
            is_builtin_id(self@) ==> r == builtin_name(self@),
            self@ >= RuntimeHelper::INTERNAL_MAX ==> r == map@[self@ - RuntimeHelper::INTERNAL_MAX],
    {
        match self.0 {
            0 => "Fragment",
            1 => "Teleport",
            2 => "Suspense",
            3 => "KeepAlive",
            4 => "BaseTransition",
            5 => "openBlock",
            6 => "createBlock",
            7 => "createElementBlock",
            8 => "createVNode",
            9 => "createElementVNode",
            11 => "createCommentVNode",
            12 => "createTextVNode",
            13 => "createStaticVNode",
            14 => "resolveComponent",
            15 => "resolveDynamicComponent",
            16 => "resolveDirective",
            17 => "resolveFilter",
            18 => "withDirectives",
            19 => "renderList",
            20 => "renderSlot",
            21 => "createSlots",
            22 => "toDisplayString",
            23 => "mergeProps",
            24 => "normalizeClass",
            25 => "normalizeStyle",
            26 => "normalizeProps",
            27 => "guardReactiveProps",
            28 => "toHandlers",
            29 => "camelize",
            30 => "capitalize",
            31 => "toHandlerKey",
            32 => "setBlockTracking",
            33 => "pushScopeId",
            34 => "popScopeId",
            35 => "withCtx",
            36 => "unref",
            37 => "isRef",
            38 => "withMemo",
            39 => "isMemoSame",
            s => map[(s - RuntimeHelper::INTERNAL_MAX) as usize],
        }
    }
}


/// Whether bit `i` of `bits` is set.
pub open spec fn bit_set(bits: u64, i: u64) -> bool {
    (bits >> i) & 1u64 == 1u64
}

proof fn lemma_bit_or(x: u64, i: u64, j: u64)
    by (bit_vector)
    requires
        i < 64,
        j < 64,
    ensures
        bit_set(x | (1u64 << i), j) == (bit_set(x, j) || j == i),
{
}

proof fn lemma_bit_xor(x: u64, i: u64, j: u64)
    by (bit_vector)
    requires
        i < 64,
        j < 64,
        bit_set(x, i),
    ensures
        bit_set(x ^ (1u64 << i), j) == (bit_set(x, j) && j != i),
{
}

proof fn lemma_bit_and(x: u64, m: u64, j: u64)
    by (bit_vector)
    requires
        j < 64,
    ensures
        bit_set(x & m, j) == (bit_set(x, j) && bit_set(m, j)),
{
}

proof fn lemma_bit_test(x: u64, i: u64)
    by (bit_vector)
    requires
        i < 64,
    ensures
        (x & (1u64 << i) != 0) == bit_set(x, i),
{
}

proof fn lemma_hoist_mask(j: u64)
    by (bit_vector)
    requires
        j < 64,
    ensures
        bit_set(HOISTED_HELPER_MASK, j) == (j == 8 || j == 9 || j == 11 || j == 12 || j == 13),
{
}

proof fn lemma_zero_and_full(j: u64)
    by (bit_vector)
    requires
        j < 64,
    ensures
        !bit_set(0u64, j),
        bit_set(!0u64, j),
{
}

/// Ids of the helpers that may be referenced from hoisted (module-scope) output:
/// createVNode, createElementVNode, createCommentVNode, createTextVNode and
/// createStaticVNode.
pub open spec fn hoist_legal() -> Set<u8> {
    set![8u8, 9u8, 11u8, 12u8, 13u8]
}

/// Bits of the helpers in `hoist_legal`.
pub const HOISTED_HELPER_MASK: u64 = (1u64 << 8u64) | (1u64 << 9u64) | (1u64 << 11u64) | (1u64
    << 12u64) | (1u64 << 13u64);

/// The set of helper ids named by the low 64 bits of `bits`.
pub open spec fn id_set(bits: u64) -> Set<u8> {
    Set::new(|i: u8| i < 64 && bit_set(bits, i as u64))
}

/// Whether `s` lists distinct helpers in strictly ascending id order.
pub open spec fn ascending(s: Seq<RuntimeHelper>) -> bool {
    forall|a: int, b: int| 0 <= a < b < s.len() ==> s[a]@ < s[b]@
}

/// Whether `s` lists exactly the members of `ids`, in ascending order.
pub open spec fn lists_in_order(s: Seq<RuntimeHelper>, ids: Set<u8>) -> bool {
    &&& ascending(s)
    &&& forall|k: int| 0 <= k < s.len() ==> ids.contains(#[trigger] s[k]@)
    &&& forall|i: u8| ids.contains(i) ==> exists|k: int| 0 <= k < s.len() && #[trigger] s[k]@ == i
}

/// The helpers needed by one compile: a set of ids below 64.
/// `ignore_missing` makes it permissive: it then contains every helper and
/// lists none.
#[derive(PartialEq, Eq, Structural, Clone, Copy, Debug)]
pub struct HelperCollector {
    bits: u64,
    ignore: bool,
}

impl View for HelperCollector {
    type V = Set<u8>;

    closed spec fn view(&self) -> Set<u8> {
        id_set(self.bits)
    }
}

impl HelperCollector {
    /// Whether this is the permissive collector made by `ignore_missing`.
    pub closed spec fn is_permissive(&self) -> bool {
        self.ignore
    }

    /// The ids that iteration lists.
    pub open spec fn listed(&self) -> Set<u8> {
        if self.is_permissive() {
            Set::empty()
        } else {
            self@
        }
    }

    /// The collector after inserting `h`.
    pub closed spec fn inserted(self, h: RuntimeHelper) -> HelperCollector
        recommends
            h@ < 64,
    {
        HelperCollector { bits: self.bits | (1u64 << (h@ as u64)), ignore: self.ignore }
    }

    /// The collector restricted to the helpers legal in hoisted output.
    pub closed spec fn hoisted(self) -> HelperCollector {
        HelperCollector { bits: self.bits & HOISTED_HELPER_MASK, ignore: false }
    }

    pub fn new() -> (r: Self)
        ensures
            r@ == Set::<u8>::empty(),
            !r.is_permissive(),
    {
        proof {
            lemma_empty_iff_zero(0u64);
        }
        HelperCollector { bits: 0, ignore: false }
    }

    /// True when nothing is to be imported: no helper was collected, or the
    /// collector is permissive.
    pub fn is_empty(&self) -> (r: bool)
        ensures
            r == (self.listed() == Set::<u8>::empty()),
    {
        proof {
            lemma_empty_iff_zero(self.bits);
        }
        self.ignore || self.bits == 0
    }

    /// Inserts a helper; inserting one that is present changes nothing.
    pub fn collect(&mut self, helper: RuntimeHelper)
        requires
            helper@ < 64,
        ensures
            *final(self) == old(self).inserted(helper),
            final(self)@ == old(self)@.insert(helper@),
            final(self).is_permissive() == old(self).is_permissive(),
    {
        proof {
            let x = self.bits;
            let n = x | (1u64 << (helper@ as u64));
            assert forall|i: u8| id_set(n).contains(i) == id_set(x).insert(helper@).contains(i) by {
                if i < 64 {
                    lemma_bit_or(x, helper@ as u64, i as u64);
                }
            }
            assert(id_set(n) =~= id_set(x).insert(helper@));
        }
        self.bits = self.bits | (1u64 << helper.0);
    }

    pub fn contains(&self, helper: RuntimeHelper) -> (r: bool)
        requires
            helper@ < 64,
        ensures
            r == self@.contains(helper@),
    {
        proof {
            lemma_bit_test(self.bits, helper@ as u64);
        }
        (self.bits & (1u64 << helper.0)) != 0
    }

    /// A new collector holding those helpers of this one that are legal in
    /// hoisted output.
    pub fn hoist_helpers(&self) -> (r: Self)
        ensures
            r == self.hoisted(),
            r@ == self@.intersect(hoist_legal()),
            !r.is_permissive(),
    {
        let r = HelperCollector { bits: self.bits & HOISTED_HELPER_MASK, ignore: false };
        proof {
            lemma_hoisted_view(*self);
        }
        r
    }

    /// Makes the collector permissive, so that missing helpers are ignored.
    pub fn ignore_missing(&mut self)
        ensures
            final(self).is_permissive(),
            final(self).listed() == Set::<u8>::empty(),
            forall|i: u8| i < 64 ==> #[trigger] final(self)@.contains(i),
    {
        proof {
            assert forall|i: u8| i < 64 implies #[trigger] id_set(!0u64).contains(i) by {
                lemma_zero_and_full(i as u64);
            }
        }
        self.bits = !0u64;
        self.ignore = true;
    }

    /// Whether `ignore_missing` was called.
    pub fn ignores_missing(&self) -> (r: bool)
        ensures
            r == self.is_permissive(),
    {
        self.ignore
    }

    /// An iterator over the listed helpers in ascending id order.
    pub fn into_iter(self) -> (r: HelperIter)
        ensures
            r.remaining() == self.listed(),
    {
        if self.ignore {
            proof {
                lemma_empty_iff_zero(0u64);
            }
            HelperIter(0)
        } else {
            HelperIter(self.bits)
        }
    }

    /// The listed helpers in ascending id order.
    pub fn helpers(&self) -> (r: Vec<RuntimeHelper>)
        ensures
            lists_in_order(r@, self.listed()),
    {
        let mut it = self.into_iter();
        let mut out: Vec<RuntimeHelper> = Vec::new();
        loop
            invariant
                ascending(out@),
                forall|k: int, i: u8| 0 <= k < out@.len() && #[trigger] it.remaining().contains(i) ==> #[trigger] out@[k]@ < i,
                forall|k: int| 0 <= k < out@.len() ==> self.listed().contains(#[trigger] out@[k]@),
                forall|i: u8| #[trigger] self.listed().contains(i) ==> it.remaining().contains(i)
                    || exists|k: int| 0 <= k < out@.len() && #[trigger] out@[k]@ == i,
                forall|i: u8| #[trigger] it.remaining().contains(i) ==> self.listed().contains(i),
            ensures
                lists_in_order(out@, self.listed()),
            decreases it.remaining().len(),
        {
            let ghost before = out@;
            match it.next() {
                Some(h) => {
                    out.push(h);
                    proof {
                        assert forall|i: u8| #[trigger] self.listed().contains(i) implies it.remaining().contains(i)
                            || exists|k: int| 0 <= k < out@.len() && #[trigger] out@[k]@ == i by {
                            if !it.remaining().contains(i) && i != h@ {
                                let k = choose|k: int| 0 <= k < before.len() && #[trigger] before[k]@ == i;
                                assert(out@[k]@ == i);
                            }
                            if i == h@ {
                                assert(out@[out@.len() - 1]@ == i);
                            }
                        }
                    }
                },
                None => {
                    proof {
                        assert forall|i: u8| #[trigger] self.listed().contains(i) implies exists|k: int|
                            0 <= k < out@.len() && #[trigger] out@[k]@ == i by {
                            assert(!it.remaining().contains(i));
                        }
                    }
                    break ;
                },
            }
        }
        out
    }
}

impl Default for HelperCollector {
    fn default() -> (r: Self)
        ensures
            r@ == Set::<u8>::empty(),
            !r.is_permissive(),
    {
        HelperCollector::new()
    }
}

/// Iterator over a collector's helpers, lowest id first.
pub struct HelperIter(u64);

impl HelperIter {
    /// The ids still to come.
    pub closed spec fn remaining(&self) -> Set<u8> {
        id_set(self.0)
    }

    /// How many helpers are still to come, as an exact lower and upper bound.
    pub fn size_hint(&self) -> (r: (usize, Option<usize>))
        ensures
            r.0 == self.remaining().len(),
            r.1 == Some(r.0),
    {
        let mut it = HelperIter(self.0);
        let mut n: usize = 0;
        proof {
            lemma_remaining_bounds(*self);
        }
        loop
            invariant
                it.remaining().finite(),
                n + it.remaining().len() == self.remaining().len(),
                self.remaining().len() <= 64,
            ensures
                n == self.remaining().len(),
            decreases it.remaining().len(),
        {
            match it.next() {
                Some(_) => {
                    n = n + 1;
                },
                None => {
                    break ;
                },
            }
        }
        (n, Some(n))
    }

    /// Yields the lowest remaining id and removes it.
    pub fn next(&mut self) -> (r: Option<RuntimeHelper>)
        ensures
            old(self).remaining().finite(),
            match r {
                None => old(self).remaining() == Set::<u8>::empty() && final(self).remaining()
                    == Set::<u8>::empty(),
                Some(h) => {
                    &&& old(self).remaining().contains(h@)
                    &&& forall|i: u8| #[trigger] old(self).remaining().contains(i) ==> h@ <= i
                    &&& final(self).remaining() == old(self).remaining().remove(h@)
                },
            },
    {
        proof {
            lemma_id_set_finite(self.0);
        }
        if self.0 == 0 {
            proof {
                lemma_empty_iff_zero(0u64);
            }
            return None;
        }
        let r = self.0.trailing_zeros();
        proof {
            axiom_u64_trailing_zeros(self.0);
        }
        let ghost x = self.0;
        self.0 = self.0 ^ (1u64 << r);
        proof {
            let t = r as u64;
            assert forall|i: u8| id_set(self.0).contains(i) == id_set(x).remove(t as u8).contains(i) by {
                if i < 64 {
                    lemma_bit_xor(x, t, i as u64);
                }
            }
            assert(id_set(self.0) =~= id_set(x).remove(t as u8));
            assert forall|i: u8| #[trigger] id_set(x).contains(i) implies t as u8 <= i by {
                if (i as u64) < t {
                    assert((x >> (i as u64)) & 1u64 == 0u64);
                }
            }
        }
        Some(RuntimeHelper(r as u8))
    }
}

proof fn lemma_remaining_bounds(it: HelperIter)
    ensures
        it.remaining().finite(),
        it.remaining().len() <= 64,
{
    let r = Set::<u8>::range(0u8, 64u8);
    vstd::set_lib::range_set_properties::<u8>(0u8, 64u8);
    assert(id_set(it.0).subset_of(r));
    vstd::set_lib::lemma_len_subset(id_set(it.0), r);
}

proof fn lemma_empty_iff_zero(bits: u64)
    ensures
        id_set(bits) == Set::<u8>::empty() <==> bits == 0,
{
    if bits != 0 {
        axiom_u64_trailing_zeros(bits);
        let t = vstd::std_specs::bits::u64_trailing_zeros(bits);
        assert(id_set(bits).contains(t as u8));
    } else {
        assert forall|i: u8| !id_set(0u64).contains(i) by {
            if i < 64 {
                lemma_zero_and_full(i as u64);
            }
        }
        assert(id_set(0u64) =~= Set::<u8>::empty());
    }
}

proof fn lemma_id_set_finite(bits: u64)
    ensures
        id_set(bits).finite(),
{
    broadcast use vstd::set_lib::full_set_properties;

    assert(id_set(bits) =~= Set::<u8>::full().filter(|i: u8| i < 64 && bit_set(bits, i as u64)));
}

/// Whether `map` gives a name to helper `id`.
pub open spec fn resolvable(id: u8, map: Seq<&'static str>) -> bool {
    is_builtin_id(id) || (id >= RuntimeHelper::INTERNAL_MAX && id - RuntimeHelper::INTERNAL_MAX
        < map.len())
}

/// The name of helper `id`, given the table of custom names `map`.
pub open spec fn name_of(id: u8, map: Seq<&'static str>) -> &'static str {
    if is_builtin_id(id) {
        builtin_name(id)
    } else {
        map[id - RuntimeHelper::INTERNAL_MAX]
    }
}

impl HelperCollector {
    /// The names of the listed helpers in ascending id order, for the import
    /// preamble; the first helper without a name is an error.
    pub fn helper_names(&self, map: &[&'static str]) -> (r: Result<Vec<&'static str>, RuntimeHelper>)
        ensures
            r is Ok <==> (forall|i: u8| #[trigger] self.listed().contains(i) ==> resolvable(i, map@)),
            r matches Ok(names) ==> exists|s: Seq<RuntimeHelper>|
                {
                    &&& lists_in_order(s, self.listed())
                    &&& names@.len() == s.len()
                    &&& forall|k: int| 0 <= k < s.len() ==> names@[k] == name_of(#[trigger] s[k]@, map@)
                },
            r matches Err(h) ==> self.listed().contains(h@) && !resolvable(h@, map@),
    {
        let hs = self.helpers();
        let mut names: Vec<&'static str> = Vec::new();
        let mut k: usize = 0;
        while k < hs.len()
            invariant
                k <= hs@.len(),
                lists_in_order(hs@, self.listed()),
                names@.len() == k,
                forall|j: int| 0 <= j < k ==> names@[j] == name_of(#[trigger] hs@[j]@, map@),
                forall|j: int| 0 <= j < k ==> resolvable(#[trigger] hs@[j]@, map@),
            decreases hs@.len() - k,
        {
            let h = hs[k];
            let id = h.id();
            if !(id < RuntimeHelper::INTERNAL_MAX && id != 10) && !(id >= RuntimeHelper::INTERNAL_MAX
                && ((id - RuntimeHelper::INTERNAL_MAX) as usize) < map.len()) {
                proof {
                    assert(self.listed().contains(hs@[k as int]@));
                }
                return Err(h);
            }
            names.push(h.helper_str(map));
            k = k + 1;
        }
        proof {
            assert forall|i: u8| #[trigger] self.listed().contains(i) implies resolvable(i, map@) by {
                let j = choose|j: int| 0 <= j < hs@.len() && #[trigger] hs@[j]@ == i;
            }
        }
        Ok(names)
    }
}

proof fn lemma_hoisted_view(h: HelperCollector)
    ensures
        h.hoisted()@ == h@.intersect(hoist_legal()),
{
    let r = h.hoisted();
    assert forall|i: u8| r@.contains(i) == h@.intersect(hoist_legal()).contains(i) by {
        if i < 64 {
            lemma_bit_and(h.bits, HOISTED_HELPER_MASK, i as u64);
            lemma_hoist_mask(i as u64);
        }
    }
    assert(r@ =~= h@.intersect(hoist_legal()));
}

/// Inserting the same helper twice gives the same collector as inserting it
/// once: the same members, and so the same listing.
pub proof fn lemma_collect_idempotent(h: HelperCollector, helper: RuntimeHelper)
    requires
        helper@ < 64,
    ensures
        h.inserted(helper).inserted(helper) == h.inserted(helper),
        h.inserted(helper).inserted(helper)@ == h.inserted(helper)@,
        h.inserted(helper).inserted(helper).listed() == h.inserted(helper).listed(),
{
    let x = h.bits;
    let s = helper@ as u64;
    assert((x | (1u64 << s)) | (1u64 << s) == x | (1u64 << s)) by (bit_vector);
}

/// The hoist-restricted collector holds only helpers of the original that
/// are legal in hoisted output.
pub proof fn lemma_hoist_subset(h: HelperCollector)
    ensures
        h.hoisted()@.subset_of(h@),
        h.hoisted()@.subset_of(hoist_legal()),
{
    lemma_hoisted_view(h);
}

/// How much of an IR node can be generated statically. Each level implies
/// the guarantees of the lower ones: a node that can be stringified can be
/// hoisted and skipped for patching.
#[derive(PartialEq, Eq, Structural, PartialOrd, Ord, Clone, Copy, Debug)]
pub enum StaticLevel {
    NotStatic,
    CanSkipPatch,
    CanHoist,
    CanStringify,
}

impl StaticLevel {
    /// Position in the order `NotStatic < CanSkipPatch < CanHoist < CanStringify`.
    pub open spec fn rank(self) -> nat {
        match self {
            StaticLevel::NotStatic => 0,
            StaticLevel::CanSkipPatch => 1,
            StaticLevel::CanHoist => 2,
            StaticLevel::CanStringify => 3,
        }
    }

    pub fn rank_of(&self) -> (r: u8)
        ensures
            r == self.rank(),
    {
        match self {
            StaticLevel::NotStatic => 0,
            StaticLevel::CanSkipPatch => 1,
            StaticLevel::CanHoist => 2,
            StaticLevel::CanStringify => 3,
        }
    }

    /// The lower of two levels.
    pub fn min_level(self, other: StaticLevel) -> (r: StaticLevel)
        ensures
            r.rank() <= self.rank(),
            r.rank() <= other.rank(),
            r == self || r == other,
    {
        if self.rank_of() <= other.rank_of() {
            self
        } else {
            other
        }
    }

    /// Whether the node may be built once, outside the update path.
    pub fn can_hoist(&self) -> (r: bool)
        ensures
            r == (self.rank() >= 2),
    {
        self.rank_of() >= 2
    }
}

/// How a slot's reactive dependencies are tracked.
#[derive(PartialEq, Eq, Structural, Clone, Copy, Debug)]
pub enum SlotFlag {
    /// The slot captures all of its dependencies; the parent need not force
    /// the child to update.
    Stable,
    /// The slot reads loop or conditional scope, or has conditional
    /// structure; the parent must force the child to update.
    Dynamic,
    /// A received slot passed on unchanged; the runtime refines it from the
    /// flag of the slot actually received.
    Forwarded,
}

impl SlotFlag {
    /// The number the runtime reads.
    pub fn value(&self) -> (r: u8)
        ensures
            r == match self {
                SlotFlag::Stable => 1u8,
                SlotFlag::Dynamic => 2u8,
                SlotFlag::Forwarded => 3u8,
            },
    {
        match self {
            SlotFlag::Stable => 1,
            SlotFlag::Dynamic => 2,
            SlotFlag::Forwarded => 3,
        }
    }
}

/// Update hint on a renderable node: a set of composable bits, or one of two
/// special markers that are never combined with bits.
#[derive(PartialEq, Eq, Structural, Clone, Copy, Debug)]
pub enum PatchFlag {
    /// Composable bits; only the twelve named bits may be set, and
    /// `FULL_PROPS` excludes `CLASS`, `STYLE` and `PROPS`.
    Dynamic(u16),
    /// Static content built once; hydration skips the subtree.
    Hoisted,
    /// Diffing must leave optimized mode for this fragment.
    Bail,
}

/// Whether `bits` uses only the named bits and keeps `FULL_PROPS` exclusive.
pub open spec fn valid_bits(bits: u16) -> bool {
    &&& bits < 4096
    &&& bits & PatchFlag::FULL_PROPS != 0 ==> bits & (PatchFlag::CLASS | PatchFlag::STYLE
        | PatchFlag::PROPS) == 0
}

impl PatchFlag {
    pub const TEXT: u16 = 1;
    pub const CLASS: u16 = 2;
    pub const STYLE: u16 = 4;
    pub const PROPS: u16 = 8;
    pub const FULL_PROPS: u16 = 16;
    pub const HYDRATE_EVENTS: u16 = 32;
    pub const STABLE_FRAGMENT: u16 = 64;
    pub const KEYED_FRAGMENT: u16 = 128;
    pub const UNKEYED_FRAGMENT: u16 = 256;
    pub const NEED_PATCH: u16 = 512;
    pub const DYNAMIC_SLOTS: u16 = 1024;
    pub const DEV_ROOT_FRAGMENT: u16 = 2048;
    /// Numeric value of `Hoisted`.
    pub const HOISTED_VALUE: i32 = -1;
    /// Numeric value of `Bail`.
    pub const BAIL_VALUE: i32 = -2;

    pub open spec fn is_valid(self) -> bool {
        match self {
            PatchFlag::Dynamic(b) => valid_bits(b),
            _ => true,
        }
    }

    /// Whether the composable bit `mask` is set.
    pub open spec fn holds(self, mask: u16) -> bool {
        match self {
            PatchFlag::Dynamic(b) => b & mask != 0,
            _ => false,
        }
    }

    /// The number the runtime reads: the bits, or a negative marker.
    pub open spec fn spec_value(self) -> i32 {
        match self {
            PatchFlag::Dynamic(b) => b as i32,
            PatchFlag::Hoisted => PatchFlag::HOISTED_VALUE,
            PatchFlag::Bail => PatchFlag::BAIL_VALUE,
        }
    }

    pub fn value(&self) -> (r: i32)
        ensures
            r == self.spec_value(),
    {
        match self {
            PatchFlag::Dynamic(b) => *b as i32,
            PatchFlag::Hoisted => PatchFlag::HOISTED_VALUE,
            PatchFlag::Bail => PatchFlag::BAIL_VALUE,
        }
    }

    pub fn contains(&self, mask: u16) -> (r: bool)
        ensures
            r == self.holds(mask),
    {
        match self {
            PatchFlag::Dynamic(b) => *b & mask != 0,
            _ => false,
        }
    }

    /// Reads a runtime value back; values that no valid flag has are refused.
    pub fn from_value(v: i32) -> (r: Option<PatchFlag>)
        ensures
            r matches Some(f) ==> f.is_valid() && f.spec_value() == v,
            r is None <==> !(v == -1 || v == -2 || (0 <= v < 4096 && valid_bits(v as u16))),
    {
        if v == PatchFlag::HOISTED_VALUE {
            Some(PatchFlag::Hoisted)
        } else if v == PatchFlag::BAIL_VALUE {
            Some(PatchFlag::Bail)
        } else if 0 <= v && v < 4096 {
            let b = v as u16;
            if b & PatchFlag::FULL_PROPS != 0 && b & (PatchFlag::CLASS | PatchFlag::STYLE
                | PatchFlag::PROPS) != 0 {
                None
            } else {
                Some(PatchFlag::Dynamic(b))
            }
        } else {
            None
        }
    }
}

impl Default for PatchFlag {
    /// No bit set.
    fn default() -> (r: Self)
        ensures
            r == PatchFlag::Dynamic(0),
    {
        PatchFlag::Dynamic(0)
    }
}

/// A valid flag with a negative value is one of the two special markers, and
/// a flag with bits set is never negative.
pub proof fn lemma_negative_is_special(f: PatchFlag)
    requires
        f.is_valid(),
    ensures
        f.spec_value() < 0 ==> f == PatchFlag::Hoisted || f == PatchFlag::Bail,
        f.spec_value() < 0 ==> f.spec_value() == PatchFlag::HOISTED_VALUE || f.spec_value()
            == PatchFlag::BAIL_VALUE,
        f is Dynamic ==> f.spec_value() >= 0,
{
}

} // verus!
