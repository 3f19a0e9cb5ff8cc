//! Deferred string values: borrowed template text with a set of pending
//! normalizations, applied once when the text is written out.

use vstd::prelude::*;
use crate::text::{
    asset_id, asset_id_text, camel, camelize_text, capitalize_text, capitalized, compress,
    compress_text, decode_refs, decode_text, handler_key, handler_key_text, self_suffix,
    suffix_self_text,
};

verus! {

/// A set of pending string operations, one bit each.
#[derive(PartialEq, Eq, Structural, Clone, Copy, Debug, Hash)]
pub struct StrOps(u8);

impl View for StrOps {
    type V = u8;

    closed spec fn view(&self) -> u8 {
        self.0
    }
}

impl StrOps {
    /// Runs of whitespace become one space.
    pub const COMPRESS_WHITESPACE: u8 = 1;
    /// Character references are decoded.
    pub const DECODE_ENTITY: u8 = 2;
    /// `a-b` becomes `aB`.
    pub const CAMEL_CASE: u8 = 4;
    /// Camel case with the first letter upper-cased.
    pub const PASCAL_CASE: u8 = 8;
    /// The text stands in an attribute value.
    pub const IS_ATTR: u8 = 16;
    /// `click` becomes `onClick`.
    pub const HANDLER_KEY: u8 = 32;
    /// Characters that cannot stand in an identifier become `_`.
    pub const VALID_ASSET: u8 = 64;
    /// `__self` is appended; unlike the others this is not idempotent, and it
    /// is requested at most once per value.
    pub const SELF_SUFFIX: u8 = 128;

    /// Whether operation `op` is pending.
    pub open spec fn has(self, op: u8) -> bool {
        self@ & op != 0
    }

    /// The set with the operations of `ops` added.
    pub closed spec fn with(self, ops: u8) -> StrOps {
        StrOps(self.0 | ops)
    }

    /// The pending bits after adding `ops`.
    pub proof fn lemma_with_view(self, ops: u8)
        ensures
            self.with(ops)@ == self@ | ops,
    {
    }

    pub fn empty() -> (r: StrOps)
        ensures
            r@ == 0,
    {
        StrOps(0)
    }

    pub fn contains(&self, op: u8) -> (r: bool)
        ensures
            r == self.has(op),
    {
        self.0 & op != 0
    }

    /// Adds the operations of `ops`.
    pub fn insert(&mut self, ops: u8)
        ensures
            *final(self) == old(self).with(ops),
            final(self)@ == old(self)@ | ops,
    {
        self.0 = self.0 | ops;
    }
}

/// Requesting the same operations twice leaves the same pending set as
/// requesting them once (decoding, with or without attribute context, is
/// one such request).
pub proof fn lemma_ops_idempotent(ops: StrOps, m: u8)
    ensures
        ops.with(m).with(m) == ops.with(m),
        forall|s: Seq<char>| materialize(s, ops.with(m).with(m)) == materialize(s, ops.with(m)),
{
    let x = ops.0;
    assert((x | m) | m == x | m) by (bit_vector);
}

/// The operations that `decode` requests.
pub open spec fn decode_ops(is_attr: bool) -> u8 {
    if is_attr {
        (StrOps::DECODE_ENTITY | StrOps::IS_ATTR) as u8
    } else {
        StrOps::DECODE_ENTITY
    }
}

/// A template substring with pending operations.
#[derive(PartialEq, Eq, Clone, Copy, Debug, Hash)]
pub struct VStr<'a> {
    pub raw: &'a str,
    pub ops: StrOps,
}

/// Whether `s` names an event property: `on` followed by a character that is
/// not a lower-case ASCII letter.
pub open spec fn is_event_prop(s: Seq<char>) -> bool {
    s.len() > 2 && s[0] == 'o' && s[1] == 'n' && !('a' <= s[2] && s[2] <= 'z')
}

fn event_prop(s: &str) -> (r: bool)
    ensures
        r == is_event_prop(s@),
{
    let n = s.unicode_len();
    if n <= 2 {
        return false;
    }
    let c = s.get_char(2);
    s.get_char(0) == 'o' && s.get_char(1) == 'n' && !('a' <= c && c <= 'z')
}

impl<'a> VStr<'a> {
    /// The text with no pending operation.
    pub fn raw(raw: &'a str) -> (r: Self)
        ensures
            r.raw == raw,
            r.ops@ == 0,
    {
        VStr { raw, ops: StrOps::empty() }
    }

    /// Whether `s` is an event-handler key: marked as one, or named like one.
    pub fn is_handler(s: &VStr) -> (r: bool)
        ensures
            r == (s.ops.has(StrOps::HANDLER_KEY) || is_event_prop(s.raw@)),
    {
        if s.ops.contains(StrOps::HANDLER_KEY) {
            return true;
        }
        event_prop(s.raw)
    }

    /// The value with the operations of `ops` added.
    pub open spec fn with_ops(self, ops: u8) -> VStr<'a> {
        VStr { raw: self.raw, ops: self.ops.with(ops) }
    }

    /// Requests decoding of character references, in attribute context when
    /// `is_attr` holds.
    pub fn decode(&mut self, is_attr: bool) -> (r: &mut Self)
        ensures
            *r == old(self).with_ops(decode_ops(is_attr)),
            r.raw == old(self).raw,
            r.ops@ == old(self).ops@ | decode_ops(is_attr),
            *final(self) == *final(r),
    {
        let ops = if is_attr {
            StrOps::DECODE_ENTITY | StrOps::IS_ATTR
        } else {
            StrOps::DECODE_ENTITY
        };
        self.ops.insert(ops);
        self
    }

    /// Requests camel case.
    pub fn camelize(&mut self) -> (r: &mut Self)
        ensures
            *r == old(self).with_ops(StrOps::CAMEL_CASE),
            r.raw == old(self).raw,
            r.ops@ == old(self).ops@ | StrOps::CAMEL_CASE,
            *final(self) == *final(r),
    {
        self.ops.insert(StrOps::CAMEL_CASE);
        self
    }

    /// Requests pascal case.
    pub fn capitalize(&mut self) -> (r: &mut Self)
        ensures
            *r == old(self).with_ops(StrOps::PASCAL_CASE),
            r.raw == old(self).raw,
            r.ops@ == old(self).ops@ | StrOps::PASCAL_CASE,
            *final(self) == *final(r),
    {
        self.ops.insert(StrOps::PASCAL_CASE);
        self
    }

    /// Requests whitespace compression.
    pub fn compress_whitespace(&mut self) -> (r: &mut Self)
        ensures
            *r == old(self).with_ops(StrOps::COMPRESS_WHITESPACE),
            r.raw == old(self).raw,
            r.ops@ == old(self).ops@ | StrOps::COMPRESS_WHITESPACE,
            *final(self) == *final(r),
    {
        self.ops.insert(StrOps::COMPRESS_WHITESPACE);
        self
    }

    /// Requests conversion into an event-handler key: `click` becomes `onClick`.
    pub fn be_handler(&mut self) -> (r: &mut Self)
        ensures
            *r == old(self).with_ops(StrOps::HANDLER_KEY),
            r.raw == old(self).raw,
            r.ops@ == old(self).ops@ | StrOps::HANDLER_KEY,
            *final(self) == *final(r),
    {
        self.ops.insert(StrOps::HANDLER_KEY);
        self
    }

    /// Requests the `__self` suffix of a self-referring component; at most once per value.
    pub fn suffix_self(&mut self) -> (r: &mut Self)
        ensures
            *r == old(self).with_ops(StrOps::SELF_SUFFIX),
            r.raw == old(self).raw,
            r.ops@ == old(self).ops@ | StrOps::SELF_SUFFIX,
            *final(self) == *final(r),
    {
        self.ops.insert(StrOps::SELF_SUFFIX);
        self
    }

    /// Requests conversion into a valid asset id.
    pub fn be_asset(&mut self) -> (r: &mut Self)
        ensures
            *r == old(self).with_ops(StrOps::VALID_ASSET),
            r.raw == old(self).raw,
            r.ops@ == old(self).ops@ | StrOps::VALID_ASSET,
            *final(self) == *final(r),
    {
        self.ops.insert(StrOps::VALID_ASSET);
        self
    }
}

/// The text that `s` becomes under the pending operations `ops`, applied in
/// this order: decoding, whitespace compression, camel or pascal case,
/// handler key, asset id, `__self` suffix. Decoding knows only references
/// closed by `;`, so attribute context does not change its result.
pub open spec fn materialize(s: Seq<char>, ops: StrOps) -> Seq<char> {
    let a = if ops.has(StrOps::DECODE_ENTITY) {
        decode_refs(s)
    } else {
        s
    };
    let b = if ops.has(StrOps::COMPRESS_WHITESPACE) {
        compress(a)
    } else {
        a
    };
    let c = if ops.has(StrOps::PASCAL_CASE) {
        capitalized(camel(b))
    } else if ops.has(StrOps::CAMEL_CASE) {
        camel(b)
    } else {
        b
    };
    let d = if ops.has(StrOps::HANDLER_KEY) {
        handler_key(c)
    } else {
        c
    };
    let e = if ops.has(StrOps::VALID_ASSET) {
        asset_id(d)
    } else {
        d
    };
    if ops.has(StrOps::SELF_SUFFIX) {
        e + self_suffix()
    } else {
        e
    }
}

/// Relies on `String::push`: appends one character.
#[verifier::external_body]
fn push_char(s: &mut String, c: char)
    ensures
        final(s)@ == old(s)@.push(c),
{
    s.push(c);
}

fn chars_of(s: &str) -> (r: Vec<char>)
    ensures
        r@ == s@,
{
    let n = s.unicode_len();
    let mut out: Vec<char> = Vec::new();
    let mut i: usize = 0;
    while i < n
        invariant
            n == s@.len(),
            i <= n,
            out@ == s@.subrange(0, i as int),
        decreases n - i,
    {
        out.push(s.get_char(i));
        i = i + 1;
        assert(out@ =~= s@.subrange(0, i as int));
    }
    assert(s@.subrange(0, n as int) =~= s@);
    out
}

impl StrOps {
    /// `s` with the pending operations applied.
    fn apply(&self, s: &str) -> (r: Vec<char>)
        ensures
            r@ == materialize(s@, *self),
    {
        let mut v = chars_of(s);
        if self.contains(StrOps::DECODE_ENTITY) {
            v = decode_text(&v);
        }
        if self.contains(StrOps::COMPRESS_WHITESPACE) {
            v = compress_text(&v);
        }
        if self.contains(StrOps::PASCAL_CASE) {
            v = capitalize_text(&camelize_text(&v));
        } else if self.contains(StrOps::CAMEL_CASE) {
            v = camelize_text(&v);
        }
        if self.contains(StrOps::HANDLER_KEY) {
            v = handler_key_text(&v);
        }
        if self.contains(StrOps::VALID_ASSET) {
            v = asset_id_text(&v);
        }
        if self.contains(StrOps::SELF_SUFFIX) {
            v = suffix_self_text(&v);
        }
        v
    }

    /// Whether `s` is already what the pending operations would make of it.
    pub fn is_satisfied_by(&self, s: &str) -> (r: bool)
        ensures
            r == (materialize(s@, *self) == s@),
    {
        let v = self.apply(s);
        let n = s.unicode_len();
        if v.len() != n {
            return false;
        }
        let mut i: usize = 0;
        while i < n
            invariant
                n == s@.len(),
                v@.len() == n,
                v@ == materialize(s@, *self),
                i <= n,
                forall|j: int| 0 <= j < i ==> v@[j] == s@[j],
            decreases n - i,
        {
            if v[i] != s.get_char(i) {
                assert(v@[i as int] != s@[i as int]);
                return false;
            }
            i = i + 1;
        }
        assert(v@ =~= s@);
        true
    }

    /// Appends to `out` what the pending operations make of `s`.
    pub fn write_ops(&self, s: &str, out: &mut String)
        ensures
            final(out)@ == old(out)@ + materialize(s@, *self),
    {
        let v = self.apply(s);
        let mut i: usize = 0;
        while i < v.len()
            invariant
                i <= v@.len(),
                out@ == old(out)@ + v@.subrange(0, i as int),
            decreases v@.len() - i,
        {
            push_char(out, v[i]);
            i = i + 1;
            assert(out@ =~= old(out)@ + v@.subrange(0, i as int));
        }
        assert(v@.subrange(0, i as int) =~= v@);
    }
}

impl<'a> VStr<'a> {
    /// The text with every pending operation applied.
    pub fn into_string(self) -> (r: String)
        ensures
            r@ == materialize(self.raw@, self.ops),
    {
        let mut out = String::new();
        self.ops.write_ops(self.raw, &mut out);
        assert(out@ =~= materialize(self.raw@, self.ops));
        out
    }
}

} // verus!
