//! Normalizations of template text, stated over character sequences.

use vstd::prelude::*;

verus! {

pub open spec fn is_ws(c: char) -> bool {
    c == ' ' || c == '\t' || c == '\n' || c == '\r' || c == '\x0c'
}

/// ASCII letters, digits and `_`.
pub open spec fn is_word(c: char) -> bool {
    ('a' <= c && c <= 'z') || ('A' <= c && c <= 'Z') || ('0' <= c && c <= '9') || c == '_'
}

/// The upper-case form of an ASCII lower-case letter; other characters stay.
pub open spec fn upper(c: char) -> char {
    if 'a' <= c && c <= 'z' {
        ((c as u8) - 32u8) as char
    } else {
        c
    }
}

fn to_upper(c: char) -> (r: char)
    ensures
        r == upper(c),
{
    if 'a' <= c && c <= 'z' {
        ((c as u8) - 32u8) as char
    } else {
        c
    }
}

/// Whether `s` begins with `p`.
pub open spec fn starts_with(s: Seq<char>, p: Seq<char>) -> bool {
    p.len() <= s.len() && s.subrange(0, p.len() as int) == p
}

pub open spec fn amp_ref() -> Seq<char> {
    seq!['&', 'a', 'm', 'p', ';']
}

pub open spec fn lt_ref() -> Seq<char> {
    seq!['&', 'l', 't', ';']
}

pub open spec fn gt_ref() -> Seq<char> {
    seq!['&', 'g', 't', ';']
}

pub open spec fn quot_ref() -> Seq<char> {
    seq!['&', 'q', 'u', 'o', 't', ';']
}

/// Whether `c` is a digit in base 16 (`hex`) or 10.
pub open spec fn is_digit_in(c: char, hex: bool) -> bool {
    ('0' <= c && c <= '9') || (hex && (('a' <= c && c <= 'f') || ('A' <= c && c <= 'F')))
}

pub open spec fn digit_value(c: char) -> nat {
    if '0' <= c && c <= '9' {
        (c as nat - '0' as nat) as nat
    } else if 'a' <= c && c <= 'f' {
        (c as nat - 'a' as nat + 10) as nat
    } else {
        (c as nat - 'A' as nat + 10) as nat
    }
}

pub open spec fn base(hex: bool) -> nat {
    if hex {
        16
    } else {
        10
    }
}

/// Reads the digits of a numeric reference from `t[p + k]` on, with `k`
/// digits read so far giving `v`: the final value and digit count, or
/// `None` once the value passes `0x10FFFF`. At most seven digits are read.
pub open spec fn scan_digits(t: Seq<char>, p: int, hex: bool, k: nat, v: nat) -> Option<(nat, nat)>
    decreases 7 - k,
{
    if k < 7 && p + k < t.len() && is_digit_in(t[p + k], hex) {
        let nv = v * base(hex) + digit_value(t[p + k]);
        if nv > 0x10FFFF {
            None
        } else {
            scan_digits(t, p, hex, k + 1, nv)
        }
    } else {
        Some((v, k))
    }
}

/// Whether `v` is the code of a character other than NUL.
pub open spec fn is_ref_code(v: nat) -> bool {
    0 < v && v <= 0x10FFFF && !(0xD800 <= v && v <= 0xDFFF)
}

/// A numeric reference at the start of `t` (`&#` then one to six decimal
/// digits, or `&#x` / `&#X` then one to six hex digits, then `;`) naming a
/// character other than NUL: that character's code and the reference's length.
pub open spec fn numeric_ref(t: Seq<char>) -> Option<(u32, nat)> {
    if t.len() >= 2 && t[0] == '&' && t[1] == '#' {
        let hex = t.len() > 2 && (t[2] == 'x' || t[2] == 'X');
        let p: int = if hex {
            3
        } else {
            2
        };
        match scan_digits(t, p, hex, 0, 0) {
            Some((v, n)) => if 1 <= n && n <= 6 && p + n < t.len() && t[p + n] == ';' && is_ref_code(v) {
                Some((v as u32, (p + n + 1) as nat))
            } else {
                None
            },
            None => None,
        }
    } else {
        None
    }
}

/// `s` with the references `&amp;`, `&lt;`, `&gt;`, `&quot;` and the numeric
/// references of `numeric_ref` replaced by the characters they stand for,
/// left to right.
pub open spec fn decode_refs(s: Seq<char>) -> Seq<char>
    decreases s.len(),
{
    if s.len() == 0 {
        s
    } else if starts_with(s, amp_ref()) {
        seq!['&'] + decode_refs(s.skip(5))
    } else if starts_with(s, lt_ref()) {
        seq!['<'] + decode_refs(s.skip(4))
    } else if starts_with(s, gt_ref()) {
        seq!['>'] + decode_refs(s.skip(4))
    } else if starts_with(s, quot_ref()) {
        seq!['"'] + decode_refs(s.skip(6))
    } else if numeric_ref(s) is Some {
        seq![numeric_ref(s).unwrap().0 as char] + decode_refs(s.skip(numeric_ref(s).unwrap().1 as int))
    } else {
        seq![s[0]] + decode_refs(s.skip(1))
    }
}

/// `s` with each run of whitespace replaced by one space.
pub open spec fn compress(s: Seq<char>) -> Seq<char>
    decreases s.len(),
{
    if s.len() == 0 {
        s
    } else {
        let init = compress(s.drop_last());
        if !is_ws(s.last()) {
            init.push(s.last())
        } else if s.len() >= 2 && is_ws(s[s.len() - 2]) {
            init
        } else {
            init.push(' ')
        }
    }
}

/// `s` with each `-` that precedes a word character dropped and that
/// character upper-cased: `foo-bar` becomes `fooBar`.
pub open spec fn camel(s: Seq<char>) -> Seq<char>
    decreases s.len(),
{
    if s.len() == 0 {
        s
    } else if s.len() >= 2 && s[0] == '-' && is_word(s[1]) {
        seq![upper(s[1])] + camel(s.skip(2))
    } else {
        seq![s[0]] + camel(s.skip(1))
    }
}

/// `s` with its first character upper-cased.
pub open spec fn capitalized(s: Seq<char>) -> Seq<char> {
    if s.len() == 0 {
        s
    } else {
        s.update(0, upper(s[0]))
    }
}

/// The handler key for event name `s`: `on` and `s` capitalized; empty for
/// an empty name.
pub open spec fn handler_key(s: Seq<char>) -> Seq<char> {
    if s.len() == 0 {
        s
    } else {
        seq!['o', 'n'] + capitalized(s)
    }
}

/// A character kept in an asset id; any other becomes `_`.
pub open spec fn asset_char(c: char) -> char {
    if is_word(c) || c == '$' {
        c
    } else {
        '_'
    }
}

pub open spec fn asset_id(s: Seq<char>) -> Seq<char> {
    s.map_values(|c: char| asset_char(c))
}

pub open spec fn self_suffix() -> Seq<char> {
    seq!['_', '_', 's', 'e', 'l', 'f']
}

fn starts_at(s: &Vec<char>, i: usize, p: &[char]) -> (r: bool)
    requires
        i <= s@.len(),
    ensures
        r == starts_with(s@.skip(i as int), p@),
{
    let n = s.len();
    if p.len() > n - i {
        return false;
    }
    let mut k: usize = 0;
    while k < p.len()
        invariant
            n == s@.len(),
            i <= s@.len(),
            p@.len() <= s@.len() - i,
            k <= p@.len(),
            forall|j: int| 0 <= j < k ==> s@[i + j] == p@[j],
        decreases p@.len() - k,
    {
        if s[i + k] != p[k] {
            assert(s@.skip(i as int).subrange(0, p@.len() as int)[k as int] != p@[k as int]);
            return false;
        }
        k = k + 1;
    }
    assert(s@.skip(i as int).subrange(0, p@.len() as int) =~= p@);
    true
}

/// Relies on `char::from_u32`: the character with code `v`, if `v` is a
/// Unicode scalar value.
#[verifier::external_body]
fn char_from_code(v: u32) -> (r: Option<char>)
    ensures
        r is Some <==> (v < 0xD800 || (0xE000 <= v && v <= 0x10FFFF)),
        r matches Some(c) ==> c as u32 == v,
{
    char::from_u32(v)
}

fn is_digit_char(c: char, hex: bool) -> (r: bool)
    ensures
        r == is_digit_in(c, hex),
{
    ('0' <= c && c <= '9') || (hex && (('a' <= c && c <= 'f') || ('A' <= c && c <= 'F')))
}

fn digit_of(c: char) -> (r: u32)
    requires
        is_digit_in(c, true),
    ensures
        r == digit_value(c),
        r < 16,
{
    if '0' <= c && c <= '9' {
        (c as u32) - ('0' as u32)
    } else if 'a' <= c && c <= 'f' {
        (c as u32) - ('a' as u32) + 10
    } else {
        (c as u32) - ('A' as u32) + 10
    }
}

/// The numeric reference at `s[i..]`, if any: the character and the length.
fn numeric_ref_at(s: &Vec<char>, i: usize) -> (r: Option<(char, usize)>)
    requires
        i < s@.len(),
    ensures
        match numeric_ref(s@.skip(i as int)) {
            None => r is None,
            Some((v, len)) => r == Some((v as char, len as usize)) && len >= 1 && i + len <= s@.len(),
        },
{
    let ghost t = s@.skip(i as int);
    let n = s.len();
    if !(i + 1 < n && s[i] == '&' && s[i + 1] == '#') {
        return None;
    }
    let hex = i + 2 < n && (s[i + 2] == 'x' || s[i + 2] == 'X');
    let p: usize = if hex {
        3
    } else {
        2
    };
    let b: u32 = if hex {
        16
    } else {
        10
    };
    let mut k: usize = 0;
    let mut value: u32 = 0;
    while k < 7 && k < n - i - p && is_digit_char(s[i + p + k], hex)
        invariant
            n == s@.len(),
            i + p <= n,
            t == s@.skip(i as int),
            t.len() >= 2 && t[0] == '&' && t[1] == '#',
            hex == (t.len() > 2 && (t[2] == 'x' || t[2] == 'X')),
            p == (if hex { 3int } else { 2int }),
            b == base(hex),
            k <= 7,
            value <= 0x10FFFF,
            scan_digits(t, p as int, hex, 0, 0) == scan_digits(t, p as int, hex, k as nat, value as nat),
        decreases 7 - k,
    {
        let c = s[i + p + k];
        assert(t[p + k] == c);
        let d = digit_of(c);
        assert(value * b <= 0x10FFFF * 16) by (nonlinear_arith)
            requires
                value <= 0x10FFFF,
                b <= 16,
        ;
        let nv = value * b + d;
        if nv > 0x10FFFF {
            return None;
        }
        value = nv;
        k = k + 1;
    }
    assert(scan_digits(t, p as int, hex, k as nat, value as nat) == Some((value as nat, k as nat)));
    if k >= 1 && k <= 6 && k < n - i - p && s[i + p + k] == ';' && value > 0 {
        assert(t[p + k] == s@[i + p + k]);
        match char_from_code(value) {
            Some(c) => {
                proof {
                    vstd::utf8::char_u32_cast(c, value);
                }
                Some((c, p + k + 1))
            },
            None => None,
        }
    } else {
        if k < n - i - p {
            assert(t[p + k] == s@[i + p + k]);
        }
        None
    }
}

/// Decodes the references that `decode_refs` names.
pub fn decode_text(s: &Vec<char>) -> (r: Vec<char>)
    ensures
        r@ == decode_refs(s@),
{
    let mut out: Vec<char> = Vec::new();
    let mut i: usize = 0;
    assert(s@.skip(0) =~= s@);
    while i < s.len()
        invariant
            i <= s@.len(),
            decode_refs(s@) == out@ + decode_refs(s@.skip(i as int)),
        decreases s@.len() - i,
    {
        let ghost rest = s@.skip(i as int);
        let ghost before = out@;
        let n: usize;
        if starts_at(s, i, &['&', 'a', 'm', 'p', ';']) {
            assert(rest.subrange(0, 5) == amp_ref());
            out.push('&');
            n = 5;
        } else if starts_at(s, i, &['&', 'l', 't', ';']) {
            assert(rest.subrange(0, 4) == lt_ref());
            out.push('<');
            n = 4;
        } else if starts_at(s, i, &['&', 'g', 't', ';']) {
            assert(rest.subrange(0, 4) == gt_ref());
            out.push('>');
            n = 4;
        } else if starts_at(s, i, &['&', 'q', 'u', 'o', 't', ';']) {
            assert(rest.subrange(0, 6) == quot_ref());
            out.push('"');
            n = 6;
        } else {
            match numeric_ref_at(s, i) {
                Some((c, len)) => {
                    out.push(c);
                    n = len;
                },
                None => {
                    out.push(s[i]);
                    n = 1;
                },
            }
        }
        proof {
            assert(rest.skip(n as int) =~= s@.skip(i + n));
            let d = decode_refs(rest.skip(n as int));
            assert(decode_refs(rest) == seq![out@.last()] + d);
            assert(out@ =~= before + seq![out@.last()]);
            assert(before + (seq![out@.last()] + d) =~= out@ + d);
        }
        i = i + n;
    }
    assert(s@.skip(i as int) =~= Seq::<char>::empty());
    assert(out@ + Seq::<char>::empty() =~= out@);
    out
}

fn is_ws_char(c: char) -> (r: bool)
    ensures
        r == is_ws(c),
{
    c == ' ' || c == '\t' || c == '\n' || c == '\r' || c == '\x0c'
}

fn is_word_char(c: char) -> (r: bool)
    ensures
        r == is_word(c),
{
    ('a' <= c && c <= 'z') || ('A' <= c && c <= 'Z') || ('0' <= c && c <= '9') || c == '_'
}

/// Replaces each run of whitespace by one space.
pub fn compress_text(s: &Vec<char>) -> (r: Vec<char>)
    ensures
        r@ == compress(s@),
{
    let mut out: Vec<char> = Vec::new();
    let mut i: usize = 0;
    assert(s@.subrange(0, 0) =~= Seq::<char>::empty());
    while i < s.len()
        invariant
            i <= s@.len(),
            out@ == compress(s@.subrange(0, i as int)),
        decreases s@.len() - i,
    {
        let c = s[i];
        assert(s@.subrange(0, i + 1).drop_last() =~= s@.subrange(0, i as int));
        if !is_ws_char(c) {
            out.push(c);
        } else if i >= 1 && is_ws_char(s[i - 1]) {
        } else {
            out.push(' ');
        }
        i = i + 1;
    }
    assert(s@.subrange(0, i as int) =~= s@);
    out
}

/// Camel-cases `s` as `camel` states.
pub fn camelize_text(s: &Vec<char>) -> (r: Vec<char>)
    ensures
        r@ == camel(s@),
{
    let mut out: Vec<char> = Vec::new();
    let mut i: usize = 0;
    assert(s@.skip(0) =~= s@);
    while i < s.len()
        invariant
            i <= s@.len(),
            camel(s@) == out@ + camel(s@.skip(i as int)),
        decreases s@.len() - i,
    {
        let ghost rest = s@.skip(i as int);
        let ghost before = out@;
        let n: usize;
        if i + 1 < s.len() && s[i] == '-' && is_word_char(s[i + 1]) {
            out.push(to_upper(s[i + 1]));
            n = 2;
        } else {
            out.push(s[i]);
            n = 1;
        }
        proof {
            assert(rest.skip(n as int) =~= s@.skip(i + n));
            let d = camel(rest.skip(n as int));
            assert(camel(rest) == seq![out@.last()] + d);
            assert(out@ =~= before + seq![out@.last()]);
            assert(before + (seq![out@.last()] + d) =~= out@ + d);
        }
        i = i + n;
    }
    assert(s@.skip(i as int) =~= Seq::<char>::empty());
    assert(out@ + Seq::<char>::empty() =~= out@);
    out
}

/// Upper-cases the first character.
pub fn capitalize_text(s: &Vec<char>) -> (r: Vec<char>)
    ensures
        r@ == capitalized(s@),
{
    let mut out = s.clone();
    if out.len() > 0 {
        let c = to_upper(out[0]);
        out.set(0, c);
    }
    out
}

/// The handler key for event name `s`.
pub fn handler_key_text(s: &Vec<char>) -> (r: Vec<char>)
    ensures
        r@ == handler_key(s@),
{
    if s.len() == 0 {
        return Vec::new();
    }
    let cap = capitalize_text(s);
    let mut out: Vec<char> = vec!['o', 'n'];
    let mut i: usize = 0;
    while i < cap.len()
        invariant
            i <= cap@.len(),
            out@ == seq!['o', 'n'] + cap@.subrange(0, i as int),
        decreases cap@.len() - i,
    {
        out.push(cap[i]);
        i = i + 1;
        assert(out@ =~= seq!['o', 'n'] + cap@.subrange(0, i as int));
    }
    assert(cap@.subrange(0, i as int) =~= cap@);
    out
}

/// Replaces each character that cannot stand in an asset id by `_`.
pub fn asset_id_text(s: &Vec<char>) -> (r: Vec<char>)
    ensures
        r@ == asset_id(s@),
{
    let mut out: Vec<char> = Vec::new();
    let mut i: usize = 0;
    while i < s.len()
        invariant
            i <= s@.len(),
            out@ =~= asset_id(s@.subrange(0, i as int)),
        decreases s@.len() - i,
    {
        let c = s[i];
        if is_word_char(c) || c == '$' {
            out.push(c);
        } else {
            out.push('_');
        }
        i = i + 1;
        assert(out@ =~= asset_id(s@.subrange(0, i as int)));
    }
    assert(s@.subrange(0, i as int) =~= s@);
    out
}

/// Appends `__self`.
pub fn suffix_self_text(s: &Vec<char>) -> (r: Vec<char>)
    ensures
        r@ == s@ + self_suffix(),
{
    let mut out = s.clone();
    out.push('_');
    out.push('_');
    out.push('s');
    out.push('e');
    out.push('l');
    out.push('f');
    assert(out@ =~= s@ + self_suffix());
    out
}

} // verus!
