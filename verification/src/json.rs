//! A JSON document parser.
//!
//! The scene description is JSON text; this module parses it into a tree of
//! [`Json`] values.  Number literals are kept as their raw token bytes (see
//! [`crate::numbers`] for how they become values); string literals are
//! decoded, escapes included.  The parser's contract is exact: it returns
//! precisely what the specification-level grammar functions say the text
//! means.

use vstd::prelude::*;

use crate::LoadError;

verus! {

/// A parsed JSON value.  Numbers hold their raw token bytes; strings hold
/// their decoded bytes.
pub enum Json {
    Null,
    Bool(bool),
    Num(Vec<u8>),
    Str(Vec<u8>),
    Arr(Vec<Json>),
    Obj(Vec<(Vec<u8>, Json)>),
}

/// The mathematical value of a [`Json`] tree.
pub ghost enum Jv {
    Null,
    Bool(bool),
    Num(Seq<u8>),
    Str(Seq<u8>),
    Arr(Seq<Jv>),
    Obj(Seq<(Seq<u8>, Jv)>),
}

impl Json {
    /// The value of this tree.
    pub open spec fn v(self) -> Jv
        decreases self,
    {
        match self {
            Json::Null => Jv::Null,
            Json::Bool(b) => Jv::Bool(b),
            Json::Num(t) => Jv::Num(t@),
            Json::Str(t) => Jv::Str(t@),
            Json::Arr(items) => Jv::Arr(jv_seq(items@)),
            Json::Obj(members) => Jv::Obj(jv_members(members@)),
        }
    }
}

/// The values of a sequence of trees.
pub open spec fn jv_seq(s: Seq<Json>) -> Seq<Jv>
    decreases s,
{
    if s.len() == 0 {
        Seq::empty()
    } else {
        jv_seq(s.drop_last()).push(s.last().v())
    }
}

/// The values of a sequence of members.
pub open spec fn jv_members(s: Seq<(Vec<u8>, Json)>) -> Seq<(Seq<u8>, Jv)>
    decreases s,
{
    if s.len() == 0 {
        Seq::empty()
    } else {
        jv_members(s.drop_last()).push((s.last().0@, s.last().1.v()))
    }
}

/// `jv_seq` is the elementwise value map.
pub proof fn lemma_jv_seq(s: Seq<Json>)
    ensures
        jv_seq(s).len() == s.len(),
        forall|i: int| 0 <= i < s.len() ==> jv_seq(s)[i] == (#[trigger] s[i]).v(),
    decreases s.len(),
{
    if s.len() > 0 {
        lemma_jv_seq(s.drop_last());
        assert forall|i: int| 0 <= i < s.len() implies jv_seq(s)[i] == (#[trigger] s[i]).v() by {
            if i < s.len() - 1 {
                assert(jv_seq(s)[i] == jv_seq(s.drop_last())[i]);
                assert(s.drop_last()[i] == s[i]);
            } else {
                assert(jv_seq(s)[i] == s.last().v());
            }
        }
    }
}

/// `jv_members` is the elementwise value map.
pub proof fn lemma_jv_members(s: Seq<(Vec<u8>, Json)>)
    ensures
        jv_members(s).len() == s.len(),
        forall|i: int|
            0 <= i < s.len() ==> jv_members(s)[i] == ((#[trigger] s[i]).0@, s[i].1.v()),
    decreases s.len(),
{
    if s.len() > 0 {
        lemma_jv_members(s.drop_last());
        assert forall|i: int|
            0 <= i < s.len() implies jv_members(s)[i] == ((#[trigger] s[i]).0@, s[i].1.v()) by {
            if i < s.len() - 1 {
                assert(jv_members(s)[i] == jv_members(s.drop_last())[i]);
                assert(s.drop_last()[i] == s[i]);
            } else {
                assert(jv_members(s)[i] == (s.last().0@, s.last().1.v()));
            }
        }
    }
}


pub open spec fn is_ws(b: u8) -> bool {
    b == 32 || b == 9 || b == 10 || b == 13
}

pub open spec fn is_digit_byte(b: u8) -> bool {
    48 <= b <= 57
}

/// The first position at or after `i` holding a non-whitespace byte (or the
/// end of the text).
pub open spec fn spec_skip_ws(s: Seq<u8>, i: int) -> int
    decreases s.len() - i,
        when 0 <= i
{
    if i < s.len() && is_ws(s[i]) {
        spec_skip_ws(s, i + 1)
    } else {
        i
    }
}

/// The first position at or after `i` holding a non-digit byte.
pub open spec fn spec_scan_digits(s: Seq<u8>, i: int) -> int
    decreases s.len() - i,
        when 0 <= i
{
    if i < s.len() && is_digit_byte(s[i]) {
        spec_scan_digits(s, i + 1)
    } else {
        i
    }
}

/// The end of the fraction part starting at `d`, if well-formed.
pub open spec fn spec_after_frac(s: Seq<u8>, d: int) -> Option<int> {
    if d < s.len() && s[d] == 46 {
        let fd = spec_scan_digits(s, d + 1);
        if fd == d + 1 {
            None
        } else {
            Some(fd)
        }
    } else {
        Some(d)
    }
}

/// The end of the exponent part starting at `f`, if well-formed.
pub open spec fn spec_after_exp(s: Seq<u8>, f: int) -> Option<int> {
    if f < s.len() && (s[f] == 101 || s[f] == 69) {
        let g = if f + 1 < s.len() && (s[f + 1] == 43 || s[f + 1] == 45) {
            f + 2
        } else {
            f + 1
        };
        let gd = spec_scan_digits(s, g);
        if gd == g {
            None
        } else {
            Some(gd)
        }
    } else {
        Some(f)
    }
}

/// The end of the number token starting at `i`: an optional minus sign, an
/// integer part (one digit, or several not starting with zero), an optional
/// fraction, an optional exponent.
pub open spec fn spec_scan_number(s: Seq<u8>, i: int) -> Option<int> {
    let p = if i < s.len() && s[i] == 45 {
        i + 1
    } else {
        i
    };
    let d = spec_scan_digits(s, p);
    if d == p || (s[p] == 48 && d > p + 1) {
        None
    } else {
        match spec_after_frac(s, d) {
            None => None,
            Some(f) => spec_after_exp(s, f),
        }
    }
}

/// The value of a hexadecimal digit byte, or a negative number.
pub open spec fn hex_val(b: u8) -> int {
    if 48 <= b <= 57 {
        b - 48
    } else if 65 <= b <= 70 {
        b - 55
    } else if 97 <= b <= 102 {
        b - 87
    } else {
        -1
    }
}

/// Four hexadecimal digits starting at `i`, or a negative number.
pub open spec fn spec_hex4(s: Seq<u8>, i: int) -> int {
    if i >= 0 && i + 4 <= s.len() && hex_val(s[i]) >= 0 && hex_val(s[i + 1]) >= 0 && hex_val(
        s[i + 2],
    ) >= 0 && hex_val(s[i + 3]) >= 0 {
        hex_val(s[i]) * 4096 + hex_val(s[i + 1]) * 256 + hex_val(s[i + 2]) * 16 + hex_val(s[i + 3])
    } else {
        -1
    }
}

/// The UTF-8 encoding of a code point.
pub open spec fn utf8_enc(cp: int) -> Seq<u8> {
    if cp < 0x80 {
        seq![cp as u8]
    } else if cp < 0x800 {
        seq![(0xC0 + cp / 64) as u8, (0x80 + cp % 64) as u8]
    } else if cp < 0x10000 {
        seq![(0xE0 + cp / 4096) as u8, (0x80 + (cp / 64) % 64) as u8, (0x80 + cp % 64) as u8]
    } else {
        seq![
            (0xF0 + cp / 262144) as u8,
            (0x80 + (cp / 4096) % 64) as u8,
            (0x80 + (cp / 64) % 64) as u8,
            (0x80 + cp % 64) as u8,
        ]
    }
}

/// The byte a single-character escape denotes.
pub open spec fn esc_byte(b: u8) -> Option<u8> {
    match b {
        34u8 => Some(34u8),
        92u8 => Some(92u8),
        47u8 => Some(47u8),
        98u8 => Some(8u8),
        102u8 => Some(12u8),
        110u8 => Some(10u8),
        114u8 => Some(13u8),
        116u8 => Some(9u8),
        _ => None,
    }
}

/// The decoded content of a string literal whose content starts at `i`
/// (just after the opening quote), with the position just after the closing
/// quote.  Escapes decode to their bytes; `\u` escapes decode to UTF-8,
/// surrogate pairs included; an unpaired surrogate is an error.
pub open spec fn spec_scan_string(s: Seq<u8>, i: int) -> Option<(Seq<u8>, int)>
    decreases s.len() - i,
        when 0 <= i
{
    if i >= s.len() {
        None
    } else if s[i] == 34 {
        Some((Seq::empty(), i + 1))
    } else if s[i] == 92 {
        if i + 1 >= s.len() {
            None
        } else if s[i + 1] == 117 {
            let cu = spec_hex4(s, i + 2);
            if cu < 0 {
                None
            } else if 0xD800 <= cu < 0xDC00 {
                if i + 8 <= s.len() && s[i + 6] == 92 && s[i + 7] == 117 {
                    let lo = spec_hex4(s, i + 8);
                    if 0xDC00 <= lo < 0xE000 {
                        match spec_scan_string(s, i + 12) {
                            Some((r, e)) => Some(
                                (utf8_enc(0x10000 + (cu - 0xD800) * 1024 + (lo - 0xDC00)) + r, e),
                            ),
                            None => None,
                        }
                    } else {
                        None
                    }
                } else {
                    None
                }
            } else if 0xDC00 <= cu < 0xE000 {
                None
            } else {
                match spec_scan_string(s, i + 6) {
                    Some((r, e)) => Some((utf8_enc(cu) + r, e)),
                    None => None,
                }
            }
        } else {
            match esc_byte(s[i + 1]) {
                Some(b) => match spec_scan_string(s, i + 2) {
                    Some((r, e)) => Some((seq![b] + r, e)),
                    None => None,
                },
                None => None,
            }
        }
    } else {
        match spec_scan_string(s, i + 1) {
            Some((r, e)) => Some((seq![s[i]] + r, e)),
            None => None,
        }
    }
}

pub proof fn lemma_scan_string_bounds(s: Seq<u8>, i: int)
    requires
        0 <= i,
    ensures
        spec_scan_string(s, i) is Some ==> i < (spec_scan_string(s, i)->0).1 <= s.len(),
    decreases s.len() - i,
{
    if i >= s.len() {
    } else if s[i] == 34 {
    } else if s[i] == 92 {
        if i + 1 < s.len() {
            if s[i + 1] == 117 {
                let cu = spec_hex4(s, i + 2);
                if cu < 0 {
                } else if 0xD800 <= cu < 0xDC00 {
                    if i + 8 <= s.len() && s[i + 6] == 92 && s[i + 7] == 117 {
                        let lo = spec_hex4(s, i + 8);
                        if 0xDC00 <= lo < 0xE000 {
                            lemma_scan_string_bounds(s, i + 12);
                        }
                    }
                } else if 0xDC00 <= cu < 0xE000 {
                } else {
                    lemma_scan_string_bounds(s, i + 6);
                }
            } else {
                lemma_scan_string_bounds(s, i + 2);
            }
        }
    } else {
        lemma_scan_string_bounds(s, i + 1);
    }
}

/// The value starting at or after `i` (whitespace allowed), with the
/// position just after it.
pub open spec fn spec_parse_value(s: Seq<u8>, i: int) -> Option<(Jv, int)>
    decreases s.len() - i, 1int,
        when 0 <= i
{
    let j = spec_skip_ws(s, i);
    if j < i || j >= s.len() {
        None
    } else if s[j] == 110 {
        if s.len() - j >= 4 && s[j + 1] == 117 && s[j + 2] == 108 && s[j + 3] == 108 {
            Some((Jv::Null, j + 4))
        } else {
            None
        }
    } else if s[j] == 116 {
        if s.len() - j >= 4 && s[j + 1] == 114 && s[j + 2] == 117 && s[j + 3] == 101 {
            Some((Jv::Bool(true), j + 4))
        } else {
            None
        }
    } else if s[j] == 102 {
        if s.len() - j >= 5 && s[j + 1] == 97 && s[j + 2] == 108 && s[j + 3] == 115 && s[j + 4]
            == 101 {
            Some((Jv::Bool(false), j + 5))
        } else {
            None
        }
    } else if s[j] == 34 {
        match spec_scan_string(s, j + 1) {
            Some((r, e)) => Some((Jv::Str(r), e)),
            None => None,
        }
    } else if s[j] == 45 || is_digit_byte(s[j]) {
        match spec_scan_number(s, j) {
            Some(e) => if e <= s.len() {
                Some((Jv::Num(s.subrange(j, e)), e))
            } else {
                None
            },
            None => None,
        }
    } else if s[j] == 91 {
        let k = spec_skip_ws(s, j + 1);
        if k < j + 1 {
            None
        } else if k < s.len() && s[k] == 93 {
            Some((Jv::Arr(Seq::empty()), k + 1))
        } else {
            match spec_parse_items(s, j + 1) {
                Some((items, e)) => Some((Jv::Arr(items), e)),
                None => None,
            }
        }
    } else if s[j] == 123 {
        let k = spec_skip_ws(s, j + 1);
        if k < j + 1 {
            None
        } else if k < s.len() && s[k] == 125 {
            Some((Jv::Obj(Seq::empty()), k + 1))
        } else {
            match spec_parse_members(s, j + 1) {
                Some((ms, e)) => Some((Jv::Obj(ms), e)),
                None => None,
            }
        }
    } else {
        None
    }
}

/// One or more comma-separated array elements starting at or after `i`,
/// with the position just after the closing bracket.
pub open spec fn spec_parse_items(s: Seq<u8>, i: int) -> Option<(Seq<Jv>, int)>
    decreases s.len() - i, 2int,
        when 0 <= i
{
    match spec_parse_value(s, i) {
        None => None,
        Some((v, ve)) => {
            if ve <= i || ve > s.len() {
                None
            } else {
                let k = spec_skip_ws(s, ve);
                if k < ve || k >= s.len() {
                    None
                } else if s[k] == 44 {
                    match spec_parse_items(s, k + 1) {
                        Some((rest, e)) => Some((seq![v] + rest, e)),
                        None => None,
                    }
                } else if s[k] == 93 {
                    Some((seq![v], k + 1))
                } else {
                    None
                }
            }
        },
    }
}

/// One or more comma-separated object members starting at or after `i`,
/// with the position just after the closing brace.
pub open spec fn spec_parse_members(s: Seq<u8>, i: int) -> Option<(Seq<(Seq<u8>, Jv)>, int)>
    decreases s.len() - i, 2int,
        when 0 <= i
{
    let j = spec_skip_ws(s, i);
    if j < i || j >= s.len() || s[j] != 34 {
        None
    } else {
        match spec_scan_string(s, j + 1) {
            None => None,
            Some((key, ke)) => {
                if ke <= j + 1 || ke > s.len() {
                    None
                } else {
                    let c = spec_skip_ws(s, ke);
                    if c < ke || c >= s.len() || s[c] != 58 {
                        None
                    } else {
                        match spec_parse_value(s, c + 1) {
                            None => None,
                            Some((v, ve)) => {
                                if ve <= c || ve > s.len() {
                                    None
                                } else {
                                    let k = spec_skip_ws(s, ve);
                                    if k < ve || k >= s.len() {
                                        None
                                    } else if s[k] == 44 {
                                        match spec_parse_members(s, k + 1) {
                                            Some((rest, e)) => Some((seq![(key, v)] + rest, e)),
                                            None => None,
                                        }
                                    } else if s[k] == 125 {
                                        Some((seq![(key, v)], k + 1))
                                    } else {
                                        None
                                    }
                                }
                            },
                        }
                    }
                }
            },
        }
    }
}

/// What a whole document means: one value, with nothing but whitespace
/// after it.
pub open spec fn spec_parse_json(s: Seq<u8>) -> Option<Jv> {
    match spec_parse_value(s, 0) {
        Some((v, e)) => if 0 <= e <= s.len() && spec_skip_ws(s, e) == s.len() {
            Some(v)
        } else {
            None
        },
        None => None,
    }
}


fn skip_ws(s: &[u8], i: usize) -> (r: usize)
    requires
        i <= s@.len(),
    ensures
        r == spec_skip_ws(s@, i as int),
        i <= r <= s@.len(),
{
    let mut cur: usize = i;
    loop
        invariant
            i <= cur <= s@.len(),
            spec_skip_ws(s@, i as int) == spec_skip_ws(s@, cur as int),
        decreases s@.len() - cur,
    {
        if cur >= s.len() {
            return cur;
        }
        let b: u8 = s[cur];
        if b != 32 && b != 9 && b != 10 && b != 13 {
            return cur;
        }
        cur = cur + 1;
    }
}

fn scan_digits(s: &[u8], i: usize) -> (r: usize)
    requires
        i <= s@.len(),
    ensures
        r == spec_scan_digits(s@, i as int),
        i <= r <= s@.len(),
{
    let mut cur: usize = i;
    loop
        invariant
            i <= cur <= s@.len(),
            spec_scan_digits(s@, i as int) == spec_scan_digits(s@, cur as int),
        decreases s@.len() - cur,
    {
        if cur >= s.len() {
            return cur;
        }
        let b: u8 = s[cur];
        if b < 48 || b > 57 {
            return cur;
        }
        cur = cur + 1;
    }
}

fn scan_number(s: &[u8], i: usize) -> (r: Option<usize>)
    requires
        i <= s@.len(),
    ensures
        match r {
            Some(e) => spec_scan_number(s@, i as int) == Some(e as int) && i < e <= s@.len(),
            None => spec_scan_number(s@, i as int) is None,
        },
{
    let p: usize = if i < s.len() && s[i] == 45 {
        i + 1
    } else {
        i
    };
    let d: usize = scan_digits(s, p);
    if d == p {
        return None;
    }
    if s[p] == 48 && d > p + 1 {
        return None;
    }
    let f: usize;
    if d < s.len() && s[d] == 46 {
        let fd: usize = scan_digits(s, d + 1);
        if fd == d + 1 {
            return None;
        }
        f = fd;
    } else {
        f = d;
    }
    if f < s.len() && (s[f] == 101 || s[f] == 69) {
        let g: usize = if f + 1 < s.len() && (s[f + 1] == 43 || s[f + 1] == 45) {
            f + 2
        } else {
            f + 1
        };
        let gd: usize = scan_digits(s, g);
        if gd == g {
            return None;
        }
        Some(gd)
    } else {
        Some(f)
    }
}

fn hex4(s: &[u8], i: usize) -> (r: Option<u32>)
    ensures
        match r {
            Some(v) => spec_hex4(s@, i as int) == v as int && v < 0x10000,
            None => spec_hex4(s@, i as int) < 0,
        },
{
    if s.len() < 4 || i > s.len() - 4 {
        return None;
    }
    let mut value: u32 = 0;
    let b0: u8 = s[i];
    let b1: u8 = s[i + 1];
    let b2: u8 = s[i + 2];
    let b3: u8 = s[i + 3];
    let v0: u32 = match hex_digit(b0) {
        Some(v) => v,
        None => {
            return None;
        },
    };
    let v1: u32 = match hex_digit(b1) {
        Some(v) => v,
        None => {
            return None;
        },
    };
    let v2: u32 = match hex_digit(b2) {
        Some(v) => v,
        None => {
            return None;
        },
    };
    let v3: u32 = match hex_digit(b3) {
        Some(v) => v,
        None => {
            return None;
        },
    };
    value = v0 * 4096 + v1 * 256 + v2 * 16 + v3;
    Some(value)
}

fn hex_digit(b: u8) -> (r: Option<u32>)
    ensures
        match r {
            Some(v) => hex_val(b) == v as int && v < 16,
            None => hex_val(b) < 0,
        },
{
    if 48 <= b && b <= 57 {
        Some((b - 48) as u32)
    } else if 65 <= b && b <= 70 {
        Some((b - 55) as u32)
    } else if 97 <= b && b <= 102 {
        Some((b - 87) as u32)
    } else {
        None
    }
}

/// Appends the UTF-8 encoding of a code point.
fn push_utf8(acc: &mut Vec<u8>, cp: u32)
    requires
        cp < 0x110000,
    ensures
        final(acc)@ == old(acc)@ + utf8_enc(cp as int),
{
    if cp < 0x80 {
        acc.push(cp as u8);
    } else if cp < 0x800 {
        acc.push((0xC0 + cp / 64) as u8);
        acc.push((0x80 + cp % 64) as u8);
    } else if cp < 0x10000 {
        acc.push((0xE0 + cp / 4096) as u8);
        acc.push((0x80 + (cp / 64) % 64) as u8);
        acc.push((0x80 + cp % 64) as u8);
    } else {
        acc.push((0xF0 + cp / 262144) as u8);
        acc.push((0x80 + (cp / 4096) % 64) as u8);
        acc.push((0x80 + (cp / 64) % 64) as u8);
        acc.push((0x80 + cp % 64) as u8);
    }
    proof {
        assert(acc@ =~= old(acc)@ + utf8_enc(cp as int));
    }
}

fn scan_string(s: &[u8], i: usize) -> (r: Option<(Vec<u8>, usize)>)
    requires
        i <= s@.len(),
    ensures
        match r {
            Some(ve) => spec_scan_string(s@, i as int) == Some((ve.0@, ve.1 as int)) && i < ve.1
                <= s@.len(),
            None => spec_scan_string(s@, i as int) is None,
        },
{
    let mut acc: Vec<u8> = Vec::new();
    let mut cur: usize = i;
    proof {
        assert(acc@ =~= Seq::<u8>::empty());
    }
    loop
        invariant
            i <= cur <= s@.len(),
            (match spec_scan_string(s@, cur as int) {
                Some((rest, e)) => spec_scan_string(s@, i as int) == Some((acc@ + rest, e)),
                None => spec_scan_string(s@, i as int) is None,
            }),
        decreases s@.len() - cur,
    {
        if cur >= s.len() {
            return None;
        }
        let b: u8 = s[cur];
        if b == 34 {
            proof {
                assert(acc@ + Seq::<u8>::empty() =~= acc@);
                lemma_scan_string_bounds(s@, i as int);
            }
            return Some((acc, cur + 1));
        } else if b == 92 {
            if cur + 1 >= s.len() {
                return None;
            }
            let e: u8 = s[cur + 1];
            if e == 117 {
                let cu: u32 = match hex4(s, cur + 2) {
                    Some(v) => v,
                    None => {
                        return None;
                    },
                };
                if 0xD800 <= cu && cu < 0xDC00 {
                    if s.len() < 8 || cur > s.len() - 8 {
                        return None;
                    }
                    if s[cur + 6] != 92 || s[cur + 7] != 117 {
                        return None;
                    }
                    let lo: u32 = match hex4(s, cur + 8) {
                        Some(v) => v,
                        None => {
                            return None;
                        },
                    };
                    if !(0xDC00 <= lo && lo < 0xE000) {
                        return None;
                    }
                    let cp: u32 = 0x10000 + (cu - 0xD800) * 1024 + (lo - 0xDC00);
                    let ghost acc0 = acc@;
                    push_utf8(&mut acc, cp);
                    proof {
                        if spec_scan_string(s@, cur + 12) is Some {
                            let (rest, e2) = spec_scan_string(s@, cur + 12)->0;
                            assert(acc@ + rest =~= acc0 + (utf8_enc(cp as int) + rest));
                        }
                    }
                    cur = cur + 12;
                } else if 0xDC00 <= cu && cu < 0xE000 {
                    return None;
                } else {
                    let ghost acc0 = acc@;
                    push_utf8(&mut acc, cu);
                    proof {
                        if spec_scan_string(s@, cur + 6) is Some {
                            let (rest, e2) = spec_scan_string(s@, cur + 6)->0;
                            assert(acc@ + rest =~= acc0 + (utf8_enc(cu as int) + rest));
                        }
                    }
                    cur = cur + 6;
                }
            } else {
                let decoded: u8 = match esc_exec(e) {
                    Some(d) => d,
                    None => {
                        return None;
                    },
                };
                let ghost acc0 = acc@;
                acc.push(decoded);
                proof {
                    if spec_scan_string(s@, cur + 2) is Some {
                        let (rest, e2) = spec_scan_string(s@, cur + 2)->0;
                        assert(acc@ + rest =~= acc0 + (seq![decoded] + rest));
                    }
                }
                cur = cur + 2;
            }
        } else {
            let ghost acc0 = acc@;
            acc.push(b);
            proof {
                if spec_scan_string(s@, cur + 1) is Some {
                    let (rest, e2) = spec_scan_string(s@, cur + 1)->0;
                    assert(acc@ + rest =~= acc0 + (seq![b] + rest));
                }
            }
            cur = cur + 1;
        }
    }
}

fn esc_exec(b: u8) -> (r: Option<u8>)
    ensures
        r == esc_byte(b),
{
    match b {
        34 => Some(34),
        92 => Some(92),
        47 => Some(47),
        98 => Some(8),
        102 => Some(12),
        110 => Some(10),
        114 => Some(13),
        116 => Some(9),
        _ => None,
    }
}

fn copy_range(s: &[u8], a: usize, b: usize) -> (r: Vec<u8>)
    requires
        a <= b <= s@.len(),
    ensures
        r@ == s@.subrange(a as int, b as int),
{
    let mut out: Vec<u8> = Vec::new();
    let mut cur: usize = a;
    while cur < b
        invariant
            a <= cur <= b <= s@.len(),
            out@ == s@.subrange(a as int, cur as int),
        decreases b - cur,
    {
        out.push(s[cur]);
        cur = cur + 1;
        proof {
            assert(out@ =~= s@.subrange(a as int, cur as int));
        }
    }
    proof {
        assert(out@ =~= s@.subrange(a as int, b as int));
    }
    out
}


/// Parses the value starting at or after `i`, returning it with the
/// position just after it.  The result is exactly what the grammar
/// functions say the text means.
pub fn parse_value(s: &[u8], i: usize) -> (r: Option<(Json, usize)>)
    requires
        i <= s@.len(),
    ensures
        match r {
            Some(je) => spec_parse_value(s@, i as int) == Some((je.0.v(), je.1 as int)) && i
                < je.1 <= s@.len(),
            None => spec_parse_value(s@, i as int) is None,
        },
    decreases s@.len() - i, 1int,
{
    let j: usize = skip_ws(s, i);
    if j >= s.len() {
        return None;
    }
    let b: u8 = s[j];
    if b == 110 {
        if s.len() - j >= 4 && s[j + 1] == 117 && s[j + 2] == 108 && s[j + 3] == 108 {
            Some((Json::Null, j + 4))
        } else {
            None
        }
    } else if b == 116 {
        if s.len() - j >= 4 && s[j + 1] == 114 && s[j + 2] == 117 && s[j + 3] == 101 {
            Some((Json::Bool(true), j + 4))
        } else {
            None
        }
    } else if b == 102 {
        if s.len() - j >= 5 && s[j + 1] == 97 && s[j + 2] == 108 && s[j + 3] == 115 && s[j + 4]
            == 101 {
            Some((Json::Bool(false), j + 5))
        } else {
            None
        }
    } else if b == 34 {
        match scan_string(s, j + 1) {
            Some(ve) => Some((Json::Str(ve.0), ve.1)),
            None => None,
        }
    } else if b == 45 || (48 <= b && b <= 57) {
        match scan_number(s, j) {
            Some(e) => {
                let token = copy_range(s, j, e);
                Some((Json::Num(token), e))
            },
            None => None,
        }
    } else if b == 91 {
        let k: usize = skip_ws(s, j + 1);
        if k < s.len() && s[k] == 93 {
            let items: Vec<Json> = Vec::new();
            proof {
                assert(jv_seq(items@) =~= Seq::<Jv>::empty());
            }
            return Some((Json::Arr(items), k + 1));
        }
        let mut items: Vec<Json> = Vec::new();
        let mut cur: usize = j + 1;
        proof {
            assert(jv_seq(items@) =~= Seq::<Jv>::empty());
        }
    
        loop
            invariant
                i < cur <= s@.len(),
                j == spec_skip_ws(s@, i as int),
                i <= j < s@.len(),
                s@[j as int] == 91,
                !(spec_skip_ws(s@, j + 1) < s@.len() && s@[spec_skip_ws(s@, j + 1)] == 93),
                spec_skip_ws(s@, j + 1) >= j + 1,
                (match spec_parse_items(s@, cur as int) {
                    Some((rest, e)) => spec_parse_items(s@, (j + 1) as int) == Some(
                        (jv_seq(items@) + rest, e),
                    ),
                    None => spec_parse_items(s@, (j + 1) as int) is None,
                }),
            decreases s@.len() - cur,
        {
            match parse_value(s, cur) {
                None => {
                    return None;
                },
                Some(ve) => {
                    let v: Json = ve.0;
                    let vend: usize = ve.1;
                    let k2: usize = skip_ws(s, vend);
                    if k2 >= s.len() {
                        return None;
                    }
                    let b2: u8 = s[k2];
                    if b2 == 44 {
                        let ghost items0 = items@;
                        items.push(v);
                        proof {
                            assert(items@.drop_last() =~= items0);
                            if spec_parse_items(s@, k2 + 1) is Some {
                                let (rest, e) = spec_parse_items(s@, k2 + 1)->0;
                                assert(jv_seq(items@) + rest =~= jv_seq(items0) + (seq![
                                    items@.last().v(),
                                ] + rest));
                            }
                        }
                        cur = k2 + 1;
                    } else if b2 == 93 {
                        let ghost items0 = items@;
                        items.push(v);
                        proof {
                            assert(items@.drop_last() =~= items0);
                            assert(jv_seq(items@) =~= jv_seq(items0) + seq![items@.last().v()]);
                        }
                        return Some((Json::Arr(items), k2 + 1));
                    } else {
                        return None;
                    }
                },
            }
        }
    } else if b == 123 {
        let k: usize = skip_ws(s, j + 1);
        if k < s.len() && s[k] == 125 {
            let members: Vec<(Vec<u8>, Json)> = Vec::new();
            proof {
                assert(jv_members(members@) =~= Seq::<(Seq<u8>, Jv)>::empty());
            }
            return Some((Json::Obj(members), k + 1));
        }
        let mut members: Vec<(Vec<u8>, Json)> = Vec::new();
        let mut cur: usize = j + 1;
        proof {
            assert(jv_members(members@) =~= Seq::<(Seq<u8>, Jv)>::empty());
        }
    
        loop
            invariant
                i < cur <= s@.len(),
                j == spec_skip_ws(s@, i as int),
                i <= j < s@.len(),
                s@[j as int] == 123,
                !(spec_skip_ws(s@, j + 1) < s@.len() && s@[spec_skip_ws(s@, j + 1)] == 125),
                spec_skip_ws(s@, j + 1) >= j + 1,
                (match spec_parse_members(s@, cur as int) {
                    Some((rest, e)) => spec_parse_members(s@, (j + 1) as int) == Some(
                        (jv_members(members@) + rest, e),
                    ),
                    None => spec_parse_members(s@, (j + 1) as int) is None,
                }),
            decreases s@.len() - cur,
        {
            let k3: usize = skip_ws(s, cur);
            if k3 >= s.len() {
                return None;
            }
            if s[k3] != 34 {
                return None;
            }
            let key: Vec<u8>;
            let key_end: usize;
            match scan_string(s, k3 + 1) {
                Some(ke) => {
                    key = ke.0;
                    key_end = ke.1;
                },
                None => {
                    return None;
                },
            }
            let c: usize = skip_ws(s, key_end);
            if c >= s.len() {
                return None;
            }
            if s[c] != 58 {
                return None;
            }
            match parse_value(s, c + 1) {
                None => {
                    return None;
                },
                Some(ve) => {
                    let v: Json = ve.0;
                    let vend: usize = ve.1;
                    let k2: usize = skip_ws(s, vend);
                    if k2 >= s.len() {
                        return None;
                    }
                    let b2: u8 = s[k2];
                    if b2 == 44 {
                        let ghost members0 = members@;
                        members.push((key, v));
                        proof {
                            assert(members@.drop_last() =~= members0);
                            if spec_parse_members(s@, k2 + 1) is Some {
                                let (rest, e) = spec_parse_members(s@, k2 + 1)->0;
                                assert(jv_members(members@) + rest =~= jv_members(members0)
                                    + (seq![(members@.last().0@, members@.last().1.v())] + rest));
                            }
                        }
                        cur = k2 + 1;
                    } else if b2 == 125 {
                        let ghost members0 = members@;
                        members.push((key, v));
                        proof {
                            assert(members@.drop_last() =~= members0);
                            assert(jv_members(members@) =~= jv_members(members0) + seq![
                                (members@.last().0@, members@.last().1.v()),
                            ]);
                        }
                        return Some((Json::Obj(members), k2 + 1));
                    } else {
                        return None;
                    }
                },
            }
        }
    } else {
        None
    }
}

/// Parses a whole document: one value with nothing but whitespace after
/// it.
pub fn parse_json(s: &[u8]) -> (r: Result<Json, LoadError>)
    ensures
        match r {
            Ok(j) => spec_parse_json(s@) == Some(j.v()),
            Err(e) => spec_parse_json(s@) is None && e == LoadError::JsonSyntax,
        },
{
    match parse_value(s, 0) {
        Some(ve) => {
            let t: usize = skip_ws(s, ve.1);
            if t == s.len() {
                Ok(ve.0)
            } else {
                Err(LoadError::JsonSyntax)
            }
        },
        None => Err(LoadError::JsonSyntax),
    }
}

/// The value of an object's member, the last occurrence of the key
/// winning; nothing for other kinds of value.
pub open spec fn spec_obj_lookup(ms: Seq<(Seq<u8>, Jv)>, key: Seq<u8>) -> Option<Jv>
    decreases ms.len(),
{
    if ms.len() == 0 {
        None
    } else if ms.last().0 == key {
        Some(ms.last().1)
    } else {
        spec_obj_lookup(ms.drop_last(), key)
    }
}

pub open spec fn spec_get(v: Jv, key: Seq<u8>) -> Option<Jv> {
    match v {
        Jv::Obj(ms) => spec_obj_lookup(ms, key),
        _ => None,
    }
}

/// Byte-for-byte equality of a byte vector and a byte slice.
pub fn bytes_eq_pub(a: &Vec<u8>, b: &[u8]) -> (r: bool)
    ensures
        r <==> a@ == b@,
{
    if a.len() != b.len() {
        return false;
    }
    let mut i: usize = 0;
    while i < a.len()
        invariant
            0 <= i <= a@.len(),
            a@.len() == b@.len(),
            forall|k: int| 0 <= k < i ==> a@[k] == b@[k],
        decreases a@.len() - i,
    {
        if a[i] != b[i] {
            return false;
        }
        i = i + 1;
    }
    proof {
        assert(a@ =~= b@);
    }
    true
}

impl Json {
    /// Looks a key up in an object value; with duplicate keys the last
    /// member wins, matching an object model that keeps the latest
    /// insertion.
    pub fn get<'a>(&'a self, key: &[u8]) -> (r: Option<&'a Json>)
        ensures
            match r {
                Some(x) => spec_get(self.v(), key@) == Some(x.v()),
                None => spec_get(self.v(), key@) is None,
            },
    {
        match self {
            Json::Obj(ms) => {
                let ghost full = jv_members(ms@);
                let mut idx: usize = ms.len();
                proof {
                    lemma_jv_members(ms@);
                    assert(full.subrange(0, full.len() as int) =~= full);
                }
                while idx > 0
                    invariant
                        0 <= idx <= ms@.len(),
                        full == jv_members(ms@),
                        self.v() == Jv::Obj(full),
                        full.len() == ms@.len(),
                        forall|k: int|
                            0 <= k < ms@.len() ==> full[k] == ((#[trigger] ms@[k]).0@, ms@[
                                k
                            ].1.v()),
                        spec_obj_lookup(full, key@) == spec_obj_lookup(
                            full.subrange(0, idx as int),
                            key@,
                        ),
                    decreases idx,
                {
                    proof {
                        assert(full.subrange(0, idx as int).last() == full[idx - 1]);
                        assert(full.subrange(0, idx as int).drop_last() =~= full.subrange(
                            0,
                            idx as int - 1,
                        ));
                    }
                    if bytes_eq_pub(&ms[idx - 1].0, key) {
                        proof {
                            assert(full.subrange(0, idx as int).last().0 == key@);
                            assert(spec_obj_lookup(full.subrange(0, idx as int), key@) == Some(
                                full[idx - 1].1,
                            ));
                            assert(full[idx - 1].1 == ms@[idx - 1].1.v());
                        }
                        return Some(&ms[idx - 1].1);
                    }
                    idx = idx - 1;
                }
                proof {
                    assert(full.subrange(0, 0) =~= Seq::<(Seq<u8>, Jv)>::empty());
                }
                None
            },
            _ => None,
        }
    }
}

} // verus!
