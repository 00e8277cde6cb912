//! Decoding raw registry values: UTF-16 strings, multi-strings, property-store strings and
//! the wave format of an endpoint.
use vstd::prelude::*;
use vstd::utf8::{decode_utf8, valid_utf8};
use crate::text::{push_str, string_of};

verus! {

/// The type of a registry value, as the registry reports it.
pub enum ValueType {
    NoType,
    Sz,
    ExpandSz,
    Binary,
    Dword,
    DwordBigEndian,
    Link,
    MultiSz,
    ResourceList,
    FullResourceDescriptor,
    ResourceRequirementsList,
    Qword,
}

/// A registry value as read: its type and its bytes.
pub struct RawValue {
    pub vtype: ValueType,
    pub bytes: Vec<u8>,
}

/// The little-endian 16-bit number of two bytes.
pub open spec fn le16(lo: u8, hi: u8) -> u16 {
    (lo as int + 256 * hi as int) as u16
}

/// The little-endian 32-bit number of four bytes.
pub open spec fn le32(b0: u8, b1: u8, b2: u8, b3: u8) -> u32 {
    (b0 as int + 256 * b1 as int + 65536 * b2 as int + 16777216 * b3 as int) as u32
}

/// The 16-bit units of a byte string, little-endian, a trailing odd byte ignored.
pub open spec fn units_le(data: Seq<u8>) -> Seq<u16> {
    Seq::new(data.len() / 2, |i: int| le16(data[2 * i], data[2 * i + 1]))
}

/// The units before the first NUL unit (all of them if none is NUL).
pub open spec fn before_nul(u: Seq<u16>) -> Seq<u16>
    decreases u.len(),
{
    if u.len() == 0 || u[0] == 0 {
        seq![]
    } else {
        seq![u[0]] + before_nul(u.drop_first())
    }
}

/// UTF-16 decoding: `None` where a surrogate is unpaired.
pub open spec fn utf16_decode(u: Seq<u16>) -> Option<Seq<char>>
    decreases u.len(),
{
    if u.len() == 0 {
        Some(seq![])
    } else if u[0] < 0xD800 || u[0] > 0xDFFF {
        match utf16_decode(u.drop_first()) {
            Some(rest) => Some(seq![u[0] as char] + rest),
            None => None,
        }
    } else if u[0] <= 0xDBFF && u.len() >= 2 && 0xDC00 <= u[1] <= 0xDFFF {
        match utf16_decode(u.skip(2)) {
            Some(rest) => Some(
                seq![(0x10000 + (u[0] - 0xD800) * 0x400 + (u[1] - 0xDC00)) as char] + rest,
            ),
            None => None,
        }
    } else {
        None
    }
}

/// `String::from_utf16`: the string whose UTF-16 encoding is `units`, or `None` when
/// `units` holds an unpaired surrogate.
#[verifier::external_body]
fn from_utf16(units: &[u16]) -> (r: Option<String>)
    ensures
        match r {
            Some(s) => utf16_decode(units@) == Some(s@),
            None => utf16_decode(units@) is None,
        },
{
    String::from_utf16(units).ok()
}

/// `String::from_utf8`: the string whose UTF-8 encoding is `bytes`, or `None` when
/// `bytes` is not valid UTF-8.
#[verifier::external_body]
fn from_utf8(bytes: Vec<u8>) -> (r: Option<String>)
    ensures
        match r {
            Some(s) => valid_utf8(bytes@) && s@ == decode_utf8(bytes@),
            None => !valid_utf8(bytes@),
        },
{
    String::from_utf8(bytes).ok()
}

fn le16_at(data: &[u8], i: usize) -> (r: u16)
    requires
        i + 1 < data.len(),
    ensures
        r == le16(data@[i as int], data@[i + 1]),
{
    data[i] as u16 + (data[i + 1] as u16) * 256
}

fn le32_at(data: &[u8], i: usize) -> (r: u32)
    requires
        i + 3 < data.len(),
    ensures
        r == le32(data@[i as int], data@[i + 1], data@[i + 2], data@[i + 3]),
{
    data[i] as u32 + (data[i + 1] as u32) * 256 + (data[i + 2] as u32) * 65536 + (data[i + 3]
        as u32) * 16777216
}

/// What a `REG_SZ` value's bytes read as: the UTF-16 text before the first NUL, when the
/// value has at least four bytes and that text is not empty.
pub open spec fn utf16_bytes_spec(data: Seq<u8>) -> Option<Seq<char>> {
    if data.len() < 4 {
        None
    } else {
        let u = before_nul(units_le(data));
        if u.len() == 0 {
            None
        } else {
            utf16_decode(u)
        }
    }
}

proof fn lemma_before_nul_step(u: Seq<u16>, k: int)
    requires
        0 <= k < u.len(),
        forall|j: int| 0 <= j < k ==> u[j] != 0,
    ensures
        u[k] != 0 ==> before_nul(u.skip(k)) == seq![u[k]] + before_nul(u.skip(k + 1)),
        u[k] == 0 ==> before_nul(u.skip(k)) == Seq::<u16>::empty(),
{
    assert(u.skip(k)[0] == u[k]);
    assert(u.skip(k).drop_first() =~= u.skip(k + 1));
}

proof fn lemma_before_nul_prefix(u: Seq<u16>, k: int)
    requires
        0 <= k <= u.len(),
        forall|j: int| 0 <= j < k ==> u[j] != 0,
    ensures
        before_nul(u) == u.take(k) + before_nul(u.skip(k)),
    decreases k,
{
    if k == 0 {
        assert(u.skip(0) =~= u);
        assert(u.take(0) + before_nul(u) =~= before_nul(u));
    } else {
        lemma_before_nul_prefix(u, k - 1);
        lemma_before_nul_step(u, k - 1);
        assert(u.take(k) =~= u.take(k - 1) + seq![u[k - 1]]);
        assert(u.take(k - 1) + (seq![u[k - 1]] + before_nul(u.skip(k))) =~= u.take(k)
            + before_nul(u.skip(k)));
    }
}

/// The text of a `REG_SZ` / `REG_EXPAND_SZ` value: UTF-16LE up to the first NUL.
pub fn parse_utf16_bytes(data: &[u8]) -> (r: Option<String>)
    ensures
        match r {
            Some(s) => utf16_bytes_spec(data@) == Some(s@),
            None => utf16_bytes_spec(data@) is None,
        },
{
    if data.len() < 4 {
        return None;
    }
    let ghost u = units_le(data@);
    let mut chars: Vec<u16> = Vec::new();
    let mut i: usize = 0;
    let mut k: usize = 0;
    while i + 1 < data.len()
        invariant
            u == units_le(data@),
            i == 2 * k,
            k <= u.len(),
            chars@ == u.take(k as int),
            forall|j: int| 0 <= j < k ==> u[j] != 0,
        ensures
            k == u.len() || before_nul(u) == chars@,
        decreases data.len() - i,
    {
        let c = le16_at(data, i);
        assert(c == u[k as int]);
        if c == 0 {
            proof {
                lemma_before_nul_prefix(u, k as int);
                lemma_before_nul_step(u, k as int);
                assert(chars@ + Seq::<u16>::empty() =~= chars@);
            }
            break;
        }
        chars.push(c);
        i += 2;
        k += 1;
        assert(chars@ =~= u.take(k as int));
    }
    proof {
        if before_nul(u) != chars@ {
            lemma_before_nul_prefix(u, k as int);
            assert(u.skip(k as int) =~= Seq::<u16>::empty());
            assert(u.take(k as int) =~= u);
            assert(before_nul(u) =~= u + Seq::<u16>::empty());
        }
    }
    if chars.len() == 0 {
        return None;
    }
    from_utf16(chars.as_slice())
}

/// The scan of a `REG_MULTI_SZ` value from unit `k`: the NUL-terminated pieces, each
/// decoded (pieces that are empty or not valid UTF-16 dropped), up to a double NUL; a
/// last piece with no NUL after it is dropped.
pub open spec fn multi_scan(u: Seq<u16>, k: int, cur: Seq<u16>, acc: Seq<Seq<char>>) -> Seq<
    Seq<char>,
>
    decreases u.len() - k,
{
    if k < 0 || k >= u.len() {
        acc
    } else if u[k] == 0 {
        let acc2 = if cur.len() > 0 {
            match utf16_decode(cur) {
                Some(s) => acc.push(s),
                None => acc,
            }
        } else {
            acc
        };
        if k + 1 < u.len() && u[k + 1] == 0 {
            acc2
        } else {
            multi_scan(u, k + 1, seq![], acc2)
        }
    } else {
        multi_scan(u, k + 1, cur.push(u[k]), acc)
    }
}

/// Pieces joined with `" | "` between them.
pub open spec fn join_bar(ps: Seq<Seq<char>>) -> Seq<char>
    decreases ps.len(),
{
    if ps.len() == 0 {
        seq![]
    } else if ps.len() == 1 {
        ps[0]
    } else {
        join_bar(ps.drop_last()) + " | "@ + ps.last()
    }
}

pub open spec fn multi_utf16_spec(data: Seq<u8>) -> Option<Seq<char>> {
    let ps = multi_scan(units_le(data), 0, seq![], seq![]);
    if ps.len() == 0 {
        None
    } else {
        Some(join_bar(ps))
    }
}

/// The text of a `REG_MULTI_SZ` value: its strings joined with `" | "`.
pub fn parse_multi_utf16(data: &[u8]) -> (r: Option<String>)
    ensures
        match r {
            Some(s) => multi_utf16_spec(data@) == Some(s@),
            None => multi_utf16_spec(data@) is None,
        },
{
    let ghost u = units_le(data@);
    let ghost total = multi_scan(u, 0, seq![], seq![]);
    let mut strings: Vec<String> = Vec::new();
    let mut chars: Vec<u16> = Vec::new();
    let mut i: usize = 0;
    let mut k: usize = 0;
    let ghost acc: Seq<Seq<char>> = seq![];
    while i + 1 < data.len()
        invariant_except_break
            u == units_le(data@),
            i == 2 * k,
            k <= u.len(),
            total == multi_scan(u, 0, seq![], seq![]),
            acc == strings@.map_values(|s: String| s@),
            total == multi_scan(u, k as int, chars@, acc),
        ensures
            total == strings@.map_values(|s: String| s@),
        decreases data.len() - i,
    {
        let c = le16_at(data, i);
        assert(c == u[k as int]);
        i += 2;
        k += 1;
        if c == 0 {
            let ghost acc_before = acc;
            if chars.len() > 0 {
                match from_utf16(chars.as_slice()) {
                    Some(s) => {
                        proof {
                            acc = acc.push(s@);
                        }
                        strings.push(s);
                        assert(acc =~= strings@.map_values(|s: String| s@));
                    },
                    None => {},
                }
                chars.clear();
            }
            if i + 1 < data.len() {
                let next = le16_at(data, i);
                assert(next == u[k as int]);
                if next == 0 {
                    break;
                }
            } else {
                assert(multi_scan(u, k as int, seq![], acc) == acc);
            }
            assert(chars@ =~= Seq::<u16>::empty());
        } else {
            chars.push(c);
        }
    }
    if strings.len() == 0 {
        return None;
    }
    let ghost sv = strings@.map_values(|s: String| s@);
    let mut out: Vec<char> = Vec::new();
    push_str(&mut out, strings[0].as_str());
    let mut j: usize = 1;
    assert(sv.take(1).drop_last() =~= Seq::<Seq<char>>::empty());
    while j < strings.len()
        invariant
            1 <= j <= strings.len(),
            sv == strings@.map_values(|s: String| s@),
            out@ == join_bar(sv.take(j as int)),
        decreases strings.len() - j,
    {
        push_str(&mut out, " | ");
        push_str(&mut out, strings[j].as_str());
        assert(sv.take(j + 1).drop_last() =~= sv.take(j as int));
        j += 1;
    }
    assert(sv.take(strings.len() as int) =~= sv);
    Some(string_of(&out))
}

/// What a property-store string blob (`VT_LPWSTR` = 31 or `VT_LPSTR` = 30, with a byte
/// count at offset 4 and the text at offset 8) reads as.
pub open spec fn prop_string_spec(data: Seq<u8>) -> Option<Seq<char>> {
    if data.len() < 8 {
        None
    } else {
        let vt = le16(data[0], data[1]);
        let bc = le32(data[4], data[5], data[6], data[7]) as int;
        if vt == 31 {
            if bc < 2 || data.len() < 8 + bc {
                None
            } else {
                let n = bc / 2 - 1;
                utf16_decode(Seq::new(n as nat, |i: int| le16(data[8 + 2 * i], data[9 + 2 * i])))
            }
        } else if vt == 30 {
            if bc < 1 || data.len() < 8 + bc {
                None
            } else {
                let end = if data[8 + bc - 1] == 0 {
                    bc - 1
                } else {
                    bc
                };
                let b = data.subrange(8, 8 + end);
                if valid_utf8(b) {
                    Some(decode_utf8(b))
                } else {
                    None
                }
            }
        } else {
            None
        }
    }
}

/// The text of a serialized property value holding a string.
pub fn parse_prop_string(data: &[u8]) -> (r: Option<String>)
    ensures
        match r {
            Some(s) => prop_string_spec(data@) == Some(s@),
            None => prop_string_spec(data@) is None,
        },
{
    if data.len() < 8 {
        return None;
    }
    let vt = le16_at(data, 0);
    let bc32 = le32_at(data, 4);
    if vt == 31 {
        if bc32 < 2 || (data.len() as u64) < 8 + (bc32 as u64) {
            return None;
        }
        let n: usize = (bc32 / 2 - 1) as usize;
        let mut units: Vec<u16> = Vec::new();
        let mut i: usize = 0;
        while i < n
            invariant
                i <= n,
                n == bc32 / 2 - 1,
                8 + bc32 <= data.len(),
                units@ == Seq::new(i as nat, |j: int| le16(data@[8 + 2 * j], data@[9 + 2 * j])),
            decreases n - i,
        {
            let c = le16_at(data, 8 + i * 2);
            units.push(c);
            i += 1;
            assert(units@ =~= Seq::new(i as nat, |j: int| le16(data@[8 + 2 * j], data@[9 + 2 * j])));
        }
        from_utf16(units.as_slice())
    } else if vt == 30 {
        if bc32 < 1 || (data.len() as u64) < 8 + (bc32 as u64) {
            return None;
        }
        let bc: usize = bc32 as usize;
        let end: usize = if data[8 + bc - 1] == 0 {
            bc - 1
        } else {
            bc
        };
        let mut b: Vec<u8> = Vec::new();
        let mut i: usize = 0;
        while i < end
            invariant
                i <= end,
                end <= bc,
                8 + bc <= data.len(),
                b@ == data@.subrange(8, 8 + i),
            decreases end - i,
        {
            b.push(data[8 + i]);
            i += 1;
            assert(b@ =~= data@.subrange(8, 8 + i));
        }
        from_utf8(b)
    } else {
        None
    }
}

/// What a `REG_SZ`-like read gives: UTF-16 text for `REG_SZ` / `REG_EXPAND_SZ`, a
/// property-store string for `REG_BINARY`, nothing for other types.
pub open spec fn reg_sz_spec(v: ValueType, data: Seq<u8>) -> Option<Seq<char>> {
    match v {
        ValueType::Sz | ValueType::ExpandSz => utf16_bytes_spec(data),
        ValueType::Binary => prop_string_spec(data),
        _ => None,
    }
}

/// The string held by a registry value, by its type.
pub fn decode_reg_sz(value: &RawValue) -> (r: Option<String>)
    ensures
        match r {
            Some(s) => reg_sz_spec(value.vtype, value.bytes@) == Some(s@),
            None => reg_sz_spec(value.vtype, value.bytes@) is None,
        },
{
    match value.vtype {
        ValueType::Sz | ValueType::ExpandSz => parse_utf16_bytes(value.bytes.as_slice()),
        ValueType::Binary => parse_prop_string(value.bytes.as_slice()),
        _ => None,
    }
}

/// Sample rate, channels, bits per sample and (for `WAVE_FORMAT_EXTENSIBLE`) the channel
/// mask of a `WAVEFORMATEX` at `offset`, when they are plausible.
pub open spec fn wfx_at(data: Seq<u8>, offset: int) -> Option<
    (Option<u32>, Option<u16>, Option<u16>, Option<u32>),
> {
    if data.len() < offset + 16 {
        None
    } else {
        let d = data.skip(offset);
        let tag = le16(d[0], d[1]);
        let ch = le16(d[2], d[3]);
        let sr = le32(d[4], d[5], d[6], d[7]);
        let bits = le16(d[14], d[15]);
        if ch == 0 || ch > 256 || sr == 0 || sr > 1_000_000 || bits == 0 || bits > 64 {
            None
        } else {
            let mask = if tag == 0xFFFE && d.len() >= 24 {
                Some(le32(d[20], d[21], d[22], d[23]))
            } else {
                None
            };
            Some((Some(sr), Some(ch), Some(bits), mask))
        }
    }
}

fn try_parse_wfx(data: &[u8], offset: usize) -> (r: Option<
    (Option<u32>, Option<u16>, Option<u16>, Option<u32>),
>)
    requires
        offset <= 8,
    ensures
        r == wfx_at(data@, offset as int),
{
    if data.len() < offset + 16 {
        return None;
    }
    let ghost d = data@.skip(offset as int);
    let tag = le16_at(data, offset);
    let ch = le16_at(data, offset + 2);
    let sr = le32_at(data, offset + 4);
    let bits = le16_at(data, offset + 14);
    assert(tag == le16(d[0], d[1]));
    assert(ch == le16(d[2], d[3]));
    assert(sr == le32(d[4], d[5], d[6], d[7]));
    assert(bits == le16(d[14], d[15]));
    if ch == 0 || ch > 256 {
        return None;
    }
    if sr == 0 || sr > 1_000_000 {
        return None;
    }
    if bits == 0 || bits > 64 {
        return None;
    }
    let mut mask: Option<u32> = None;
    if tag == 0xFFFE && data.len() - offset >= 24 {
        let m = le32_at(data, offset + 20);
        assert(m == le32(d[20], d[21], d[22], d[23]));
        mask = Some(m);
    }
    Some((Some(sr), Some(ch), Some(bits), mask))
}

/// The stream format of an endpoint's format property: a `WAVEFORMATEX` at offset 0,
/// else one at offset 8 (after a property-store header).
pub fn parse_waveformatex(data: &[u8]) -> (r: Option<
    (Option<u32>, Option<u16>, Option<u16>, Option<u32>),
>)
    ensures
        r == (if wfx_at(data@, 0) is Some {
            wfx_at(data@, 0)
        } else {
            wfx_at(data@, 8)
        }),
{
    if let Some(result) = try_parse_wfx(data, 0) {
        return Some(result);
    }
    if let Some(result) = try_parse_wfx(data, 8) {
        return Some(result);
    }
    None
}

} // verus!
