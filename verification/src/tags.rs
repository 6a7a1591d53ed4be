//! Structural validation of the tag-section schemas and of the file-level
//! tag value block, ahead of the codec.
//!
//! The codec trusts the type-id bytes it decodes: a tag section naming an
//! unknown array subtype, or a tag value block whose declared array lengths
//! outrun the file, stops it ungracefully instead of returning an error.
//! The scanners here walk the same grammar first — a `u16` descriptor count,
//! then per descriptor a `u16` name length, the name, a type-id byte, two
//! subtype bytes when the type is the array id 7, and a `[code][plen]`-
//! prefixed role block in versioned files — and accept a region only when
//! every type id is one the codec knows and every declared value fits the
//! remaining bytes.  The codec wrappers require that acceptance, so a
//! crafted file is refused here, with an error, before the codec sees it.

use vstd::prelude::*;

verus! {

use vstd::bytes::spec_u16_from_le_bytes;
use vstd::bytes::spec_u32_from_le_bytes;
use vstd::bytes::spec_u64_from_le_bytes;
use vstd::bytes::u16_from_le_bytes;
use vstd::bytes::u32_from_le_bytes;
use vstd::bytes::u64_from_le_bytes;
use vstd::slice::slice_subrange;

/// The little-endian u16 at `p`.
pub open spec fn le16(s: Seq<u8>, p: int) -> int
    recommends
        0 <= p,
        p + 2 <= s.len(),
{
    spec_u16_from_le_bytes(s.subrange(p, p + 2)) as int
}

/// Whether `b` is a type id the codec accepts for an array's length: one of
/// the integer ids 1 to 4, 9, or 10 to 14.
pub open spec fn valid_int_type_id(b: u8) -> bool {
    b == 1 || b == 2 || b == 3 || b == 4 || b == 9 || (10 <= b && b <= 14)
}

/// Whether `b` is a type id the codec accepts for an array's elements:
/// boolean (0), an integer id, a float id (5, 6), or string (8).
pub open spec fn valid_atomic_type_id(b: u8) -> bool {
    b == 0 || b == 5 || b == 6 || b == 8 || valid_int_type_id(b)
}

/// Whether `b` is a non-array type id the codec accepts for a tag: 0 to 6 or
/// 8 to 14 (7 is the array id and carries two subtype bytes).
pub open spec fn valid_scalar_type_id(b: u8) -> bool {
    b <= 6 || (8 <= b && b <= 14)
}

/// Value size, in bytes, of the scalar type id `b`; 0 for the string id 8
/// and for ids that name no fixed-size scalar.
pub open spec fn scalar_value_size(b: u8) -> int {
    if b == 0 || b == 1 || b == 10 {
        1
    } else if b == 2 || b == 11 {
        2
    } else if b == 3 || b == 5 || b == 12 {
        4
    } else if b == 4 || b == 6 || b == 13 {
        8
    } else if b == 9 || b == 14 {
        16
    } else {
        0
    }
}

/// Byte width of an array's length field for length-type id `b`; 0 for ids
/// the value reader cannot turn into a count (the 128-bit and signed ids).
pub open spec fn array_len_size(b: u8) -> int {
    if b == 1 {
        1
    } else if b == 2 {
        2
    } else if b == 3 {
        4
    } else if b == 4 {
        8
    } else {
        0
    }
}

/// The little-endian unsigned value of width `k` (1, 2, 4 or 8) at `p`.
pub open spec fn le_uint(s: Seq<u8>, p: int, k: int) -> int
    recommends
        0 <= p,
        p + k <= s.len(),
{
    if k == 1 {
        s[p] as int
    } else if k == 2 {
        spec_u16_from_le_bytes(s.subrange(p, p + 2)) as int
    } else if k == 4 {
        spec_u32_from_le_bytes(s.subrange(p, p + 4)) as int
    } else {
        spec_u64_from_le_bytes(s.subrange(p, p + 8)) as int
    }
}

/// End of the `[code][plen][payload]` role block at `p`, or `None` when it
/// outruns `s`.
pub open spec fn role_skip(s: Seq<u8>, p: int) -> Option<int> {
    if 0 <= p && p + 2 <= s.len() && p + 2 + (s[p + 1] as int) <= s.len() {
        Some(p + 2 + (s[p + 1] as int))
    } else {
        None
    }
}

/// Position of a descriptor's type-id byte: past the name-length prefix and
/// the name.
pub open spec fn desc_tid_pos(s: Seq<u8>, pos: int) -> int {
    pos + 2 + le16(s, pos)
}

/// A descriptor's type-id byte.
pub open spec fn desc_tid(s: Seq<u8>, pos: int) -> u8 {
    s[desc_tid_pos(s, pos)]
}

/// A descriptor's array-length type id (meaningful when the type id is 7).
pub open spec fn desc_lid(s: Seq<u8>, pos: int) -> u8 {
    s[desc_tid_pos(s, pos) + 1]
}

/// A descriptor's array-element type id (meaningful when the type id is 7).
pub open spec fn desc_mid(s: Seq<u8>, pos: int) -> u8 {
    s[desc_tid_pos(s, pos) + 2]
}

/// End of one well-formed tag descriptor at `pos`: name-length prefix, name,
/// a known type id, two known subtype ids when the type is the array id, and
/// the role block in versioned files.  `None` when the bytes outrun `s` or
/// name a type the codec does not know.
pub open spec fn desc_end(s: Seq<u8>, pos: int, versioned: bool) -> Option<int> {
    if !(0 <= pos && pos + 2 <= s.len()) {
        None
    } else {
        let tpos = desc_tid_pos(s, pos);
        if tpos + 1 > s.len() {
            None
        } else {
            let tid = s[tpos];
            let after = if tid == 7 {
                if tpos + 3 <= s.len() && valid_int_type_id(s[tpos + 1]) && valid_atomic_type_id(
                    s[tpos + 2],
                ) {
                    Some(tpos + 3)
                } else {
                    None
                }
            } else if valid_scalar_type_id(tid) {
                Some(tpos + 1)
            } else {
                None
            };
            match after {
                Some(p) => if versioned {
                    role_skip(s, p)
                } else {
                    Some(p)
                },
                None => None,
            }
        }
    }
}

/// End of `n` consecutive well-formed descriptors starting at `pos`.
pub open spec fn descs_end(s: Seq<u8>, pos: int, n: int, versioned: bool) -> Option<int>
    decreases n,
{
    if n <= 0 {
        Some(pos)
    } else {
        match desc_end(s, pos, versioned) {
            Some(e) => descs_end(s, e, n - 1, versioned),
            None => None,
        }
    }
}

/// End of one well-formed tag section at `pos`: the `u16` descriptor count,
/// then that many well-formed descriptors.
pub open spec fn section_end(s: Seq<u8>, pos: int, versioned: bool) -> Option<int> {
    if 0 <= pos && pos + 2 <= s.len() {
        descs_end(s, pos + 2, le16(s, pos), versioned)
    } else {
        None
    }
}

/// End of one array tag value at `p`: the length field (whose type must be
/// an unsigned id of at most 64 bits — the only lengths the value reader can
/// take), then the declared number of elements, each of its fixed size, or a
/// two-byte prefix per element for string arrays; `None` when the declared
/// extent outruns `s`.
pub open spec fn array_value_end(s: Seq<u8>, p: int, lid: u8, mid: u8) -> Option<int> {
    let lsz = array_len_size(lid);
    if lsz == 0 {
        None
    } else if !(0 <= p && p + lsz <= s.len()) {
        None
    } else {
        let vl = le_uint(s, p, lsz);
        let q = p + lsz;
        if mid == 8 {
            if q + 2 * vl <= s.len() {
                Some(q + 2 * vl)
            } else {
                None
            }
        } else {
            let esz = scalar_value_size(mid);
            if esz == 0 {
                None
            } else if q + esz * vl <= s.len() {
                Some(q + esz * vl)
            } else {
                None
            }
        }
    }
}

/// End of one tag value at `p` for a descriptor with type id `tid` (and
/// subtype ids `lid`, `mid` when `tid` is the array id 7); `None` when the
/// value outruns `s`.
pub open spec fn value_end(s: Seq<u8>, p: int, tid: u8, lid: u8, mid: u8) -> Option<int> {
    if tid == 7 {
        array_value_end(s, p, lid, mid)
    } else if tid == 8 {
        if 0 <= p && p + 2 <= s.len() && p + 2 + le16(s, p) <= s.len() {
            Some(p + 2 + le16(s, p))
        } else {
            None
        }
    } else {
        let k = scalar_value_size(tid);
        if k == 0 {
            None
        } else if 0 <= p && p + k <= s.len() {
            Some(p + k)
        } else {
            None
        }
    }
}

/// Walks `n` descriptors from `dp` and their values from `vp` in lockstep.
pub open spec fn values_walk(s: Seq<u8>, dp: int, n: int, vp: int, versioned: bool) -> Option<int>
    decreases n,
{
    if n <= 0 {
        Some(vp)
    } else {
        match desc_end(s, dp, versioned) {
            Some(dn) => match value_end(s, vp, desc_tid(s, dp), desc_lid(s, dp), desc_mid(s, dp)) {
                Some(vn) => values_walk(s, dn, n - 1, vn, versioned),
                None => None,
            },
            None => None,
        }
    }
}

/// End of the file-level tag value block: one value per descriptor of the
/// section at `sec_start`, read from `val_start` on, every value lying
/// wholly within `s`.
pub open spec fn file_values_end(s: Seq<u8>, sec_start: int, val_start: int, versioned: bool) -> Option<
    int,
> {
    if 0 <= sec_start && sec_start + 2 <= s.len() && 0 <= val_start && val_start <= s.len() {
        values_walk(s, sec_start + 2, le16(s, sec_start), val_start, versioned)
    } else {
        None
    }
}

/// Scans one descriptor at `pos`, returning its end and its type-id bytes.
fn scan_desc(data: &Vec<u8>, pos: usize, versioned: bool) -> (r: Option<(usize, u8, u8, u8)>)
    ensures
        r matches Some(t) ==> Some(t.0 as int) == desc_end(data@, pos as int, versioned) && pos
            <= t.0 <= data@.len() && t.1 == desc_tid(data@, pos as int) && (t.1 == 7 ==> t.2
            == desc_lid(data@, pos as int) && t.3 == desc_mid(data@, pos as int)),
        r is None ==> desc_end(data@, pos as int, versioned) is None,
{
    if pos > data.len() || data.len() - pos < 2 {
        return None;
    }
    let nl = u16_from_le_bytes(slice_subrange(data.as_slice(), pos, pos + 2)) as usize;
    if data.len() - (pos + 2) < nl + 1 {
        return None;
    }
    let tpos = pos + 2 + nl;
    let tid = data[tpos];
    let mut lid: u8 = 0;
    let mut mid: u8 = 0;
    let after: usize;
    if tid == 7 {
        if data.len() - tpos < 3 {
            return None;
        }
        lid = data[tpos + 1];
        mid = data[tpos + 2];
        let lid_ok = lid == 1 || lid == 2 || lid == 3 || lid == 4 || lid == 9 || (10 <= lid && lid
            <= 14);
        let mid_ok = mid == 0 || mid == 5 || mid == 6 || mid == 8 || mid == 1 || mid == 2 || mid
            == 3 || mid == 4 || mid == 9 || (10 <= mid && mid <= 14);
        if !lid_ok || !mid_ok {
            return None;
        }
        after = tpos + 3;
    } else if tid <= 6 || (8 <= tid && tid <= 14) {
        after = tpos + 1;
    } else {
        return None;
    }
    if versioned {
        if data.len() - after < 2 {
            return None;
        }
        let plen = data[after + 1] as usize;
        if data.len() - (after + 2) < plen {
            return None;
        }
        Some((after + 2 + plen, tid, lid, mid))
    } else {
        Some((after, tid, lid, mid))
    }
}

/// Scans one tag section at `pos`: accepted exactly when the codec can
/// decode it without meeting an unknown type id or running past the bytes.
pub(crate) fn scan_section(data: &Vec<u8>, pos: usize, versioned: bool) -> (r: Option<usize>)
    ensures
        r matches Some(e) ==> Some(e as int) == section_end(data@, pos as int, versioned) && pos
            <= e <= data@.len(),
        r is None ==> section_end(data@, pos as int, versioned) is None,
{
    if pos > data.len() || data.len() - pos < 2 {
        return None;
    }
    let n = u16_from_le_bytes(slice_subrange(data.as_slice(), pos, pos + 2)) as usize;
    let mut cur = pos + 2;
    let mut i: usize = 0;
    while i < n
        invariant
            i <= n,
            pos + 2 <= cur <= data@.len(),
            pos + 2 <= data@.len(),
            n == le16(data@, pos as int),
            section_end(data@, pos as int, versioned) == descs_end(
                data@,
                cur as int,
                n - i,
                versioned,
            ),
        decreases n - i,
    {
        match scan_desc(data, cur, versioned) {
            Some(t) => {
                proof {
                    assert(descs_end(data@, cur as int, n - i, versioned) == descs_end(
                        data@,
                        t.0 as int,
                        n - i - 1,
                        versioned,
                    ));
                }
                cur = t.0;
            },
            None => {
                assert(descs_end(data@, cur as int, n - i, versioned) is None);
                return None;
            },
        }
        i += 1;
    }
    assert(descs_end(data@, cur as int, 0, versioned) == Some(cur as int));
    Some(cur)
}

/// Scans one tag value at `p` for a descriptor with the given type-id bytes.
#[verifier::rlimit(60)]
fn scan_value(data: &Vec<u8>, p: usize, tid: u8, lid: u8, mid: u8) -> (r: Option<usize>)
    ensures
        r matches Some(e) ==> Some(e as int) == value_end(data@, p as int, tid, lid, mid) && p <= e
            <= data@.len(),
        r is None ==> value_end(data@, p as int, tid, lid, mid) is None,
{
    if tid == 7 {
        let lsz: usize = if lid == 1 {
            1
        } else if lid == 2 {
            2
        } else if lid == 3 {
            4
        } else if lid == 4 {
            8
        } else {
            return None;
        };
        if p > data.len() || data.len() - p < lsz {
            return None;
        }
        let vl: u64 = if lid == 1 {
            data[p] as u64
        } else if lid == 2 {
            u16_from_le_bytes(slice_subrange(data.as_slice(), p, p + 2)) as u64
        } else if lid == 3 {
            u32_from_le_bytes(slice_subrange(data.as_slice(), p, p + 4)) as u64
        } else {
            u64_from_le_bytes(slice_subrange(data.as_slice(), p, p + 8))
        };
        let q = p + lsz;
        let remaining = data.len() - q;
        if mid == 8 {
            if (vl as u128) * 2 > remaining as u128 {
                return None;
            }
            proof {
                assert(vl as int <= remaining as int) by (nonlinear_arith)
                    requires
                        (vl as int) * 2 <= remaining as int,
                        0 <= vl as int,
                ;
            }
            Some(q + (vl as usize) * 2)
        } else {
            let esz: usize = if mid == 0 || mid == 1 || mid == 10 {
                1
            } else if mid == 2 || mid == 11 {
                2
            } else if mid == 3 || mid == 5 || mid == 12 {
                4
            } else if mid == 4 || mid == 6 || mid == 13 {
                8
            } else if mid == 9 || mid == 14 {
                16
            } else {
                return None;
            };
            proof {
                assert(1 <= esz && esz <= 16);
            }
            if (vl as u128) * (esz as u128) > remaining as u128 {
                return None;
            }
            proof {
                assert(vl as int <= remaining as int && (vl as int) * (esz as int)
                    <= remaining as int) by (nonlinear_arith)
                    requires
                        (vl as int) * (esz as int) <= remaining as int,
                        0 <= vl as int,
                        1 <= esz as int,
                ;
            }
            Some(q + (vl as usize) * esz)
        }
    } else if tid == 8 {
        if p > data.len() || data.len() - p < 2 {
            return None;
        }
        let sl = u16_from_le_bytes(slice_subrange(data.as_slice(), p, p + 2)) as usize;
        if data.len() - (p + 2) < sl {
            return None;
        }
        Some(p + 2 + sl)
    } else {
        let k: usize = if tid == 0 || tid == 1 || tid == 10 {
            1
        } else if tid == 2 || tid == 11 {
            2
        } else if tid == 3 || tid == 5 || tid == 12 {
            4
        } else if tid == 4 || tid == 6 || tid == 13 {
            8
        } else if tid == 9 || tid == 14 {
            16
        } else {
            return None;
        };
        if p > data.len() || data.len() - p < k {
            return None;
        }
        Some(p + k)
    }
}

/// Scans the file-level tag value block: accepted exactly when every value
/// declared by the section at `sec_start` lies wholly within the bytes from
/// `val_start` on, with array lengths the codec's value reader can take.
pub(crate) fn scan_file_values(data: &Vec<u8>, sec_start: usize, val_start: usize, versioned: bool) -> (r:
    Option<usize>)
    ensures
        r matches Some(e) ==> Some(e as int) == file_values_end(
            data@,
            sec_start as int,
            val_start as int,
            versioned,
        ) && val_start <= e <= data@.len(),
        r is None ==> file_values_end(data@, sec_start as int, val_start as int, versioned)
            is None,
{
    if sec_start > data.len() || data.len() - sec_start < 2 || val_start > data.len() {
        return None;
    }
    let n = u16_from_le_bytes(slice_subrange(data.as_slice(), sec_start, sec_start + 2)) as usize;
    let mut dcur = sec_start + 2;
    let mut vcur = val_start;
    let mut i: usize = 0;
    while i < n
        invariant
            i <= n,
            sec_start + 2 <= dcur <= data@.len(),
            val_start <= vcur <= data@.len(),
            sec_start + 2 <= data@.len(),
            n == le16(data@, sec_start as int),
            file_values_end(data@, sec_start as int, val_start as int, versioned) == values_walk(
                data@,
                dcur as int,
                n - i,
                vcur as int,
                versioned,
            ),
        decreases n - i,
    {
        let (dnext, tid, lid, mid) = match scan_desc(data, dcur, versioned) {
            Some(t) => t,
            None => {
                assert(values_walk(data@, dcur as int, n - i, vcur as int, versioned) is None);
                return None;
            },
        };
        let vnext = match scan_value(data, vcur, tid, lid, mid) {
            Some(v) => v,
            None => {
                proof {
                    assert(value_end(
                        data@,
                        vcur as int,
                        desc_tid(data@, dcur as int),
                        desc_lid(data@, dcur as int),
                        desc_mid(data@, dcur as int),
                    ) == value_end(data@, vcur as int, tid, lid, mid));
                    assert(values_walk(data@, dcur as int, n - i, vcur as int, versioned) is None);
                }
                return None;
            },
        };
        proof {
            assert(value_end(
                data@,
                vcur as int,
                desc_tid(data@, dcur as int),
                desc_lid(data@, dcur as int),
                desc_mid(data@, dcur as int),
            ) == value_end(data@, vcur as int, tid, lid, mid));
            assert(values_walk(data@, dcur as int, n - i, vcur as int, versioned) == values_walk(
                data@,
                dnext as int,
                n - i - 1,
                vnext as int,
                versioned,
            ));
        }
        dcur = dnext;
        vcur = vnext;
        i += 1;
    }
    assert(values_walk(data@, dcur as int, 0, vcur as int, versioned) == Some(vcur as int));
    Some(vcur)
}

} // verus!
