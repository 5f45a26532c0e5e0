//! Decoding of the binary extract container: blob framing, the
//! protobuf wire format, and the delta-coded node and way data — all in
//! checked integer arithmetic, so a malformed or adversarial stream is
//! rejected with an error, never wrapped around and never panicked
//! over. The only outside call is the zlib inflation of blob bodies.

use crate::errors::{MalformedKind, ParseError};
use vstd::prelude::*;

verus! {

/// Everything a scan of the byte stream yields: node records as
/// (id, nanodegree latitude, nanodegree longitude), ways as
/// (id, ordered node references), and the header's bounding box as
/// (left, right, top, bottom) in nanodegrees, straight from the
/// fixed-point wire values.
pub struct ExtractScan {
    pub nodes: Vec<(i64, i64, i64)>,
    pub ways: Vec<(i64, Vec<i64>)>,
    pub bbox: Option<(i64, i64, i64, i64)>,
}

/// What inflating a zlib stream yields, as a fixed function of the
/// bytes alone; `None` where the stream is rejected or the inflated
/// size passes the blob cap.
pub uninterp spec fn inflate_zlib_of(data: Seq<u8>) -> Option<Seq<u8>>;

/// Relies on miniz_oxide's `decompress_to_vec_zlib_with_limit`: whole
/// in-memory inflation that returns an error value on any malformed
/// stream and caps the output size, a pure function of the input bytes.
#[verifier::external_body]
fn inflate_zlib(data: &Vec<u8>) -> (r: Option<Vec<u8>>)
    ensures
        r matches Some(v) ==> inflate_zlib_of(data@) matches Some(s) && v@ == s,
        r is None <==> inflate_zlib_of(data@) is None,
{
    match miniz_oxide::inflate::decompress_to_vec_zlib_with_limit(data.as_slice(), 0x200_0000) {
        Ok(v) => Some(v),
        Err(_) => None,
    }
}

/// Reads one base-128 varint at `i`: the value and the position after.
/// The tenth byte may only carry the final bit of a 64-bit value;
/// anything longer or truncated is rejected.
fn rd_varint(d: &Vec<u8>, i: usize) -> (r: Option<(u64, usize)>)
    requires
        i <= d@.len(),
    ensures
        r matches Some(p) ==> i < p.1 <= d@.len(),
{
    let mut val: u64 = 0;
    let mut k: usize = 0;
    while k < 10
        invariant
            i <= d@.len(),
            k <= 10,
        decreases 10 - k,
    {
        if k >= d.len() - i {
            return None;
        }
        let b = d[i + k];
        let part = (b & 0x7f) as u64;
        if k == 9 && part > 1 {
            return None;
        }
        val = val | (part << ((7 * k) as u64));
        if b < 0x80 {
            return Some((val, i + k + 1));
        }
        k = k + 1;
    }
    None
}

/// Splits one field key into field number, wire type, and the position
/// after the key.
fn rd_key(d: &Vec<u8>, i: usize) -> (r: Option<(u64, u64, usize)>)
    requires
        i <= d@.len(),
    ensures
        r matches Some(p) ==> i < p.2 <= d@.len(),
{
    match rd_varint(d, i) {
        Some((v, j)) => Some((v >> 3, v & 7, j)),
        None => None,
    }
}

/// Skips one field body of the given wire type, staying inside the
/// buffer.
fn skip_field(d: &Vec<u8>, i: usize, wire: u64) -> (r: Option<usize>)
    requires
        i <= d@.len(),
    ensures
        r matches Some(j) ==> i <= j <= d@.len(),
{
    if wire == 0 {
        match rd_varint(d, i) {
            Some((_, j)) => Some(j),
            None => None,
        }
    } else if wire == 1 {
        if d.len() - i >= 8 {
            Some(i + 8)
        } else {
            None
        }
    } else if wire == 5 {
        if d.len() - i >= 4 {
            Some(i + 4)
        } else {
            None
        }
    } else if wire == 2 {
        match rd_varint(d, i) {
            Some((n, j)) => {
                if n <= (d.len() - j) as u64 {
                    Some(j + n as usize)
                } else {
                    None
                }
            },
            None => None,
        }
    } else {
        None
    }
}

/// The byte range of one length-delimited field body.
fn rd_len(d: &Vec<u8>, i: usize) -> (r: Option<(usize, usize)>)
    requires
        i <= d@.len(),
    ensures
        r matches Some(p) ==> i < p.0 <= p.1 <= d@.len(),
{
    match rd_varint(d, i) {
        Some((n, j)) => {
            if n <= (d.len() - j) as u64 {
                Some((j, j + n as usize))
            } else {
                None
            }
        },
        None => None,
    }
}

/// Zigzag decoding: the signed value a sint64 varint carries.
fn un_zigzag(v: u64) -> (r: i64) {
    let half = v >> 1;
    proof {
        assert(v >> 1 <= 0x7fff_ffff_ffff_ffffu64) by (bit_vector);
    }
    if v & 1 == 0 {
        half as i64
    } else {
        ((-(half as i128)) - 1) as i64
    }
}

/// Reads one sint64 value (zigzag varint).
fn rd_sint(d: &Vec<u8>, i: usize) -> (r: Option<(i64, usize)>)
    requires
        i <= d@.len(),
    ensures
        r matches Some(p) ==> i < p.1 <= d@.len(),
{
    match rd_varint(d, i) {
        Some((v, j)) => Some((un_zigzag(v), j)),
        None => None,
    }
}

/// Reads one int64-family value: the varint's two's-complement reading.
fn rd_int(d: &Vec<u8>, i: usize) -> (r: Option<(i64, usize)>)
    requires
        i <= d@.len(),
    ensures
        r matches Some(p) ==> i < p.1 <= d@.len(),
{
    match rd_varint(d, i) {
        Some((v, j)) => Some((#[verifier::truncate] (v as i64), j)),
        None => None,
    }
}

/// Appends the sint64 values of one field occurrence to `out`: a packed
/// body (wire type 2) or a single value (wire type 0), as the format
/// allows both.
fn rd_sints(d: &Vec<u8>, i: usize, wire: u64, limit: usize, out: &mut Vec<i64>) -> (r: Option<
    usize,
>)
    requires
        i <= limit <= d@.len(),
    ensures
        r matches Some(j) ==> i <= j <= limit,
{
    if wire == 0 {
        match rd_sint(d, i) {
            Some((v, j)) => {
                if j <= limit {
                    out.push(v);
                    Some(j)
                } else {
                    None
                }
            },
            None => None,
        }
    } else if wire == 2 {
        match rd_len(d, i) {
            Some((start, end)) => {
                if end > limit {
                    return None;
                }
                let mut pos = start;
                while pos < end
                    invariant
                        start <= pos <= end <= d@.len(),
                    decreases end - pos,
                {
                    match rd_sint(d, pos) {
                        Some((v, q)) => {
                            if q > end {
                                return None;
                            }
                            out.push(v);
                            pos = q;
                        },
                        None => {
                            return None;
                        },
                    }
                }
                Some(end)
            },
            None => None,
        }
    } else {
        None
    }
}

/// The nanodegree coordinate a raw wire value stands for, under the
/// block's granularity and offset; `None` where the arithmetic would
/// leave the 64-bit range.
fn scale_coord(offset: i64, gran: i64, raw: i64) -> (r: Option<i64>) {
    match gran.checked_mul(raw) {
        Some(x) => x.checked_add(offset),
        None => None,
    }
}

/// Decodes one dense-node body: parallel packed arrays of delta-coded
/// ids and coordinates, accumulated and scaled in checked arithmetic;
/// a shape mismatch or an overflow rejects the stream.
fn rd_dense(
    d: &Vec<u8>,
    start: usize,
    end: usize,
    gran: i64,
    lat0: i64,
    lon0: i64,
    out: &mut Vec<(i64, i64, i64)>,
) -> (r: Option<MalformedKind>)
    requires
        start <= end <= d@.len(),
{
    let mut ids: Vec<i64> = Vec::new();
    let mut lats: Vec<i64> = Vec::new();
    let mut lons: Vec<i64> = Vec::new();
    let mut pos = start;
    while pos < end
        invariant
            start <= pos <= end <= d@.len(),
        decreases end - pos,
    {
        let (f, w, j) = match rd_key(d, pos) {
            Some(t) => t,
            None => {
                return Some(MalformedKind::Encoding);
            },
        };
        if j > end {
            return Some(MalformedKind::Encoding);
        }
        let next = if f == 1 {
            rd_sints(d, j, w, end, &mut ids)
        } else if f == 8 {
            rd_sints(d, j, w, end, &mut lats)
        } else if f == 9 {
            rd_sints(d, j, w, end, &mut lons)
        } else {
            match skip_field(d, j, w) {
                Some(q) => {
                    if q <= end {
                        Some(q)
                    } else {
                        None
                    }
                },
                None => None,
            }
        };
        match next {
            Some(q) => {
                pos = q;
            },
            None => {
                return Some(MalformedKind::Encoding);
            },
        }
    }
    if ids.len() != lats.len() || ids.len() != lons.len() {
        return Some(MalformedKind::DenseShape);
    }
    let mut cid: i64 = 0;
    let mut clat: i64 = 0;
    let mut clon: i64 = 0;
    let n = ids.len();
    for t in 0..n
        invariant
            n == ids@.len() == lats@.len() == lons@.len(),
    {
        cid = match cid.checked_add(ids[t]) {
            Some(v) => v,
            None => {
                return Some(MalformedKind::Arithmetic);
            },
        };
        clat = match clat.checked_add(lats[t]) {
            Some(v) => v,
            None => {
                return Some(MalformedKind::Arithmetic);
            },
        };
        clon = match clon.checked_add(lons[t]) {
            Some(v) => v,
            None => {
                return Some(MalformedKind::Arithmetic);
            },
        };
        let nano_lat = match scale_coord(lat0, gran, clat) {
            Some(v) => v,
            None => {
                return Some(MalformedKind::Arithmetic);
            },
        };
        let nano_lon = match scale_coord(lon0, gran, clon) {
            Some(v) => v,
            None => {
                return Some(MalformedKind::Arithmetic);
            },
        };
        out.push((cid, nano_lat, nano_lon));
    }
    None
}

/// Decodes one plain node body: id and scaled coordinate.
fn rd_node(d: &Vec<u8>, start: usize, end: usize, gran: i64, lat0: i64, lon0: i64) -> (r: Option<
    (i64, i64, i64),
>)
    requires
        start <= end <= d@.len(),
{
    let mut id: i64 = 0;
    let mut lat: i64 = 0;
    let mut lon: i64 = 0;
    let mut pos = start;
    while pos < end
        invariant
            start <= pos <= end <= d@.len(),
        decreases end - pos,
    {
        let (f, w, j) = match rd_key(d, pos) {
            Some(t) => t,
            None => {
                return None;
            },
        };
        if j > end {
            return None;
        }
        let next = if (f == 1 || f == 8 || f == 9) && w == 0 {
            match rd_sint(d, j) {
                Some((v, q)) => {
                    if f == 1 {
                        id = v;
                    } else if f == 8 {
                        lat = v;
                    } else {
                        lon = v;
                    }
                    Some(q)
                },
                None => None,
            }
        } else {
            skip_field(d, j, w)
        };
        match next {
            Some(q) => {
                if q > end {
                    return None;
                }
                pos = q;
            },
            None => {
                return None;
            },
        }
    }
    let nano_lat = match scale_coord(lat0, gran, lat) {
        Some(v) => v,
        None => {
            return None;
        },
    };
    let nano_lon = match scale_coord(lon0, gran, lon) {
        Some(v) => v,
        None => {
            return None;
        },
    };
    Some((id, nano_lat, nano_lon))
}

/// Decodes one way body: its id and its delta-coded node references,
/// accumulated in checked arithmetic.
fn rd_way(d: &Vec<u8>, start: usize, end: usize) -> (r: Result<(i64, Vec<i64>), MalformedKind>)
    requires
        start <= end <= d@.len(),
{
    let mut id: i64 = 0;
    let mut deltas: Vec<i64> = Vec::new();
    let mut pos = start;
    while pos < end
        invariant
            start <= pos <= end <= d@.len(),
        decreases end - pos,
    {
        let (f, w, j) = match rd_key(d, pos) {
            Some(t) => t,
            None => {
                return Err(MalformedKind::Encoding);
            },
        };
        if j > end {
            return Err(MalformedKind::Encoding);
        }
        let next = if f == 1 && w == 0 {
            match rd_int(d, j) {
                Some((v, q)) => {
                    id = v;
                    Some(q)
                },
                None => None,
            }
        } else if f == 8 {
            rd_sints(d, j, w, end, &mut deltas)
        } else {
            skip_field(d, j, w)
        };
        match next {
            Some(q) => {
                if q > end {
                    return Err(MalformedKind::Encoding);
                }
                pos = q;
            },
            None => {
                return Err(MalformedKind::Encoding);
            },
        }
    }
    let mut refs: Vec<i64> = Vec::new();
    let mut cur: i64 = 0;
    let n = deltas.len();
    for t in 0..n
        invariant
            n == deltas@.len(),
    {
        cur = match cur.checked_add(deltas[t]) {
            Some(v) => v,
            None => {
                return Err(MalformedKind::Arithmetic);
            },
        };
        refs.push(cur);
    }
    Ok((id, refs))
}

/// Decodes one primitive group: plain nodes, dense nodes and ways are
/// gathered; relations carry no road geometry and are skipped.
fn rd_group(
    d: &Vec<u8>,
    start: usize,
    end: usize,
    gran: i64,
    lat0: i64,
    lon0: i64,
    nodes: &mut Vec<(i64, i64, i64)>,
    ways: &mut Vec<(i64, Vec<i64>)>,
) -> (r: Option<MalformedKind>)
    requires
        start <= end <= d@.len(),
{
    let mut pos = start;
    while pos < end
        invariant
            start <= pos <= end <= d@.len(),
        decreases end - pos,
    {
        let (f, w, j) = match rd_key(d, pos) {
            Some(t) => t,
            None => {
                return Some(MalformedKind::Encoding);
            },
        };
        if j > end {
            return Some(MalformedKind::Encoding);
        }
        if (f == 1 || f == 2 || f == 3) && w == 2 {
            let (s, e) = match rd_len(d, j) {
                Some(p) => p,
                None => {
                    return Some(MalformedKind::Encoding);
                },
            };
            if e > end {
                return Some(MalformedKind::Encoding);
            }
            if f == 1 {
                match rd_node(d, s, e, gran, lat0, lon0) {
                    Some(t) => nodes.push(t),
                    None => {
                        return Some(MalformedKind::Encoding);
                    },
                }
            } else if f == 2 {
                match rd_dense(d, s, e, gran, lat0, lon0, nodes) {
                    Some(k) => {
                        return Some(k);
                    },
                    None => {},
                }
            } else {
                match rd_way(d, s, e) {
                    Ok(t) => ways.push(t),
                    Err(k) => {
                        return Some(k);
                    },
                }
            }
            pos = e;
        } else {
            match skip_field(d, j, w) {
                Some(q) => {
                    if q > end {
                        return Some(MalformedKind::Encoding);
                    }
                    pos = q;
                },
                None => {
                    return Some(MalformedKind::Encoding);
                },
            }
        }
    }
    None
}

/// Decodes one data block. The granularity and offsets may stand after
/// the groups on the wire, so the fields are walked first and the
/// groups decoded second.
fn rd_primitive_block(
    d: &Vec<u8>,
    nodes: &mut Vec<(i64, i64, i64)>,
    ways: &mut Vec<(i64, Vec<i64>)>,
) -> (r: Option<MalformedKind>) {
    let mut gran: i64 = 100;
    let mut lat0: i64 = 0;
    let mut lon0: i64 = 0;
    let mut groups: Vec<(usize, usize)> = Vec::new();
    let end = d.len();
    let mut pos: usize = 0;
    while pos < end
        invariant
            pos <= end == d@.len(),
            forall|x: int|
                0 <= x < groups@.len() ==> (#[trigger] groups@[x]).0 <= groups@[x].1 <= d@.len(),
        decreases end - pos,
    {
        let (f, w, j) = match rd_key(d, pos) {
            Some(t) => t,
            None => {
                return Some(MalformedKind::Encoding);
            },
        };
        if f == 2 && w == 2 {
            let (s, e) = match rd_len(d, j) {
                Some(p) => p,
                None => {
                    return Some(MalformedKind::Encoding);
                },
            };
            groups.push((s, e));
            pos = e;
        } else if (f == 17 || f == 19 || f == 20) && w == 0 {
            match rd_int(d, j) {
                Some((v, q)) => {
                    if f == 17 {
                        gran = v;
                    } else if f == 19 {
                        lat0 = v;
                    } else {
                        lon0 = v;
                    }
                    pos = q;
                },
                None => {
                    return Some(MalformedKind::Encoding);
                },
            }
        } else {
            match skip_field(d, j, w) {
                Some(q) => {
                    pos = q;
                },
                None => {
                    return Some(MalformedKind::Encoding);
                },
            }
        }
    }
    let n_groups = groups.len();
    for gi in 0..n_groups
        invariant
            n_groups == groups@.len(),
            forall|x: int|
                0 <= x < groups@.len() ==> (#[trigger] groups@[x]).0 <= groups@[x].1 <= d@.len(),
    {
        let (s, e) = groups[gi];
        match rd_group(d, s, e, gran, lat0, lon0, nodes, ways) {
            Some(k) => {
                return Some(k);
            },
            None => {},
        }
    }
    None
}

/// Decodes one header block: the declared bounding box, if any, in
/// nanodegrees as the wire carries it.
fn rd_header_block(d: &Vec<u8>) -> (r: Option<Option<(i64, i64, i64, i64)>>) {
    let mut bbox: Option<(i64, i64, i64, i64)> = None;
    let end = d.len();
    let mut pos: usize = 0;
    while pos < end
        invariant
            pos <= end == d@.len(),
        decreases end - pos,
    {
        let (f, w, j) = match rd_key(d, pos) {
            Some(t) => t,
            None => {
                return None;
            },
        };
        if f == 1 && w == 2 {
            let (s, e) = match rd_len(d, j) {
                Some(p) => p,
                None => {
                    return None;
                },
            };
            let mut left: i64 = 0;
            let mut right: i64 = 0;
            let mut top: i64 = 0;
            let mut bottom: i64 = 0;
            let mut bp = s;
            while bp < e
                invariant
                    s <= bp <= e <= d@.len(),
                decreases e - bp,
            {
                let (bf, bw, bj) = match rd_key(d, bp) {
                    Some(t) => t,
                    None => {
                        return None;
                    },
                };
                if bj > e {
                    return None;
                }
                let next = if bf >= 1 && bf <= 4 && bw == 0 {
                    match rd_sint(d, bj) {
                        Some((v, q)) => {
                            if bf == 1 {
                                left = v;
                            } else if bf == 2 {
                                right = v;
                            } else if bf == 3 {
                                top = v;
                            } else {
                                bottom = v;
                            }
                            Some(q)
                        },
                        None => None,
                    }
                } else {
                    skip_field(d, bj, bw)
                };
                match next {
                    Some(q) => {
                        if q > e {
                            return None;
                        }
                        bp = q;
                    },
                    None => {
                        return None;
                    },
                }
            }
            if bbox.is_none() {
                bbox = Some((left, right, top, bottom));
            }
            pos = e;
        } else {
            match skip_field(d, j, w) {
                Some(q) => {
                    pos = q;
                },
                None => {
                    return None;
                },
            }
        }
    }
    Some(bbox)
}

/// The bytes between two positions, copied out.
fn copy_range(d: &Vec<u8>, start: usize, end: usize) -> (r: Vec<u8>)
    requires
        start <= end <= d@.len(),
    ensures
        r@ == d@.subrange(start as int, end as int),
{
    let mut r: Vec<u8> = Vec::new();
    let mut pos = start;
    while pos < end
        invariant
            start <= pos <= end <= d@.len(),
            r@ == d@.subrange(start as int, pos as int),
        decreases end - pos,
    {
        r.push(d[pos]);
        proof {
            assert(r@ =~= d@.subrange(start as int, pos + 1));
        }
        pos = pos + 1;
    }
    r
}

/// The two byte ranges are the same bytes.
fn range_is(d: &Vec<u8>, start: usize, end: usize, pat: &Vec<u8>) -> (r: bool)
    requires
        start <= end <= d@.len(),
{
    if end - start != pat.len() {
        return false;
    }
    let n = pat.len();
    for t in 0..n
        invariant
            n == pat@.len(),
            start + n == end,
            end <= d@.len(),
    {
        if d[start + t] != pat[t] {
            return false;
        }
    }
    true
}

/// Scans a whole byte stream as an extract: every blob frame is
/// decoded, header blocks yield the bounding box (the first one wins),
/// data blocks yield nodes and ways in stream order, and unknown blob
/// types are skipped as the container format directs. Every reason to
/// reject is surfaced as a `Malformed` error; no input panics.
pub(crate) fn scan_extract(data: &Vec<u8>) -> (r: Result<ExtractScan, ParseError>) {
    let mut nodes: Vec<(i64, i64, i64)> = Vec::new();
    let mut ways: Vec<(i64, Vec<i64>)> = Vec::new();
    let mut bbox: Option<(i64, i64, i64, i64)> = None;
    // "OSMHeader" and "OSMData", the two block types the format defines.
    let header_name: Vec<u8> = vec![79, 83, 77, 72, 101, 97, 100, 101, 114];
    let data_name: Vec<u8> = vec![79, 83, 77, 68, 97, 116, 97];
    let len = data.len();
    let mut pos: usize = 0;
    while pos < len
        invariant
            pos <= len == data@.len(),
            header_name@.len() == 9,
            data_name@.len() == 7,
        decreases len - pos,
    {
        if len - pos < 4 {
            return Err(ParseError::Malformed(MalformedKind::Framing));
        }
        let hl = ((data[pos] as usize) << 24) | ((data[pos + 1] as usize) << 16) | ((data[pos
            + 2] as usize) << 8) | (data[pos + 3] as usize);
        if hl > 0x10000 {
            return Err(ParseError::Malformed(MalformedKind::Framing));
        }
        let hstart = pos + 4;
        if len - hstart < hl {
            return Err(ParseError::Malformed(MalformedKind::Framing));
        }
        let hend = hstart + hl;
        // BlobHeader: the block type name and the body size.
        let mut ty: Option<(usize, usize)> = None;
        let mut datasize: Option<i64> = None;
        let mut hp = hstart;
        while hp < hend
            invariant
                hstart <= hp <= hend <= data@.len(),
                ty matches Some(t) ==> t.0 <= t.1 <= data@.len(),
            decreases hend - hp,
        {
            let (f, w, j) = match rd_key(data, hp) {
                Some(t) => t,
                None => {
                    return Err(ParseError::Malformed(MalformedKind::Encoding));
                },
            };
            if j > hend {
                return Err(ParseError::Malformed(MalformedKind::Encoding));
            }
            if f == 1 && w == 2 {
                let (s, e) = match rd_len(data, j) {
                    Some(p) => p,
                    None => {
                        return Err(ParseError::Malformed(MalformedKind::Encoding));
                    },
                };
                if e > hend {
                    return Err(ParseError::Malformed(MalformedKind::Encoding));
                }
                ty = Some((s, e));
                hp = e;
            } else if f == 3 && w == 0 {
                match rd_int(data, j) {
                    Some((v, q)) => {
                        if q > hend {
                            return Err(ParseError::Malformed(MalformedKind::Encoding));
                        }
                        datasize = Some(v);
                        hp = q;
                    },
                    None => {
                        return Err(ParseError::Malformed(MalformedKind::Encoding));
                    },
                }
            } else {
                match skip_field(data, j, w) {
                    Some(q) => {
                        if q > hend {
                            return Err(ParseError::Malformed(MalformedKind::Encoding));
                        }
                        hp = q;
                    },
                    None => {
                        return Err(ParseError::Malformed(MalformedKind::Encoding));
                    },
                }
            }
        }
        let ds = match datasize {
            Some(v) => v,
            None => {
                return Err(ParseError::Malformed(MalformedKind::Framing));
            },
        };
        if ds < 0 || ds > 0x200_0000 {
            return Err(ParseError::Malformed(MalformedKind::Framing));
        }
        let ds = ds as usize;
        if len - hend < ds {
            return Err(ParseError::Malformed(MalformedKind::Framing));
        }
        let bend = hend + ds;
        // Blob: a raw body or a zlib body.
        let mut raw: Option<(usize, usize)> = None;
        let mut zlib: Option<(usize, usize)> = None;
        let mut bp = hend;
        while bp < bend
            invariant
                hend <= bp <= bend <= data@.len(),
                raw matches Some(t) ==> t.0 <= t.1 <= data@.len(),
                zlib matches Some(t) ==> t.0 <= t.1 <= data@.len(),
            decreases bend - bp,
        {
            let (f, w, j) = match rd_key(data, bp) {
                Some(t) => t,
                None => {
                    return Err(ParseError::Malformed(MalformedKind::Encoding));
                },
            };
            if j > bend {
                return Err(ParseError::Malformed(MalformedKind::Encoding));
            }
            if (f == 1 || f == 3) && w == 2 {
                let (s, e) = match rd_len(data, j) {
                    Some(p) => p,
                    None => {
                        return Err(ParseError::Malformed(MalformedKind::Encoding));
                    },
                };
                if e > bend {
                    return Err(ParseError::Malformed(MalformedKind::Encoding));
                }
                if f == 1 {
                    raw = Some((s, e));
                } else {
                    zlib = Some((s, e));
                }
                bp = e;
            } else {
                match skip_field(data, j, w) {
                    Some(q) => {
                        if q > bend {
                            return Err(ParseError::Malformed(MalformedKind::Encoding));
                        }
                        bp = q;
                    },
                    None => {
                        return Err(ParseError::Malformed(MalformedKind::Encoding));
                    },
                }
            }
        }
        let block: Vec<u8> = match raw {
            Some((s, e)) => copy_range(data, s, e),
            None => match zlib {
                Some((s, e)) => {
                    let packed = copy_range(data, s, e);
                    match inflate_zlib(&packed) {
                        Some(v) => v,
                        None => {
                            return Err(ParseError::Malformed(MalformedKind::Inflate));
                        },
                    }
                },
                None => {
                    return Err(ParseError::Malformed(MalformedKind::Compression));
                },
            },
        };
        let (ts, te) = match ty {
            Some(t) => t,
            None => {
                return Err(ParseError::Malformed(MalformedKind::Framing));
            },
        };
        if range_is(data, ts, te, &header_name) {
            match rd_header_block(&block) {
                Some(found) => {
                    if bbox.is_none() {
                        bbox = found;
                    }
                },
                None => {
                    return Err(ParseError::Malformed(MalformedKind::Encoding));
                },
            }
        } else if range_is(data, ts, te, &data_name) {
            match rd_primitive_block(&block, &mut nodes, &mut ways) {
                Some(k) => {
                    return Err(ParseError::Malformed(k));
                },
                None => {},
            }
        }
        pos = bend;
    }
    Ok(ExtractScan { nodes, ways, bbox })
}

} // verus!
