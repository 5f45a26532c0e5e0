//! End-to-end decoding of hand-encoded extract byte streams: a valid
//! extract reads back exactly, adversarial delta streams are rejected
//! as errors rather than overflowing, and the decode agrees with an
//! independent reader on the same bytes.

use urban_network::errors::{MalformedKind, ParseError};
use urban_network::import::read_osm;

fn vi(mut v: u64, out: &mut Vec<u8>) {
    loop {
        let b = (v & 0x7f) as u8;
        v >>= 7;
        if v == 0 {
            out.push(b);
            break;
        }
        out.push(b | 0x80);
    }
}

fn zz(v: i64) -> u64 {
    ((v << 1) ^ (v >> 63)) as u64
}

fn key(f: u64, w: u64, out: &mut Vec<u8>) {
    vi((f << 3) | w, out);
}

fn bytes_field(f: u64, body: &[u8], out: &mut Vec<u8>) {
    key(f, 2, out);
    vi(body.len() as u64, out);
    out.extend_from_slice(body);
}

fn varint_field(f: u64, v: u64, out: &mut Vec<u8>) {
    key(f, 0, out);
    vi(v, out);
}

fn packed_sints(f: u64, vals: &[i64], out: &mut Vec<u8>) {
    let mut body = Vec::new();
    for &v in vals {
        vi(zz(v), &mut body);
    }
    bytes_field(f, &body, out);
}

/// One framed blob: the 4-byte length, the blob header, and the body,
/// raw or zlib-compressed.
fn blob(block_kind: &str, block: &[u8], compress: bool) -> Vec<u8> {
    let mut body = Vec::new();
    if compress {
        let z = miniz_oxide::deflate::compress_to_vec_zlib(block, 6);
        bytes_field(3, &z, &mut body);
    } else {
        bytes_field(1, block, &mut body);
    }
    let mut header = Vec::new();
    bytes_field(1, block_kind.as_bytes(), &mut header);
    varint_field(3, body.len() as u64, &mut header);
    let mut out = Vec::new();
    out.extend_from_slice(&(header.len() as u32).to_be_bytes());
    out.extend_from_slice(&header);
    out.extend_from_slice(&body);
    out
}

fn header_block(b: (i64, i64, i64, i64)) -> Vec<u8> {
    let mut bb = Vec::new();
    key(1, 0, &mut bb);
    vi(zz(b.0), &mut bb);
    key(2, 0, &mut bb);
    vi(zz(b.1), &mut bb);
    key(3, 0, &mut bb);
    vi(zz(b.2), &mut bb);
    key(4, 0, &mut bb);
    vi(zz(b.3), &mut bb);
    let mut blk = Vec::new();
    bytes_field(1, &bb, &mut blk);
    blk
}

/// A data block with one dense-node group (granularity 1, offsets 0,
/// so the wire deltas accumulate straight to nanodegrees) and the
/// given ways.
fn data_block(ids: &[i64], lats: &[i64], lons: &[i64], ways: &[(i64, &[i64])]) -> Vec<u8> {
    let mut group = Vec::new();
    let mut dn = Vec::new();
    packed_sints(1, ids, &mut dn);
    packed_sints(8, lats, &mut dn);
    packed_sints(9, lons, &mut dn);
    bytes_field(2, &dn, &mut group);
    for &(id, refs) in ways {
        let mut wb = Vec::new();
        varint_field(1, id as u64, &mut wb);
        let mut deltas = Vec::new();
        let mut prev = 0i64;
        for &r in refs {
            deltas.push(r - prev);
            prev = r;
        }
        packed_sints(8, &deltas, &mut wb);
        bytes_field(3, &wb, &mut group);
    }
    let mut blk = Vec::new();
    // the (empty) string table the block schema requires
    bytes_field(1, &[], &mut blk);
    bytes_field(2, &group, &mut blk);
    varint_field(17, 1, &mut blk);
    blk
}

const BBOX: (i64, i64, i64, i64) = (-73_990_000_000, -73_970_000_000, 40_740_000_000, 40_720_000_000);

/// Four nodes at known coordinates (deltas of ids and coordinates on
/// the wire), three ways: two real, one with no references, and one
/// node no way references.
fn sample_extract(compress: bool) -> Vec<u8> {
    // ids 1, 2, 3, 9; coordinates in whole nanodegrees
    let ids = [1, 1, 1, 6];
    let lats = [40_730_000_000, 1_000_000, 1_500_000, 10];
    let lons = [-73_985_000_000, 1_000_000, 2_000_000, 10];
    let ways: &[(i64, &[i64])] = &[(100, &[1, 2]), (200, &[2, 3]), (300, &[])];
    let mut data = blob("OSMHeader", &header_block(BBOX), compress);
    data.extend_from_slice(&blob("OSMData", &data_block(&ids, &lats, &lons, ways), compress));
    data
}

#[test]
fn valid_extract_reads_back_exactly() {
    let im = read_osm(&sample_extract(true)).unwrap();
    let c = &im.components;
    assert_eq!(c.bounding_box.left, BBOX.0);
    assert_eq!(c.bounding_box.right, BBOX.1);
    assert_eq!(c.bounding_box.top, BBOX.2);
    assert_eq!(c.bounding_box.bottom, BBOX.3);
    // Node 9 is referenced by no way and is not gathered.
    assert_eq!(c.nodes.len(), 3);
    assert_eq!(
        (c.nodes[0].id, c.nodes[0].nano_lat, c.nodes[0].nano_lon),
        (1, 40_730_000_000, -73_985_000_000)
    );
    assert_eq!(
        (c.nodes[1].id, c.nodes[1].nano_lat, c.nodes[1].nano_lon),
        (2, 40_731_000_000, -73_984_000_000)
    );
    assert_eq!(
        (c.nodes[2].id, c.nodes[2].nano_lat, c.nodes[2].nano_lon),
        (3, 40_732_500_000, -73_982_000_000)
    );
    // The empty way is skipped with a diagnostic, not fatal.
    assert_eq!(c.ways.len(), 2);
    assert_eq!((c.ways[0].id, c.ways[0].node_ids.clone()), (100, vec![1, 2]));
    assert_eq!((c.ways[1].id, c.ways[1].node_ids.clone()), (200, vec![2, 3]));
    assert_eq!(c.ways[0].segments.len(), 1);
    assert_eq!(
        (c.ways[0].segments[0].u_id, c.ways[0].segments[0].v_id),
        (1, 2)
    );
    assert_eq!(im.report.empty_ways, vec![300]);
}

#[test]
fn raw_and_compressed_bodies_read_alike() {
    let a = read_osm(&sample_extract(true)).unwrap();
    let b = read_osm(&sample_extract(false)).unwrap();
    assert_eq!(a.components.nodes, b.components.nodes);
    assert_eq!(a.components.ways, b.components.ways);
    assert_eq!(a.components.bounding_box, b.components.bounding_box);
}

#[test]
fn overflowing_id_deltas_are_rejected_not_wrapped() {
    // Two maximal id deltas: their accumulation leaves the 64-bit
    // range. The decode must surface an error — this is exactly the
    // stream shape that would overflow an unchecked accumulator.
    let ids = [i64::MAX, i64::MAX];
    let lats = [0, 0];
    let lons = [0, 0];
    let mut data = blob("OSMHeader", &header_block(BBOX), true);
    data.extend_from_slice(&blob("OSMData", &data_block(&ids, &lats, &lons, &[]), true));
    assert_eq!(
        read_osm(&data).err(),
        Some(ParseError::Malformed(MalformedKind::Arithmetic))
    );
}

#[test]
fn overflowing_way_ref_deltas_are_rejected_not_wrapped() {
    let mut wb = Vec::new();
    varint_field(1, 7, &mut wb);
    packed_sints(8, &[i64::MAX, i64::MAX], &mut wb);
    let mut group = Vec::new();
    bytes_field(3, &wb, &mut group);
    let mut blk = Vec::new();
    bytes_field(2, &group, &mut blk);
    let mut data = blob("OSMHeader", &header_block(BBOX), true);
    data.extend_from_slice(&blob("OSMData", &blk, true));
    assert_eq!(
        read_osm(&data).err(),
        Some(ParseError::Malformed(MalformedKind::Arithmetic))
    );
}

#[test]
fn mismatched_dense_arrays_are_rejected() {
    let mut data = blob("OSMHeader", &header_block(BBOX), true);
    data.extend_from_slice(&blob("OSMData", &data_block(&[1, 1], &[5], &[5, 5], &[]), true));
    assert_eq!(
        read_osm(&data).err(),
        Some(ParseError::Malformed(MalformedKind::DenseShape))
    );
}

#[test]
fn granularity_and_offsets_scale_coordinates() {
    // One dense node with raw coordinate 5/7, granularity 100, offsets
    // 1000 and 2000: nanodegrees are offset + granularity * raw.
    let mut dn = Vec::new();
    packed_sints(1, &[42], &mut dn);
    packed_sints(8, &[5], &mut dn);
    packed_sints(9, &[7], &mut dn);
    let mut group = Vec::new();
    bytes_field(2, &dn, &mut group);
    let mut wb = Vec::new();
    varint_field(1, 9, &mut wb);
    packed_sints(8, &[42, 0], &mut wb);
    bytes_field(3, &wb, &mut group);
    let mut blk = Vec::new();
    bytes_field(1, &[], &mut blk);
    bytes_field(2, &group, &mut blk);
    varint_field(17, 100, &mut blk);
    varint_field(19, 1000, &mut blk);
    varint_field(20, 2000, &mut blk);
    let mut data = blob("OSMHeader", &header_block(BBOX), true);
    data.extend_from_slice(&blob("OSMData", &blk, true));
    let im = read_osm(&data).unwrap();
    assert_eq!(im.components.nodes.len(), 1);
    assert_eq!(
        (
            im.components.nodes[0].id,
            im.components.nodes[0].nano_lat,
            im.components.nodes[0].nano_lon
        ),
        (42, 1000 + 100 * 5, 2000 + 100 * 7)
    );
    // The way repeats node 42 twice (a zero delta), giving one segment.
    assert_eq!(im.components.ways[0].node_ids, vec![42, 42]);
}

#[test]
fn unknown_blob_types_and_fields_are_skipped() {
    // A blob of an unknown type between header and data must be walked
    // past, and unknown fields inside messages ignored.
    let mut data = blob("OSMHeader", &header_block(BBOX), true);
    data.extend_from_slice(&blob("SomeOtherBlock", &[1, 2, 3, 4], false));
    let mut dn = Vec::new();
    packed_sints(1, &[1], &mut dn);
    packed_sints(8, &[10], &mut dn);
    packed_sints(9, &[20], &mut dn);
    // an unknown varint field in the dense message
    varint_field(15, 99, &mut dn);
    let mut group = Vec::new();
    bytes_field(2, &dn, &mut group);
    let mut wb = Vec::new();
    varint_field(1, 5, &mut wb);
    packed_sints(8, &[1, 0], &mut wb);
    // an unknown length-delimited field in the way message
    bytes_field(20, &[9, 9], &mut wb);
    bytes_field(3, &wb, &mut group);
    let mut blk = Vec::new();
    bytes_field(1, &[], &mut blk);
    bytes_field(2, &group, &mut blk);
    varint_field(17, 1, &mut blk);
    data.extend_from_slice(&blob("OSMData", &blk, true));
    let im = read_osm(&data).unwrap();
    assert_eq!(im.components.nodes.len(), 1);
    assert_eq!(im.components.nodes[0].nano_lat, 10);
    assert_eq!(im.components.ways[0].node_ids, vec![1, 1]);
}

#[test]
fn truncated_frame_is_rejected() {
    let mut data = sample_extract(true);
    data.truncate(data.len() - 3);
    assert!(matches!(read_osm(&data), Err(ParseError::Malformed(_))));
}

#[test]
fn decode_agrees_with_an_independent_reader() {
    let data = sample_extract(true);
    // The independent reader, over the same bytes.
    let mut other_nodes: Vec<(i64, i64, i64)> = Vec::new();
    let mut other_ways: Vec<(i64, Vec<i64>)> = Vec::new();
    let reader = osmpbf::ElementReader::new(std::io::Cursor::new(&data[..]));
    reader
        .for_each(|el| match el {
            osmpbf::Element::Node(n) => other_nodes.push((n.id(), n.nano_lat(), n.nano_lon())),
            osmpbf::Element::DenseNode(n) => {
                other_nodes.push((n.id(), n.nano_lat(), n.nano_lon()))
            },
            osmpbf::Element::Way(w) => other_ways.push((w.id(), w.refs().collect())),
            osmpbf::Element::Relation(_) => {},
        })
        .unwrap();
    let im = read_osm(&data).unwrap();
    // This crate gathers only way-referenced nodes and skips empty
    // ways; apply the same rules to the independent reader's output.
    let referenced: Vec<i64> = other_ways.iter().flat_map(|w| w.1.iter().copied()).collect();
    let other_kept: Vec<(i64, i64, i64)> = other_nodes
        .into_iter()
        .filter(|n| referenced.contains(&n.0))
        .collect();
    let ours: Vec<(i64, i64, i64)> = im
        .components
        .nodes
        .iter()
        .map(|n| (n.id, n.nano_lat, n.nano_lon))
        .collect();
    assert_eq!(ours, other_kept);
    let other_nonempty: Vec<(i64, Vec<i64>)> =
        other_ways.into_iter().filter(|w| !w.1.is_empty()).collect();
    let our_ways: Vec<(i64, Vec<i64>)> = im
        .components
        .ways
        .iter()
        .map(|w| (w.id, w.node_ids.clone()))
        .collect();
    assert_eq!(our_ways, other_nonempty);
}
