//! Import of a binary geospatial extract: raw node and way records,
//! the verified decode of the byte stream, and the verified assembly
//! of ways into length-bearing segments.

use crate::edge::{EdgeSpec, StreetEdgeLabel};
use crate::errors::ParseError;
use crate::geom::{GeoPoint, MAX_NANO_LAT, MAX_NANO_LON};
use crate::node::StreetNode;
use crate::pbf::{scan_extract, ExtractScan};
use std::collections::HashMap;
use vstd::prelude::*;

verus! {

broadcast use vstd::std_specs::hash::group_hash_axioms;

/// A raw node of the extract: external identifier and fixed-point
/// coordinate, at the full precision the format carries.
#[derive(Clone, Copy, Debug, PartialEq, Eq, Hash, Structural)]
pub struct OsmNodeInfo {
    pub id: i64,
    pub nano_lat: i64,
    pub nano_lon: i64,
}

/// One edge-worthy piece of a way, between two consecutive node
/// references; its length is attached by the resolver, and stays absent
/// when an endpoint cannot be resolved.
#[derive(Clone, Copy, Debug, PartialEq, Eq)]
pub struct OsmSegmentInfo {
    pub u_id: i64,
    pub v_id: i64,
    pub length: Option<u64>,
}

/// A raw way of the extract: an ordered list of node references, read
/// as a polyline of consecutive segments.
#[derive(Clone, Debug, PartialEq, Eq)]
pub struct OsmWayInfo {
    pub id: i64,
    pub node_ids: Vec<i64>,
    pub segments: Vec<OsmSegmentInfo>,
}

/// The bounding box of the extract header, in fixed-point nanodegrees.
#[derive(Clone, Copy, Debug, PartialEq, Eq, Structural)]
pub struct HeaderBBoxInfo {
    pub left: i64,
    pub right: i64,
    pub top: i64,
    pub bottom: i64,
}

/// The box lies in geographic range, so widths derived from it fit the
/// working arithmetic.
pub open spec fn bbox_ok(b: HeaderBBoxInfo) -> bool {
    &&& -MAX_NANO_LON <= b.left <= MAX_NANO_LON
    &&& -MAX_NANO_LON <= b.right <= MAX_NANO_LON
    &&& -MAX_NANO_LAT <= b.top <= MAX_NANO_LAT
    &&& -MAX_NANO_LAT <= b.bottom <= MAX_NANO_LAT
}

/// Everything gathered from an extract: the raw nodes, the ways with
/// their segments, and the header's bounding box.
#[derive(Clone, Debug)]
pub struct OsmNetworkComponents {
    pub nodes: Vec<OsmNodeInfo>,
    pub ways: Vec<OsmWayInfo>,
    pub bounding_box: HeaderBBoxInfo,
}

impl OsmNetworkComponents {
    /// Empty components with a degenerate box at the origin.
    pub fn new() -> (c: OsmNetworkComponents)
        ensures
            c.nodes@.len() == 0,
            c.ways@.len() == 0,
            c.bounding_box == (HeaderBBoxInfo { left: 0, right: 0, top: 0, bottom: 0 }),
    {
        OsmNetworkComponents {
            nodes: Vec::new(),
            ways: Vec::new(),
            bounding_box: HeaderBBoxInfo { left: 0, right: 0, top: 0, bottom: 0 },
        }
    }
}

/// The diagnostic trail of an import: what was skipped or could not be
/// resolved, recovered from locally rather than failing the build.
#[derive(Clone, Debug)]
pub struct ImportReport {
    /// Identifiers of ways with no node references, skipped whole.
    pub empty_ways: Vec<i64>,
}

/// A parsed extract: its components and the diagnostic trail.
#[derive(Clone, Debug)]
pub struct OsmImport {
    pub components: OsmNetworkComponents,
    pub report: ImportReport,
}

/// The node record a scanned triple stands for.
pub open spec fn node_info_of(t: (i64, i64, i64)) -> OsmNodeInfo {
    OsmNodeInfo { id: t.0, nano_lat: t.1, nano_lon: t.2 }
}

/// The raw-way view of a scan: each way as identifier and reference
/// list.
pub open spec fn scan_ways_view(scan: ExtractScan) -> Seq<(i64, Seq<i64>)> {
    scan.ways@.map_values(|w: (i64, Vec<i64>)| (w.0, w.1@))
}

/// The bounding box a scanned wire quadruple (left, right, top,
/// bottom) stands for.
pub open spec fn bbox_of_quad(q: (i64, i64, i64, i64)) -> HeaderBBoxInfo {
    HeaderBBoxInfo { left: q.0, right: q.1, top: q.2, bottom: q.3 }
}

/// The segments of a polyline over the given node references: one per
/// consecutive pair, with no length attached yet.
pub open spec fn segs_of(refs: Seq<i64>) -> Seq<OsmSegmentInfo> {
    Seq::new(
        if refs.len() == 0 {
            0
        } else {
            (refs.len() - 1) as nat
        },
        |i: int| OsmSegmentInfo { u_id: refs[i], v_id: refs[i + 1], length: None },
    )
}

/// The view of a way record: identifier, node references, segments.
pub open spec fn way_view(w: OsmWayInfo) -> (i64, Seq<i64>, Seq<OsmSegmentInfo>) {
    (w.id, w.node_ids@, w.segments@)
}

/// The ways an import keeps, in view form: each raw way with at least
/// one node reference, in order, with its segments laid out and no
/// lengths attached.
pub open spec fn built_views_of(raws: Seq<(i64, Seq<i64>)>) -> Seq<(i64, Seq<i64>, Seq<OsmSegmentInfo>)>
    decreases raws.len(),
{
    if raws.len() == 0 {
        Seq::empty()
    } else {
        built_views_of(raws.drop_last()) + if raws.last().1.len() > 0 {
            seq![(raws.last().0, raws.last().1, segs_of(raws.last().1))]
        } else {
            Seq::empty()
        }
    }
}

/// The identifiers of the raw ways with no node references, in order:
/// the ways an import skips with a diagnostic.
pub open spec fn skipped_ids_of(raws: Seq<(i64, Seq<i64>)>) -> Seq<i64>
    decreases raws.len(),
{
    if raws.len() == 0 {
        Seq::empty()
    } else {
        skipped_ids_of(raws.drop_last()) + if raws.last().1.len() == 0 {
            seq![raws.last().0]
        } else {
            Seq::empty()
        }
    }
}

/// The external ids a reference list names.
pub open spec fn refs_of_ids(ids: Seq<i64>) -> Set<i64>
    decreases ids.len(),
{
    if ids.len() == 0 {
        Set::empty()
    } else {
        refs_of_ids(ids.drop_last()).insert(ids.last())
    }
}

/// The external ids referenced by any of the ways.
pub open spec fn refs_of_ways(ways: Seq<OsmWayInfo>) -> Set<i64>
    decreases ways.len(),
{
    if ways.len() == 0 {
        Set::empty()
    } else {
        refs_of_ways(ways.drop_last()).union(refs_of_ids(ways.last().node_ids@))
    }
}

/// The node records whose id the reference set names, in order.
pub open spec fn referenced_records_of(records: Seq<OsmNodeInfo>, refs: Set<i64>) -> Seq<
    OsmNodeInfo,
>
    decreases records.len(),
{
    if records.len() == 0 {
        Seq::empty()
    } else {
        referenced_records_of(records.drop_last(), refs) + if refs.contains(records.last().id) {
            seq![records.last()]
        } else {
            Seq::empty()
        }
    }
}

/// Keeps exactly the node records some way references, in record
/// order: the only nodes a segment can ever resolve against, so an
/// import carries no others into the build.
pub fn referenced_nodes(records: &Vec<OsmNodeInfo>, ways: &Vec<OsmWayInfo>) -> (r: Vec<
    OsmNodeInfo,
>)
    ensures
        r@ == referenced_records_of(records@, refs_of_ways(ways@)),
{
    let mut ref_map: HashMap<i64, ()> = HashMap::new();
    proof {
        assert(ways@.take(0) =~= Seq::<OsmWayInfo>::empty());
        assert(ref_map@.dom() =~= refs_of_ways(ways@.take(0)));
    }
    let n_ways = ways.len();
    for wi in 0..n_ways
        invariant
            n_ways == ways@.len(),
            ref_map@.dom() == refs_of_ways(ways@.take(wi as int)),
    {
        let ghost base = refs_of_ways(ways@.take(wi as int));
        proof {
            assert(refs_of_ids(ways@[wi as int].node_ids@.take(0)) =~= Set::<i64>::empty());
            assert(base.union(refs_of_ids(ways@[wi as int].node_ids@.take(0))) =~= base);
        }
        let m = ways[wi].node_ids.len();
        for j in 0..m
            invariant
                n_ways == ways@.len(),
                wi < n_ways,
                m == ways@[wi as int].node_ids@.len(),
                ref_map@.dom() == refs_of_ways(ways@.take(wi as int)).union(
                    refs_of_ids(ways@[wi as int].node_ids@.take(j as int)),
                ),
        {
            proof {
                assert(ways@[wi as int].node_ids@.take(j + 1).drop_last()
                    =~= ways@[wi as int].node_ids@.take(j as int));
            }
            let id = ways[wi].node_ids[j];
            ref_map.insert(id, ());
            proof {
                assert(refs_of_ids(ways@[wi as int].node_ids@.take(j + 1)) =~= refs_of_ids(
                    ways@[wi as int].node_ids@.take(j as int),
                ).insert(id));
                assert(ref_map@.dom() =~= refs_of_ways(ways@.take(wi as int)).union(
                    refs_of_ids(ways@[wi as int].node_ids@.take(j + 1)),
                ));
            }
        }
        proof {
            assert(ways@.take(wi + 1).drop_last() =~= ways@.take(wi as int));
            assert(ways@[wi as int].node_ids@.take(m as int) =~= ways@[wi as int].node_ids@);
            assert(refs_of_ways(ways@.take(wi + 1)) =~= refs_of_ways(ways@.take(wi as int)).union(
                refs_of_ids(ways@[wi as int].node_ids@),
            ));
        }
    }
    proof {
        assert(ways@.take(n_ways as int) =~= ways@);
    }
    let ghost refs = refs_of_ways(ways@);
    let mut r: Vec<OsmNodeInfo> = Vec::new();
    let n_rec = records.len();
    for i in 0..n_rec
        invariant
            n_rec == records@.len(),
            ref_map@.dom() == refs,
            r@ == referenced_records_of(records@.take(i as int), refs),
    {
        proof {
            assert(records@.take(i + 1).drop_last() =~= records@.take(i as int));
        }
        if ref_map.contains_key(&records[i].id) {
            r.push(records[i]);
            proof {
                assert(r@ =~= referenced_records_of(records@.take(i + 1), refs));
            }
        } else {
            proof {
                assert(r@ =~= referenced_records_of(records@.take(i + 1), refs));
            }
        }
    }
    proof {
        assert(records@.take(n_rec as int) =~= records@);
    }
    r
}

/// Assembles an import from a scanned extract: validates the declared
/// bounding box, lays every nonempty way out as segments (an empty way
/// is skipped with a diagnostic, not fatal), and gathers exactly the
/// node records the ways reference — a record no way names cannot
/// anchor a segment and is not carried into the build.
pub fn read_osm_scan(scan: &ExtractScan) -> (r: Result<OsmImport, ParseError>)
    ensures
        r matches Err(ParseError::MissingBoundingBox) <==> scan.bbox is None,
        r matches Err(ParseError::InvalidBoundingBox) <==> (scan.bbox matches Some(q)
            && !bbox_ok(bbox_of_quad(q))),
        r is Ok <==> (scan.bbox matches Some(q) && bbox_ok(bbox_of_quad(q))),
        r matches Ok(im) ==> {
            &&& scan.bbox matches Some(q) && im.components.bounding_box == bbox_of_quad(q)
            &&& im.components.nodes@ == referenced_records_of(
                scan.nodes@.map_values(|t: (i64, i64, i64)| node_info_of(t)),
                refs_of_ways(im.components.ways@),
            )
            &&& im.components.ways@.map_values(|w: OsmWayInfo| way_view(w)) == built_views_of(
                scan_ways_view(*scan),
            )
            &&& im.report.empty_ways@ == skipped_ids_of(scan_ways_view(*scan))
        },
{
    let b = match scan.bbox {
        None => {
            return Err(ParseError::MissingBoundingBox);
        },
        Some(q) => HeaderBBoxInfo { left: q.0, right: q.1, top: q.2, bottom: q.3 },
    };
    if !(-MAX_NANO_LON <= b.left && b.left <= MAX_NANO_LON && -MAX_NANO_LON <= b.right && b.right
        <= MAX_NANO_LON && -MAX_NANO_LAT <= b.top && b.top <= MAX_NANO_LAT && -MAX_NANO_LAT
        <= b.bottom && b.bottom <= MAX_NANO_LAT) {
        return Err(ParseError::InvalidBoundingBox);
    }
    let mut all_nodes: Vec<OsmNodeInfo> = Vec::new();
    let n_nodes = scan.nodes.len();
    for i in 0..n_nodes
        invariant
            n_nodes == scan.nodes@.len(),
            all_nodes@ == scan.nodes@.take(i as int).map_values(
                |t: (i64, i64, i64)| node_info_of(t),
            ),
    {
        let t = scan.nodes[i];
        all_nodes.push(OsmNodeInfo { id: t.0, nano_lat: t.1, nano_lon: t.2 });
        proof {
            assert(all_nodes@ =~= scan.nodes@.take(i + 1).map_values(
                |t: (i64, i64, i64)| node_info_of(t),
            ));
        }
    }
    proof {
        assert(scan.nodes@.take(n_nodes as int) =~= scan.nodes@);
    }
    let ghost raws = scan_ways_view(*scan);
    let mut ways: Vec<OsmWayInfo> = Vec::new();
    let mut empty_ways: Vec<i64> = Vec::new();
    let n_raw = scan.ways.len();
    for i in 0..n_raw
        invariant
            n_raw == scan.ways@.len(),
            raws == scan_ways_view(*scan),
            ways@.map_values(|w: OsmWayInfo| way_view(w)) == built_views_of(raws.take(i as int)),
            empty_ways@ == skipped_ids_of(raws.take(i as int)),
    {
        proof {
            assert(raws.take(i + 1).drop_last() =~= raws.take(i as int));
            assert(raws[i as int] == (scan.ways@[i as int].0, scan.ways@[i as int].1@));
        }
        let way_id = scan.ways[i].0;
        let refs_len = scan.ways[i].1.len();
        if refs_len == 0 {
            empty_ways.push(way_id);
            proof {
                assert(empty_ways@ =~= skipped_ids_of(raws.take(i + 1)));
                assert(ways@.map_values(|w: OsmWayInfo| way_view(w)) =~= built_views_of(
                    raws.take(i + 1),
                ));
            }
        } else {
            let mut node_ids: Vec<i64> = Vec::new();
            let mut segments: Vec<OsmSegmentInfo> = Vec::new();
            for j in 0..refs_len
                invariant
                    n_raw == scan.ways@.len(),
                    i < n_raw,
                    refs_len == scan.ways@[i as int].1@.len(),
                    node_ids@ == scan.ways@[i as int].1@.take(j as int),
            {
                let v = scan.ways[i].1[j];
                node_ids.push(v);
                proof {
                    assert(node_ids@ =~= scan.ways@[i as int].1@.take(j + 1));
                }
            }
            proof {
                assert(node_ids@ =~= scan.ways@[i as int].1@);
            }
            for j in 0..refs_len - 1
                invariant
                    n_raw == scan.ways@.len(),
                    i < n_raw,
                    0 < refs_len == scan.ways@[i as int].1@.len(),
                    node_ids@ == scan.ways@[i as int].1@,
                    segments@.len() == j,
                    forall|k: int|
                        0 <= k < j ==> segments@[k] == segs_of(scan.ways@[i as int].1@)[k],
            {
                let u_id = node_ids[j];
                let v_id = node_ids[j + 1];
                segments.push(OsmSegmentInfo { u_id, v_id, length: None });
            }
            proof {
                assert(segments@ =~= segs_of(scan.ways@[i as int].1@));
            }
            ways.push(OsmWayInfo { id: way_id, node_ids, segments });
            proof {
                assert(ways@.map_values(|w: OsmWayInfo| way_view(w)) =~= built_views_of(
                    raws.take(i + 1),
                ));
                assert(empty_ways@ =~= skipped_ids_of(raws.take(i + 1)));
            }
        }
    }
    proof {
        assert(raws.take(n_raw as int) =~= raws);
    }
    let nodes = referenced_nodes(&all_nodes, &ways);
    Ok(
        OsmImport {
            components: OsmNetworkComponents { nodes, ways, bounding_box: b },
            report: ImportReport { empty_ways },
        },
    )
}

/// Every way an import keeps is a nonempty polyline whose segments are
/// exactly the consecutive pairs of its node references.
pub proof fn lemma_built_views_wf(raws: Seq<(i64, Seq<i64>)>)
    ensures
        forall|k: int|
            0 <= k < built_views_of(raws).len() ==> {
                &&& (#[trigger] built_views_of(raws)[k]).1.len() > 0
                &&& built_views_of(raws)[k].2 == segs_of(built_views_of(raws)[k].1)
            },
    decreases raws.len(),
{
    if raws.len() > 0 {
        lemma_built_views_wf(raws.drop_last());
        let prev = built_views_of(raws.drop_last());
        assert forall|k: int| 0 <= k < built_views_of(raws).len() implies {
            &&& (#[trigger] built_views_of(raws)[k]).1.len() > 0
            &&& built_views_of(raws)[k].2 == segs_of(built_views_of(raws)[k].1)
        } by {
            if k < prev.len() {
                assert(built_views_of(raws)[k] == prev[k]);
            }
        }
    }
}

/// Every record the referenced-node filter keeps carries an id some
/// way references.
pub proof fn lemma_referenced_ids(records: Seq<OsmNodeInfo>, refs: Set<i64>)
    ensures
        forall|k: int|
            0 <= k < referenced_records_of(records, refs).len() ==> refs.contains(
                (#[trigger] referenced_records_of(records, refs)[k]).id,
            ),
    decreases records.len(),
{
    if records.len() > 0 {
        lemma_referenced_ids(records.drop_last(), refs);
        let prev = referenced_records_of(records.drop_last(), refs);
        assert forall|k: int|
            0 <= k < referenced_records_of(records, refs).len() implies refs.contains(
            (#[trigger] referenced_records_of(records, refs)[k]).id) by {
            if k < prev.len() {
                assert(referenced_records_of(records, refs)[k] == prev[k]);
            }
        }
    }
}

/// Reads an extract from its byte stream: the verified container scan,
/// then the assembly. Whatever the bytes hold, the call returns — a
/// stream that cannot be decoded is rejected as `Malformed`, never
/// wrapped around or panicked over. On success the bounding box is in
/// geographic range, every kept way is a nonempty polyline whose
/// segments are the consecutive pairs of its references, and every
/// gathered node is referenced by some way.
pub fn read_osm(data: &Vec<u8>) -> (r: Result<OsmImport, ParseError>)
    ensures
        r matches Ok(im) ==> {
            &&& bbox_ok(im.components.bounding_box)
            &&& forall|k: int|
                0 <= k < im.components.ways@.len() ==> {
                    let w = #[trigger] im.components.ways@[k];
                    &&& w.node_ids@.len() > 0
                    &&& w.segments@ == segs_of(w.node_ids@)
                }
            &&& forall|k: int|
                0 <= k < im.components.nodes@.len() ==> refs_of_ways(
                    im.components.ways@,
                ).contains((#[trigger] im.components.nodes@[k]).id)
        },
{
    let scan = match scan_extract(data) {
        Ok(s) => s,
        Err(e) => {
            return Err(e);
        },
    };
    let r = read_osm_scan(&scan);
    proof {
        if r is Ok {
            let im = r->Ok_0;
            let ways = im.components.ways@;
            let built = built_views_of(scan_ways_view(scan));
            lemma_built_views_wf(scan_ways_view(scan));
            assert forall|k: int| 0 <= k < ways.len() implies {
                let w = #[trigger] ways[k];
                &&& w.node_ids@.len() > 0
                &&& w.segments@ == segs_of(w.node_ids@)
            } by {
                assert(ways.map_values(|w: OsmWayInfo| way_view(w))[k] == way_view(ways[k]));
                assert(way_view(ways[k]) == built[k]);
            }
            lemma_referenced_ids(
                scan.nodes@.map_values(|t: (i64, i64, i64)| node_info_of(t)),
                refs_of_ways(ways),
            );
        }
    }
    r
}

/// The coordinate a raw node record carries.
pub open spec fn point_of(n: OsmNodeInfo) -> GeoPoint {
    GeoPoint { nano_lat: n.nano_lat, nano_lon: n.nano_lon }
}

impl From<OsmNodeInfo> for StreetNode {
    /// The graph node a raw record becomes: same identifier, same
    /// coordinate, kept in fixed point.
    fn from(val: OsmNodeInfo) -> (n: StreetNode) {
        StreetNode { osm_id: val.id, loc: GeoPoint { nano_lat: val.nano_lat, nano_lon: val.nano_lon } }
    }
}

impl vstd::std_specs::convert::FromSpecImpl<OsmNodeInfo> for StreetNode {
    open spec fn obeys_from_spec() -> bool {
        true
    }

    open spec fn from_spec(val: OsmNodeInfo) -> StreetNode {
        StreetNode { osm_id: val.id, loc: point_of(val) }
    }
}

/// The identifier-to-coordinate map of a node list, first record wins,
/// as it does when the graph is built.
pub open spec fn locator_map_of(nodes: Seq<OsmNodeInfo>) -> Map<i64, GeoPoint>
    decreases nodes.len(),
{
    if nodes.len() == 0 {
        Map::empty()
    } else {
        let m = locator_map_of(nodes.drop_last());
        if m.contains_key(nodes.last().id) {
            m
        } else {
            m.insert(nodes.last().id, point_of(nodes.last()))
        }
    }
}

/// Resolves external node identifiers to coordinates, for attaching
/// segment lengths.
pub struct NodeLocator {
    pub map: HashMap<i64, GeoPoint>,
}

impl NodeLocator {
    /// Gathers the node set into a lookup table.
    pub fn build(nodes: &Vec<OsmNodeInfo>) -> (loc: NodeLocator)
        ensures
            loc.map@ == locator_map_of(nodes@),
    {
        let mut map: HashMap<i64, GeoPoint> = HashMap::new();
        let n = nodes.len();
        for i in 0..n
            invariant
                n == nodes@.len(),
                map@ == locator_map_of(nodes@.take(i as int)),
        {
            proof {
                assert(nodes@.take(i + 1).drop_last() =~= nodes@.take(i as int));
            }
            if !map.contains_key(&nodes[i].id) {
                map.insert(nodes[i].id, GeoPoint { nano_lat: nodes[i].nano_lat, nano_lon: nodes[i].nano_lon });
            }
        }
        proof {
            assert(nodes@.take(n as int) =~= nodes@);
        }
        NodeLocator { map }
    }

    /// The coordinate the identifier resolves to, if it is known.
    pub fn lookup(&self, id: i64) -> (r: Option<GeoPoint>)
        ensures
            match r {
                Some(p) => self.map@.contains_key(id) && p == self.map@[id],
                None => !self.map@.contains_key(id),
            },
    {
        match self.map.get(&id) {
            Some(p) => Some(*p),
            None => None,
        }
    }
}

/// The coordinate pair a segment resolves to, if both its endpoints are
/// in the node set.
pub open spec fn seg_query(m: Map<i64, GeoPoint>, s: OsmSegmentInfo) -> Option<(GeoPoint, GeoPoint)> {
    if m.contains_key(s.u_id) && m.contains_key(s.v_id) {
        Some((m[s.u_id], m[s.v_id]))
    } else {
        None
    }
}

/// The coordinate pair of each segment of the way: `Some` where both
/// endpoints resolve, `None` where one is missing, in which case no
/// length can be computed and the segment is dropped from the graph
/// with a diagnostic. The caller evaluates the geodesic distance of
/// each pair (a floating-point step, outside this crate) and hands the
/// results to `way_with_lengths`.
pub fn way_segment_queries(way: &OsmWayInfo, loc: &NodeLocator) -> (r: Vec<
    Option<(GeoPoint, GeoPoint)>,
>)
    ensures
        r@.len() == way.segments@.len(),
        forall|k: int|
            0 <= k < way.segments@.len() ==> r@[k] == seg_query(
                loc.map@,
                #[trigger] way.segments@[k],
            ),
{
    let m = way.segments.len();
    let mut r: Vec<Option<(GeoPoint, GeoPoint)>> = Vec::new();
    for k in 0..m
        invariant
            m == way.segments@.len(),
            r@.len() == k,
            forall|t: int|
                0 <= t < k ==> r@[t] == seg_query(loc.map@, #[trigger] way.segments@[t]),
    {
        let q = match loc.lookup(way.segments[k].u_id) {
            Some(a) => match loc.lookup(way.segments[k].v_id) {
                Some(b) => Some((a, b)),
                None => None,
            },
            None => None,
        };
        r.push(q);
    }
    r
}

/// The way with each segment's length replaced by the matching entry
/// of `lens`: how lengths evaluated by the caller are attached to the
/// segments they were asked for.
pub fn way_with_lengths(way: &OsmWayInfo, lens: &Vec<Option<u64>>) -> (r: OsmWayInfo)
    requires
        lens@.len() == way.segments@.len(),
    ensures
        r.id == way.id,
        r.node_ids@ == way.node_ids@,
        r.segments@.len() == way.segments@.len(),
        forall|k: int|
            0 <= k < way.segments@.len() ==> {
                &&& (#[trigger] r.segments@[k]).u_id == way.segments@[k].u_id
                &&& r.segments@[k].v_id == way.segments@[k].v_id
                &&& r.segments@[k].length == lens@[k]
            },
{
    let m = way.segments.len();
    let mut segments: Vec<OsmSegmentInfo> = Vec::new();
    for k in 0..m
        invariant
            m == way.segments@.len(),
            lens@.len() == way.segments@.len(),
            segments@.len() == k,
            forall|t: int|
                0 <= t < k ==> {
                    &&& (#[trigger] segments@[t]).u_id == way.segments@[t].u_id
                    &&& segments@[t].v_id == way.segments@[t].v_id
                    &&& segments@[t].length == lens@[t]
                },
    {
        segments.push(
            OsmSegmentInfo {
                u_id: way.segments[k].u_id,
                v_id: way.segments[k].v_id,
                length: lens[k],
            },
        );
    }
    let node_ids = crate::util::copied_vec(&way.node_ids);
    OsmWayInfo { id: way.id, node_ids, segments }
}

/// The external-identifier edges a way's segments yield, each labelled
/// with its length and the way's identifier.
pub open spec fn edges_of_segs(segs: Seq<OsmSegmentInfo>, way_id: i64) -> Seq<EdgeSpec>
    decreases segs.len(),
{
    if segs.len() == 0 {
        Seq::empty()
    } else {
        edges_of_segs(segs.drop_last(), way_id) + if segs.last().length is Some {
            seq![
                EdgeSpec {
                    u: segs.last().u_id,
                    v: segs.last().v_id,
                    label: StreetEdgeLabel { len: segs.last().length->Some_0, id: way_id },
                },
            ]
        } else {
            Seq::empty()
        }
    }
}

impl OsmWayInfo {
    /// The way's length-bearing segments as external-identifier edges,
    /// labelled with length and originating way. A segment without a
    /// computed length cannot be placed in the graph and is left out.
    pub fn as_edges(&self) -> (r: Vec<EdgeSpec>)
        ensures
            r@ == edges_of_segs(self.segments@, self.id),
    {
        let m = self.segments.len();
        let mut r: Vec<EdgeSpec> = Vec::new();
        for k in 0..m
            invariant
                m == self.segments@.len(),
                r@ == edges_of_segs(self.segments@.take(k as int), self.id),
        {
            proof {
                assert(self.segments@.take(k + 1).drop_last() =~= self.segments@.take(k as int));
            }
            match self.segments[k].length {
                Some(l) => {
                    r.push(
                        EdgeSpec {
                            u: self.segments[k].u_id,
                            v: self.segments[k].v_id,
                            label: StreetEdgeLabel { len: l, id: self.id },
                        },
                    );
                    proof {
                        assert(r@ =~= edges_of_segs(self.segments@.take(k + 1), self.id));
                    }
                },
                None => {
                    proof {
                        assert(r@ =~= edges_of_segs(self.segments@.take(k + 1), self.id));
                    }
                },
            }
        }
        proof {
            assert(self.segments@.take(m as int) =~= self.segments@);
        }
        r
    }
}

} // verus!
