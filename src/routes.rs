use vstd::prelude::*;

use crate::errors::{decimal, indexed_field, Finding, FindingKind, InfraError, PathEndpointField};
use crate::graph::Graph;
use crate::infra_cache::{find_point, find_track, InfraCache, TrackSectionCache};
use crate::objects::{same_ref, Direction, DirectionalTrackRange, ObjectRef, ObjectType, Route};

verus! {

/// The mathematical contents of a sequence of findings.
pub open spec fn views(s: Seq<InfraError>) -> Seq<Finding> {
    s.map_values(|e: InfraError| e@)
}

proof fn lemma_views_push(s: Seq<InfraError>, e: InfraError)
    ensures
        views(s.push(e)) == views(s).push(e@),
{
    assert(views(s.push(e)) =~= views(s).push(e@));
}

proof fn lemma_views_concat(a: Seq<InfraError>, b: Seq<InfraError>)
    ensures
        views(a + b) == views(a) + views(b),
{
    assert(views(a + b) =~= views(a) + views(b));
}

pub open spec fn finding(route_id: Seq<char>, field: Seq<char>, kind: FindingKind) -> Finding {
    Finding { obj_id: route_id, field, kind }
}

/// The field path of the `i`-th segment of a path.
pub open spec fn segment_field(i: int) -> Seq<char> {
    "path."@ + decimal(i as nat) + ""@
}

/// A bound of segment `i` (`suffix` names it) lies outside `[0, length]`.
pub open spec fn bound_findings(route_id: Seq<char>, i: int, pos: i64, suffix: Seq<char>, length: i64) -> Seq<Finding> {
    if 0 <= pos && pos <= length {
        seq![]
    } else {
        seq![finding(route_id, "path."@ + decimal(i as nat) + suffix, FindingKind::OutOfRange { position: pos, min: 0, max: length })]
    }
}

/// Reference and bounds findings of the `i`-th segment.
pub open spec fn segment_findings(c: InfraCache, route_id: Seq<char>, i: int, seg: DirectionalTrackRange) -> Seq<Finding> {
    match find_track(c.track_sections@, seg.track.obj_id@) {
        None => seq![finding(route_id, segment_field(i), FindingKind::InvalidReference {
            obj_type: ObjectType::TrackSection,
            obj_id: seg.track.obj_id@,
        })],
        Some(t) => bound_findings(route_id, i, seg.begin, ".begin"@, t.length) + bound_findings(
            route_id,
            i,
            seg.end,
            ".end"@,
            t.length,
        ),
    }
}

/// Reference and bounds findings of the first `n` segments of the route's path.
pub open spec fn bounds_findings(c: InfraCache, r: Route, n: int) -> Seq<Finding>
    decreases n,
{
    if n <= 0 {
        seq![]
    } else {
        bounds_findings(c, r, n - 1) + segment_findings(c, r.id@, n - 1, r.path@[n - 1])
    }
}

/// `length` of the track section with this id, if the cache holds it.
pub open spec fn track_length(c: InfraCache, id: Seq<char>) -> Option<i64> {
    match find_track(c.track_sections@, id) {
        Some(t) => Some(t.length),
        None => None,
    }
}

/// The adjacency graph leads from where `prev` is left to where `next` is entered.
pub open spec fn endpoints_connected(g: Graph, prev: DirectionalTrackRange, next: DirectionalTrackRange) -> bool {
    exists|k: int|
        0 <= k < g.edges@.len() && (#[trigger] g.edges@[k]).from.endpoint == prev.trailing_endpoint()
            && g.edges@[k].from.track@ == prev.track.obj_id@ && g.edges@[k].to.endpoint
            == next.leading_endpoint() && g.edges@[k].to.track@ == next.track.obj_id@
}

/// Travel can go on from `prev` into `next`.
pub open spec fn pair_continuous(c: InfraCache, g: Graph, prev: DirectionalTrackRange, next: DirectionalTrackRange) -> bool {
    if prev.track.obj_type == next.track.obj_type && prev.track.obj_id@ == next.track.obj_id@ {
        prev.direction == next.direction && prev.trailing_pos() == next.leading_pos()
    } else {
        &&& endpoints_connected(g, prev, next)
        &&& match track_length(c, prev.track.obj_id@) {
            Some(len) => prev.trailing_pos() == (if prev.direction == Direction::StartToStop { len } else { 0 }),
            None => false,
        }
        &&& match track_length(c, next.track.obj_id@) {
            Some(len) => next.leading_pos() == (if next.direction == Direction::StartToStop { 0 } else { len }),
            None => false,
        }
    }
}

/// Continuity finding of the pair of segments `k` and `k + 1`, if any.
pub open spec fn pair_findings(c: InfraCache, g: Graph, r: Route, k: int) -> Seq<Finding> {
    if pair_continuous(c, g, r.path@[k], r.path@[k + 1]) {
        seq![]
    } else {
        seq![finding(r.id@, segment_field(k + 1), FindingKind::PathIsNotContinuous)]
    }
}

/// Continuity findings of the first `n` adjacent pairs of the route's path.
pub open spec fn continuity_findings(c: InfraCache, g: Graph, r: Route, n: int) -> Seq<Finding>
    decreases n,
{
    if n <= 0 {
        seq![]
    } else {
        continuity_findings(c, g, r, n - 1) + pair_findings(c, g, r, n - 1)
    }
}

/// Track and position of an object that can be placed: a detector or a buffer stop.
pub open spec fn resolve(c: InfraCache, obj: ObjectRef) -> Option<(Seq<char>, i64)> {
    let found = match obj.obj_type {
        ObjectType::Detector => find_point(c.detectors@, obj.obj_id@),
        ObjectType::BufferStop => find_point(c.buffer_stops@, obj.obj_id@),
        _ => None,
    };
    match found {
        Some(p) => Some((p.track@, p.position)),
        None => None,
    }
}

impl PathEndpointField {
    /// The segment at this end of the path.
    pub open spec fn end_segment(self, path: Seq<DirectionalTrackRange>) -> DirectionalTrackRange {
        match self {
            PathEndpointField::EntryPoint => path[0],
            PathEndpointField::ExitPoint => path.last(),
        }
    }

    /// Track and position where the path starts (entry) or stops (exit).
    pub open spec fn path_location(self, path: Seq<DirectionalTrackRange>) -> (Seq<char>, i64) {
        let seg = self.end_segment(path);
        match self {
            PathEndpointField::EntryPoint => (seg.track.obj_id@, seg.leading_pos()),
            PathEndpointField::ExitPoint => (seg.track.obj_id@, seg.trailing_pos()),
        }
    }

    pub open spec fn route_endpoint(self, r: Route) -> ObjectRef {
        match self {
            PathEndpointField::EntryPoint => r.entry_point,
            PathEndpointField::ExitPoint => r.exit_point,
        }
    }

    /// Given a non-empty path, the track id and position of its entry or exit.
    pub fn get_path_location(&self, path: &[DirectionalTrackRange]) -> (r: (String, i64))
        requires
            path@.len() > 0,
        ensures
            (r.0@, r.1) == self.path_location(path@),
    {
        let track_range = match self {
            PathEndpointField::EntryPoint => &path[0],
            PathEndpointField::ExitPoint => &path[path.len() - 1],
        };
        let pos = match (self, &track_range.direction) {
            (PathEndpointField::EntryPoint, Direction::StartToStop) => track_range.begin,
            (PathEndpointField::EntryPoint, Direction::StopToStart) => track_range.end,
            (PathEndpointField::ExitPoint, Direction::StartToStop) => track_range.end,
            (PathEndpointField::ExitPoint, Direction::StopToStart) => track_range.begin,
        };
        (track_range.track.obj_id.clone(), pos)
    }

    /// The route's declared entry or exit point.
    pub fn get_route_endpoint<'a>(&self, route: &'a Route) -> (r: &'a ObjectRef)
        ensures
            *r == self.route_endpoint(*route),
    {
        match self {
            PathEndpointField::EntryPoint => &route.entry_point,
            PathEndpointField::ExitPoint => &route.exit_point,
        }
    }
}

/// Finding about the route's entry or exit point, if any.
pub open spec fn endpoint_findings(c: InfraCache, r: Route, field: PathEndpointField) -> Seq<Finding> {
    let declared = field.route_endpoint(r);
    match resolve(c, declared) {
        None => seq![finding(r.id@, field.spec_name(), FindingKind::InvalidReference {
            obj_type: declared.obj_type,
            obj_id: declared.obj_id@,
        })],
        Some((track, pos)) => {
            let (expected_track, expected_position) = field.path_location(r.path@);
            if expected_track == track && expected_position == pos {
                seq![]
            } else {
                seq![finding(r.id@, "path"@, FindingKind::PathDoesNotMatchEndpoints {
                    expected_track,
                    expected_position,
                    actual_track: track,
                    actual_position: pos,
                    endpoint_field: field,
                })]
            }
        },
    }
}

/// Some segment of `path` lies on `track` and covers `pos`, bounds included.
pub open spec fn covered(path: Seq<DirectionalTrackRange>, track: Seq<char>, pos: i64) -> bool {
    exists|k: int|
        0 <= k < path.len() && (#[trigger] path[k]).track.obj_id@ == track && path[k].begin <= pos
            && pos <= path[k].end
}

/// Findings about the `i`-th release detector.
pub open spec fn detector_findings(c: InfraCache, r: Route, i: int) -> Seq<Finding> {
    let field = "release_detector."@ + decimal(i as nat) + ""@;
    let det = r.release_detectors@[i];
    match resolve(c, det) {
        None => seq![finding(r.id@, field, FindingKind::InvalidReference {
            obj_type: det.obj_type,
            obj_id: det.obj_id@,
        })],
        Some((track, pos)) => if covered(r.path@, track, pos) {
            seq![]
        } else {
            seq![finding(r.id@, field, FindingKind::ObjectOutOfPath { position: pos, track })]
        },
    }
}

/// Findings about the first `n` release detectors.
pub open spec fn detectors_findings(c: InfraCache, r: Route, n: int) -> Seq<Finding>
    decreases n,
{
    if n <= 0 {
        seq![]
    } else {
        detectors_findings(c, r, n - 1) + detector_findings(c, r, n - 1)
    }
}

/// All findings about one route, in pass order.
pub open spec fn route_findings(c: InfraCache, g: Graph, r: Route) -> Seq<Finding> {
    let n = r.path@.len() as int;
    if n == 0 {
        seq![finding(r.id@, "path"@, FindingKind::EmptyPath)]
    } else {
        let bounds = bounds_findings(c, r, n);
        bounds + (if bounds.len() == 0 {
            continuity_findings(c, g, r, n - 1)
        } else {
            seq![]
        }) + endpoint_findings(c, r, PathEndpointField::EntryPoint) + endpoint_findings(
            c,
            r,
            PathEndpointField::ExitPoint,
        ) + detectors_findings(c, r, r.release_detectors@.len() as int)
    }
}

/// Findings about the first `n` routes of the cache, route after route.
pub open spec fn all_findings(c: InfraCache, g: Graph, n: int) -> Seq<Finding>
    decreases n,
{
    if n <= 0 {
        seq![]
    } else {
        all_findings(c, g, n - 1) + route_findings(c, g, c.routes@[n - 1])
    }
}

/// Given a reference, the track id and position of the object it designates;
/// `None` where it is not a detector or a buffer stop, or dangles.
pub fn get_object(object: &ObjectRef, infra_cache: &InfraCache) -> (r: Option<(String, i64)>)
    ensures
        r is None <==> resolve(*infra_cache, *object) is None,
        r matches Some(p) ==> resolve(*infra_cache, *object) == Some((p.0@, p.1)),
{
    let found = match object.obj_type {
        ObjectType::Detector => infra_cache.get_detector(&object.obj_id),
        ObjectType::BufferStop => infra_cache.get_buffer_stop(&object.obj_id),
        _ => None,
    };
    match found {
        Some(p) => Some((p.track.clone(), p.position)),
        None => None,
    }
}

/// Appends an out-of-range finding when `pos` is outside `[0, length]`.
fn check_bound(errors: &mut Vec<InfraError>, route_id: &str, index: usize, pos: i64, suffix: &str, length: i64)
    ensures
        views(final(errors)@) == views(old(errors)@) + bound_findings(route_id@, index as int, pos, suffix@, length),
{
    if !(0 <= pos && pos <= length) {
        let field = indexed_field("path.", index, suffix);
        let e = InfraError::new_out_of_range(route_id, field.as_str(), pos, [0, length]);
        proof {
            lemma_views_push(errors@, e);
        }
        errors.push(e);
    }
    assert(views(final(errors)@) =~= views(old(errors)@) + bound_findings(route_id@, index as int, pos, suffix@, length));
}

/// Reference and bounds checks of every segment of the route's path.
pub fn check_bounds(infra_cache: &InfraCache, route: &Route) -> (r: Vec<InfraError>)
    ensures
        views(r@) == bounds_findings(*infra_cache, *route, route.path@.len() as int),
{
    let mut errors: Vec<InfraError> = Vec::new();
    let mut index: usize = 0;
    while index < route.path.len()
        invariant
            index <= route.path@.len(),
            views(errors@) == bounds_findings(*infra_cache, *route, index as int),
        decreases route.path@.len() - index,
    {
        let seg = &route.path[index];
        let track_id = &seg.track.obj_id;
        let ghost before = views(errors@);
        match infra_cache.get_track_section(track_id) {
            None => {
                let obj_ref = ObjectRef::new(ObjectType::TrackSection, track_id.as_str());
                let field = indexed_field("path.", index, "");
                let e = InfraError::new_invalid_reference(route.id.as_str(), field.as_str(), obj_ref);
                proof {
                    lemma_views_push(errors@, e);
                }
                errors.push(e);
                assert(views(errors@) =~= before + segment_findings(*infra_cache, route.id@, index as int, *seg));
            },
            Some(track) => {
                check_bound(&mut errors, route.id.as_str(), index, seg.begin, ".begin", track.length);
                check_bound(&mut errors, route.id.as_str(), index, seg.end, ".end", track.length);
                assert(views(errors@) =~= before + segment_findings(*infra_cache, route.id@, index as int, *seg));
            },
        }
        index += 1;
    }
    errors
}

/// Whether travel can go on from `prev` into `next`.
fn is_continuous(infra_cache: &InfraCache, graph: &Graph, prev: &DirectionalTrackRange, next: &DirectionalTrackRange) -> (r: bool)
    ensures
        r == pair_continuous(*infra_cache, *graph, *prev, *next),
{
    let prev_trailing = match prev.direction {
        Direction::StartToStop => prev.end,
        Direction::StopToStart => prev.begin,
    };
    let next_leading = match next.direction {
        Direction::StartToStop => next.begin,
        Direction::StopToStart => next.end,
    };
    // Two ranges on the same track
    if prev.track.same_as(&next.track) {
        return prev.direction == next.direction && prev_trailing == next_leading;
    }
    // Topology
    let prev_endpoint = prev.get_end();
    let next_endpoint = next.get_begin();
    if !graph.is_connected(&prev_endpoint, &next_endpoint) {
        return false;
    }
    assert(endpoints_connected(*graph, *prev, *next));
    // Both ranges reach the boundaries of their tracks
    let prev_ok = match infra_cache.get_track_section(&prev.track.obj_id) {
        None => false,
        Some(track) => match prev.direction {
            Direction::StartToStop => prev_trailing == track.length,
            Direction::StopToStart => prev_trailing == 0,
        },
    };
    if !prev_ok {
        return false;
    }
    match infra_cache.get_track_section(&next.track.obj_id) {
        None => false,
        Some(track) => match next.direction {
            Direction::StartToStop => next_leading == 0,
            Direction::StopToStart => next_leading == track.length,
        },
    }
}

/// Continuity checks of every adjacent pair of segments of the route's path.
pub fn check_continuity(infra_cache: &InfraCache, graph: &Graph, route: &Route) -> (r: Vec<InfraError>)
    requires
        route.path@.len() > 0,
    ensures
        views(r@) == continuity_findings(*infra_cache, *graph, *route, route.path@.len() - 1),
{
    let mut errors: Vec<InfraError> = Vec::new();
    let mut index: usize = 0;
    while index < route.path.len() - 1
        invariant
            index < route.path@.len(),
            views(errors@) == continuity_findings(*infra_cache, *graph, *route, index as int),
        decreases route.path@.len() - index,
    {
        let prev = &route.path[index];
        let next = &route.path[index + 1];
        let ghost before = views(errors@);
        if !is_continuous(infra_cache, graph, prev, next) {
            let field = indexed_field("path.", index + 1, "");
            let e = InfraError::new_path_is_not_continuous(route.id.as_str(), field.as_str());
            proof {
                lemma_views_push(errors@, e);
            }
            errors.push(e);
        }
        assert(views(errors@) =~= continuity_findings(*infra_cache, *graph, *route, index + 1));
        index += 1;
    }
    errors
}

/// A mismatch finding where the path's entry or exit is not the placement
/// (`expected_track`, `expected_position`) of the declared object.
fn get_matching_endpoint_error(
    path: &[DirectionalTrackRange],
    expected_track: String,
    expected_position: i64,
    endpoint_field: PathEndpointField,
    route_id: String,
) -> (r: Option<InfraError>)
    requires
        path@.len() > 0,
    ensures
        ({
            let (track, pos) = endpoint_field.path_location(path@);
            if track == expected_track@ && pos == expected_position {
                r is None
            } else {
                r matches Some(e) && e@ == finding(route_id@, "path"@, FindingKind::PathDoesNotMatchEndpoints {
                    expected_track: track,
                    expected_position: pos,
                    actual_track: expected_track@,
                    actual_position: expected_position,
                    endpoint_field,
                })
            }
        }),
{
    let (track, pos) = endpoint_field.get_path_location(path);
    if track != expected_track || pos != expected_position {
        Some(InfraError::new_path_does_not_match_endpoints(
            route_id.as_str(),
            "path",
            track,
            pos,
            expected_track,
            expected_position,
            endpoint_field,
        ))
    } else {
        None
    }
}

/// Checks of the route's entry or exit point.
pub fn check_endpoint(infra_cache: &InfraCache, route: &Route, endpoint_field: PathEndpointField) -> (r: Vec<InfraError>)
    requires
        route.path@.len() > 0,
    ensures
        views(r@) == endpoint_findings(*infra_cache, *route, endpoint_field),
{
    let mut errors: Vec<InfraError> = Vec::new();
    let declared = endpoint_field.get_route_endpoint(route);
    match get_object(declared, infra_cache) {
        None => {
            let field = endpoint_field.to_string();
            let e = InfraError::new_invalid_reference(route.id.as_str(), field.as_str(), declared.clone());
            proof {
                lemma_views_push(errors@, e);
            }
            errors.push(e);
        },
        Some((track, pos)) => {
            if let Some(e) = get_matching_endpoint_error(
                route.path.as_slice(),
                track,
                pos,
                endpoint_field,
                route.id.clone(),
            ) {
                proof {
                    lemma_views_push(errors@, e);
                }
                errors.push(e);
            }
        },
    }
    assert(views(errors@) =~= endpoint_findings(*infra_cache, *route, endpoint_field));
    errors
}

/// Whether a segment of `path` lies on `track` and covers `pos`.
fn path_covers(path: &Vec<DirectionalTrackRange>, track: &String, pos: i64) -> (r: bool)
    ensures
        r == covered(path@, track@, pos),
{
    let mut k: usize = 0;
    while k < path.len()
        invariant
            k <= path@.len(),
            forall|j: int|
                0 <= j < k ==> !((#[trigger] path@[j]).track.obj_id@ == track@ && path@[j].begin <= pos
                    && pos <= path@[j].end),
        decreases path@.len() - k,
    {
        if path[k].track.obj_id == *track && path[k].begin <= pos && pos <= path[k].end {
            return true;
        }
        k += 1;
    }
    false
}

/// Checks of every release detector of the route.
pub fn check_release_detectors(infra_cache: &InfraCache, route: &Route) -> (r: Vec<InfraError>)
    ensures
        views(r@) == detectors_findings(*infra_cache, *route, route.release_detectors@.len() as int),
{
    let mut errors: Vec<InfraError> = Vec::new();
    let mut index: usize = 0;
    while index < route.release_detectors.len()
        invariant
            index <= route.release_detectors@.len(),
            views(errors@) == detectors_findings(*infra_cache, *route, index as int),
        decreases route.release_detectors@.len() - index,
    {
        let release_detector = &route.release_detectors[index];
        let field = indexed_field("release_detector.", index, "");
        let ghost before = views(errors@);
        match get_object(release_detector, infra_cache) {
            None => {
                let e = InfraError::new_invalid_reference(route.id.as_str(), field.as_str(), release_detector.clone());
                proof {
                    lemma_views_push(errors@, e);
                }
                errors.push(e);
            },
            Some((track, position)) => {
                if !path_covers(&route.path, &track, position) {
                    let e = InfraError::new_object_out_of_path(route.id.as_str(), field.as_str(), position, track);
                    proof {
                        lemma_views_push(errors@, e);
                    }
                    errors.push(e);
                }
            },
        }
        assert(views(errors@) =~= before + detector_findings(*infra_cache, *route, index as int));
        index += 1;
    }
    errors
}

/// All findings about one route.
pub fn route_errors(infra_cache: &InfraCache, graph: &Graph, route: &Route) -> (r: Vec<InfraError>)
    ensures
        views(r@) == route_findings(*infra_cache, *graph, *route),
{
    let mut errors: Vec<InfraError> = Vec::new();
    if route.path.len() == 0 {
        let e = InfraError::new_empty_path(route.id.as_str(), "path");
        proof {
            lemma_views_push(errors@, e);
        }
        errors.push(e);
        assert(views(errors@) =~= route_findings(*infra_cache, *graph, *route));
        return errors;
    }
    let mut bounds = check_bounds(infra_cache, route);
    let continuity_allowed = bounds.len() == 0;
    let mut continuity = if continuity_allowed {
        check_continuity(infra_cache, graph, route)
    } else {
        Vec::new()
    };
    let mut entry = check_endpoint(infra_cache, route, PathEndpointField::EntryPoint);
    let mut exit = check_endpoint(infra_cache, route, PathEndpointField::ExitPoint);
    let mut detectors = check_release_detectors(infra_cache, route);
    let ghost (b, c, en, ex, d) = (bounds@, continuity@, entry@, exit@, detectors@);
    errors.append(&mut bounds);
    errors.append(&mut continuity);
    errors.append(&mut entry);
    errors.append(&mut exit);
    errors.append(&mut detectors);
    proof {
        assert(errors@ =~= b + c + en + ex + d);
        lemma_views_concat(b, c);
        lemma_views_concat(b + c, en);
        lemma_views_concat(b + c + en, ex);
        lemma_views_concat(b + c + en + ex, d);
        assert(views(c) =~= (if views(b).len() == 0 {
            continuity_findings(*infra_cache, *graph, *route, route.path@.len() - 1)
        } else {
            seq![]
        }));
    }
    errors
}

/// Every finding about the routes of an infra, route after route.
pub fn generate_errors(infra_cache: &InfraCache, graph: &Graph) -> (r: Vec<InfraError>)
    ensures
        views(r@) == all_findings(*infra_cache, *graph, infra_cache.routes@.len() as int),
{
    let mut errors: Vec<InfraError> = Vec::new();
    let mut i: usize = 0;
    while i < infra_cache.routes.len()
        invariant
            i <= infra_cache.routes@.len(),
            views(errors@) == all_findings(*infra_cache, *graph, i as int),
        decreases infra_cache.routes@.len() - i,
    {
        let mut route_errs = route_errors(infra_cache, graph, &infra_cache.routes[i]);
        let ghost (a, b) = (errors@, route_errs@);
        errors.append(&mut route_errs);
        proof {
            assert(errors@ =~= a + b);
            lemma_views_concat(a, b);
        }
        i += 1;
    }
    errors
}

/// The findings of segment `k` stand, in place, among those of the first `n`
/// segments, whatever the other segments gave.
pub proof fn lemma_bounds_split(c: InfraCache, r: Route, k: int, n: int)
    requires
        0 <= k < n,
    ensures
        exists|post: Seq<Finding>|
            bounds_findings(c, r, n) == bounds_findings(c, r, k) + segment_findings(c, r.id@, k, r.path@[k]) + post,
    decreases n,
{
    if n == k + 1 {
        assert(bounds_findings(c, r, n) == bounds_findings(c, r, k) + segment_findings(c, r.id@, k, r.path@[k]) + seq![]);
    } else {
        lemma_bounds_split(c, r, k, n - 1);
        let post = choose|post: Seq<Finding>|
            bounds_findings(c, r, n - 1) == bounds_findings(c, r, k) + segment_findings(c, r.id@, k, r.path@[k]) + post;
        let last = segment_findings(c, r.id@, n - 1, r.path@[n - 1]);
        assert(bounds_findings(c, r, n) =~= bounds_findings(c, r, k) + segment_findings(c, r.id@, k, r.path@[k]) + (post + last));
    }
}

/// The finding of pair `k` stands, in place, among those of the first `n` pairs.
pub proof fn lemma_continuity_split(c: InfraCache, g: Graph, r: Route, k: int, n: int)
    requires
        0 <= k < n,
    ensures
        exists|post: Seq<Finding>|
            continuity_findings(c, g, r, n) == continuity_findings(c, g, r, k) + pair_findings(c, g, r, k) + post,
    decreases n,
{
    if n == k + 1 {
        assert(continuity_findings(c, g, r, n) == continuity_findings(c, g, r, k) + pair_findings(c, g, r, k) + seq![]);
    } else {
        lemma_continuity_split(c, g, r, k, n - 1);
        let post = choose|post: Seq<Finding>|
            continuity_findings(c, g, r, n - 1) == continuity_findings(c, g, r, k) + pair_findings(c, g, r, k) + post;
        assert(continuity_findings(c, g, r, n) =~= continuity_findings(c, g, r, k) + pair_findings(c, g, r, k) + (post
            + pair_findings(c, g, r, n - 1)));
    }
}

/// The findings of release detector `k` stand, in place, among those of the first `n`.
pub proof fn lemma_detectors_split(c: InfraCache, r: Route, k: int, n: int)
    requires
        0 <= k < n,
    ensures
        exists|post: Seq<Finding>|
            detectors_findings(c, r, n) == detectors_findings(c, r, k) + detector_findings(c, r, k) + post,
    decreases n,
{
    if n == k + 1 {
        assert(detectors_findings(c, r, n) == detectors_findings(c, r, k) + detector_findings(c, r, k) + seq![]);
    } else {
        lemma_detectors_split(c, r, k, n - 1);
        let post = choose|post: Seq<Finding>|
            detectors_findings(c, r, n - 1) == detectors_findings(c, r, k) + detector_findings(c, r, k) + post;
        assert(detectors_findings(c, r, n) =~= detectors_findings(c, r, k) + detector_findings(c, r, k) + (post
            + detector_findings(c, r, n - 1)));
    }
}

/// A route with an empty path gets exactly one finding: an empty path.
pub proof fn lemma_empty_path(c: InfraCache, g: Graph, r: Route)
    requires
        r.path@.len() == 0,
    ensures
        route_findings(c, g, r) == seq![finding(r.id@, "path"@, FindingKind::EmptyPath)],
{
}

/// A segment on a track the cache lacks gets one invalid reference at `path.<i>`,
/// and continuity is not checked for the route (the other segments' checks stand
/// in the findings all the same: see `lemma_bounds_split`).
pub proof fn lemma_missing_track(c: InfraCache, g: Graph, r: Route, i: int)
    requires
        0 <= i < r.path@.len(),
        find_track(c.track_sections@, r.path@[i].track.obj_id@) is None,
    ensures
        segment_findings(c, r.id@, i, r.path@[i]) == seq![finding(r.id@, segment_field(i), FindingKind::InvalidReference {
            obj_type: ObjectType::TrackSection,
            obj_id: r.path@[i].track.obj_id@,
        })],
        route_findings(c, g, r) == bounds_findings(c, r, r.path@.len() as int) + endpoint_findings(
            c,
            r,
            PathEndpointField::EntryPoint,
        ) + endpoint_findings(c, r, PathEndpointField::ExitPoint) + detectors_findings(
            c,
            r,
            r.release_detectors@.len() as int,
        ),
{
    let n = r.path@.len() as int;
    lemma_bounds_split(c, r, i, n);
    let post = choose|post: Seq<Finding>|
        bounds_findings(c, r, n) == bounds_findings(c, r, i) + segment_findings(c, r.id@, i, r.path@[i]) + post;
    assert(bounds_findings(c, r, n).len() > 0);
    assert(route_findings(c, g, r) =~= bounds_findings(c, r, n) + seq![] + endpoint_findings(c, r, PathEndpointField::EntryPoint)
        + endpoint_findings(c, r, PathEndpointField::ExitPoint) + detectors_findings(c, r, r.release_detectors@.len() as int));
}

/// A bound outside `[0, length]` of its track gets one out-of-range finding that
/// carries `[0, length]`.
pub proof fn lemma_out_of_range(c: InfraCache, r: Route, i: int, t: TrackSectionCache)
    requires
        0 <= i < r.path@.len(),
        find_track(c.track_sections@, r.path@[i].track.obj_id@) == Some(t),
        !(0 <= r.path@[i].begin <= t.length),
        0 <= r.path@[i].end <= t.length,
    ensures
        segment_findings(c, r.id@, i, r.path@[i]) == seq![finding(
            r.id@,
            "path."@ + decimal(i as nat) + ".begin"@,
            FindingKind::OutOfRange { position: r.path@[i].begin, min: 0, max: t.length },
        )],
{
    assert(segment_findings(c, r.id@, i, r.path@[i]) =~= seq![finding(
        r.id@,
        "path."@ + decimal(i as nat) + ".begin"@,
        FindingKind::OutOfRange { position: r.path@[i].begin, min: 0, max: t.length },
    )]);
}

/// Two adjacent segments on one track, in one direction, with a gap between them,
/// get one discontinuity finding at `path.<i+1>`.
pub proof fn lemma_gap_on_same_track(c: InfraCache, g: Graph, r: Route, i: int)
    requires
        0 <= i < r.path@.len() - 1,
        same_ref(r.path@[i].track, r.path@[i + 1].track),
        r.path@[i].direction == r.path@[i + 1].direction,
        r.path@[i].trailing_pos() != r.path@[i + 1].leading_pos(),
    ensures
        pair_findings(c, g, r, i) == seq![finding(r.id@, segment_field(i + 1), FindingKind::PathIsNotContinuous)],
        exists|post: Seq<Finding>|
            continuity_findings(c, g, r, r.path@.len() - 1) == continuity_findings(c, g, r, i) + pair_findings(c, g, r, i)
                + post,
{
    lemma_continuity_split(c, g, r, i, r.path@.len() - 1);
}

/// Two adjacent segments on different tracks that the graph does not connect get
/// one discontinuity finding at `path.<i+1>`.
pub proof fn lemma_unconnected_tracks(c: InfraCache, g: Graph, r: Route, i: int)
    requires
        0 <= i < r.path@.len() - 1,
        !same_ref(r.path@[i].track, r.path@[i + 1].track),
        !endpoints_connected(g, r.path@[i], r.path@[i + 1]),
    ensures
        pair_findings(c, g, r, i) == seq![finding(r.id@, segment_field(i + 1), FindingKind::PathIsNotContinuous)],
        exists|post: Seq<Finding>|
            continuity_findings(c, g, r, r.path@.len() - 1) == continuity_findings(c, g, r, i) + pair_findings(c, g, r, i)
                + post,
{
    lemma_continuity_split(c, g, r, i, r.path@.len() - 1);
}

/// A declared entry or exit point placed elsewhere than where the path starts or
/// stops gets one mismatch finding whose expected location is the path's.
pub proof fn lemma_endpoint_mismatch(c: InfraCache, r: Route, field: PathEndpointField, track: Seq<char>, pos: i64)
    requires
        r.path@.len() > 0,
        resolve(c, field.route_endpoint(r)) == Some((track, pos)),
        field.path_location(r.path@) != (track, pos),
    ensures
        endpoint_findings(c, r, field) == seq![finding(r.id@, "path"@, FindingKind::PathDoesNotMatchEndpoints {
            expected_track: field.path_location(r.path@).0,
            expected_position: field.path_location(r.path@).1,
            actual_track: track,
            actual_position: pos,
            endpoint_field: field,
        })],
{
}

/// A release detector that resolves but lies in no segment of the path gets one
/// out-of-path finding.
pub proof fn lemma_detector_out_of_path(c: InfraCache, r: Route, i: int, track: Seq<char>, pos: i64)
    requires
        0 <= i < r.release_detectors@.len(),
        resolve(c, r.release_detectors@[i]) == Some((track, pos)),
        forall|k: int| 0 <= k < r.path@.len() ==> !((#[trigger] r.path@[k]).track.obj_id@ == track
            && r.path@[k].begin <= pos && pos <= r.path@[k].end),
    ensures
        detector_findings(c, r, i) == seq![finding(
            r.id@,
            "release_detector."@ + decimal(i as nat) + ""@,
            FindingKind::ObjectOutOfPath { position: pos, track },
        )],
        exists|post: Seq<Finding>|
            detectors_findings(c, r, r.release_detectors@.len() as int) == detectors_findings(c, r, i) + detector_findings(c, r, i)
                + post,
{
    lemma_detectors_split(c, r, i, r.release_detectors@.len() as int);
}

/// Validating the same snapshot twice gives the same findings in the same order.
pub proof fn lemma_generate_errors_deterministic(
    c: InfraCache,
    g: Graph,
    first: Seq<InfraError>,
    second: Seq<InfraError>,
)
    requires
        views(first) == all_findings(c, g, c.routes@.len() as int),
        views(second) == all_findings(c, g, c.routes@.len() as int),
    ensures
        views(first) == views(second),
{
}

} // verus!
