use vstd::prelude::*;

use crate::objects::{ObjectRef, ObjectType, Route, TrackEndpoint};

verus! {

/// What the validator needs of a track section: its id and length.
#[derive(Debug, Clone, PartialEq, Eq)]
pub struct TrackSectionCache {
    pub obj_id: String,
    pub length: i64,
}

/// An object placed at one position on a track (a detector, a buffer stop).
#[derive(Debug, Clone, PartialEq, Eq)]
pub struct PointCache {
    pub obj_id: String,
    pub track: String,
    pub position: i64,
}

/// A link joining the extremities of two track sections.
#[derive(Debug, Clone, PartialEq, Eq)]
pub struct TrackSectionLinkCache {
    pub obj_id: String,
    pub src: TrackEndpoint,
    pub dst: TrackEndpoint,
}

/// An entry of the track-reference index: `obj` is placed on `track`.
#[derive(Debug, Clone, PartialEq, Eq)]
pub struct TrackRef {
    pub track: String,
    pub obj: ObjectRef,
}

/// In-memory snapshot of the objects of one infra.
#[derive(Debug, Clone, PartialEq, Eq)]
pub struct InfraCache {
    pub track_sections: Vec<TrackSectionCache>,
    pub detectors: Vec<PointCache>,
    pub buffer_stops: Vec<PointCache>,
    pub track_section_links: Vec<TrackSectionLinkCache>,
    pub routes: Vec<Route>,
    pub track_refs: Vec<TrackRef>,
}

/// The first track section of `tracks` with the given id.
pub open spec fn find_track(tracks: Seq<TrackSectionCache>, id: Seq<char>) -> Option<TrackSectionCache>
    decreases tracks.len(),
{
    if tracks.len() == 0 {
        None
    } else if tracks[0].obj_id@ == id {
        Some(tracks[0])
    } else {
        find_track(tracks.drop_first(), id)
    }
}

/// The first placed object of `objs` with the given id.
pub open spec fn find_point(objs: Seq<PointCache>, id: Seq<char>) -> Option<PointCache>
    decreases objs.len(),
{
    if objs.len() == 0 {
        None
    } else if objs[0].obj_id@ == id {
        Some(objs[0])
    } else {
        find_point(objs.drop_first(), id)
    }
}

/// `id` names an object of type `obj_type` that the index places on `track`.
pub open spec fn refers_to_track(refs: Seq<TrackRef>, track: Seq<char>, obj_type: ObjectType, id: Seq<char>) -> bool {
    exists|k: int|
        0 <= k < refs.len() && #[trigger] refs[k].track@ == track && refs[k].obj.obj_type == obj_type
            && refs[k].obj.obj_id@ == id
}

impl InfraCache {
    pub fn new() -> (r: InfraCache)
        ensures
            r.track_sections@.len() == 0,
            r.detectors@.len() == 0,
            r.buffer_stops@.len() == 0,
            r.track_section_links@.len() == 0,
            r.routes@.len() == 0,
            r.track_refs@.len() == 0,
    {
        InfraCache {
            track_sections: Vec::new(),
            detectors: Vec::new(),
            buffer_stops: Vec::new(),
            track_section_links: Vec::new(),
            routes: Vec::new(),
            track_refs: Vec::new(),
        }
    }

    /// Looks a track section up by id.
    pub fn get_track_section(&self, id: &String) -> (r: Option<&TrackSectionCache>)
        ensures
            r is None <==> find_track(self.track_sections@, id@) is None,
            r matches Some(x) ==> find_track(self.track_sections@, id@) == Some(*x),
    {
        let mut i: usize = 0;
        assert(self.track_sections@.subrange(0, self.track_sections@.len() as int) =~= self.track_sections@);
        while i < self.track_sections.len()
            invariant
                i <= self.track_sections@.len(),
                find_track(self.track_sections@, id@) == find_track(
                    self.track_sections@.subrange(i as int, self.track_sections@.len() as int),
                    id@,
                ),
            decreases self.track_sections@.len() - i,
        {
            let ghost rest = self.track_sections@.subrange(i as int, self.track_sections@.len() as int);
            assert(rest.drop_first() =~= self.track_sections@.subrange(
                i + 1,
                self.track_sections@.len() as int,
            ));
            if self.track_sections[i].obj_id == *id {
                return Some(&self.track_sections[i]);
            }
            i += 1;
        }
        None
    }

    /// Looks a placed object up by id in `objs`.
    fn find_point_in<'a>(objs: &'a Vec<PointCache>, id: &String) -> (r: Option<&'a PointCache>)
        ensures
            r is None <==> find_point(objs@, id@) is None,
            r matches Some(x) ==> find_point(objs@, id@) == Some(*x),
    {
        let mut i: usize = 0;
        assert(objs@.subrange(0, objs@.len() as int) =~= objs@);
        while i < objs.len()
            invariant
                i <= objs@.len(),
                find_point(objs@, id@) == find_point(objs@.subrange(i as int, objs@.len() as int), id@),
            decreases objs@.len() - i,
        {
            let ghost rest = objs@.subrange(i as int, objs@.len() as int);
            assert(rest.drop_first() =~= objs@.subrange(i + 1, objs@.len() as int));
            if objs[i].obj_id == *id {
                return Some(&objs[i]);
            }
            i += 1;
        }
        None
    }

    /// Looks a detector up by id.
    pub fn get_detector(&self, id: &String) -> (r: Option<&PointCache>)
        ensures
            r is None <==> find_point(self.detectors@, id@) is None,
            r matches Some(x) ==> find_point(self.detectors@, id@) == Some(*x),
    {
        Self::find_point_in(&self.detectors, id)
    }

    /// Looks a buffer stop up by id.
    pub fn get_buffer_stop(&self, id: &String) -> (r: Option<&PointCache>)
        ensures
            r is None <==> find_point(self.buffer_stops@, id@) is None,
            r matches Some(x) ==> find_point(self.buffer_stops@, id@) == Some(*x),
    {
        Self::find_point_in(&self.buffer_stops, id)
    }

    /// References to the objects of type `obj_type` placed on track `track_id`.
    pub fn get_track_refs_type(&self, track_id: &String, obj_type: ObjectType) -> (r: Vec<ObjectRef>)
        ensures
            forall|j: int| 0 <= j < r@.len() ==> (#[trigger] r@[j]).obj_type == obj_type,
            forall|id: Seq<char>|
                refers_to_track(self.track_refs@, track_id@, obj_type, id) <==> exists|j: int|
                    0 <= j < r@.len() && (#[trigger] r@[j]).obj_id@ == id,
    {
        let mut r: Vec<ObjectRef> = Vec::new();
        let mut i: usize = 0;
        while i < self.track_refs.len()
            invariant
                i <= self.track_refs@.len(),
                forall|j: int| 0 <= j < r@.len() ==> (#[trigger] r@[j]).obj_type == obj_type,
                forall|id: Seq<char>|
                    refers_to_track(self.track_refs@.subrange(0, i as int), track_id@, obj_type, id)
                        <==> exists|j: int| 0 <= j < r@.len() && (#[trigger] r@[j]).obj_id@ == id,
            decreases self.track_refs@.len() - i,
        {
            let tr = &self.track_refs[i];
            let ghost prev = self.track_refs@.subrange(0, i as int);
            let ghost next = self.track_refs@.subrange(0, i + 1);
            let ghost old_r = r@;
            if tr.track == *track_id && tr.obj.obj_type == obj_type {
                r.push(tr.obj.clone());
            }
            assert forall|id: Seq<char>|
                refers_to_track(next, track_id@, obj_type, id) <==> exists|j: int|
                    0 <= j < r@.len() && (#[trigger] r@[j]).obj_id@ == id by {
                if refers_to_track(next, track_id@, obj_type, id) {
                    let k = choose|k: int|
                        0 <= k < next.len() && #[trigger] next[k].track@ == track_id@
                            && next[k].obj.obj_type == obj_type && next[k].obj.obj_id@ == id;
                    if k < i {
                        assert(prev[k] == next[k]);
                        assert(refers_to_track(prev, track_id@, obj_type, id));
                        let j = choose|j: int| 0 <= j < old_r.len() && (#[trigger] old_r[j]).obj_id@ == id;
                        assert(r@[j] == old_r[j]);
                    } else {
                        assert(r@[r@.len() - 1].obj_id@ == id);
                    }
                }
                if exists|j: int| 0 <= j < r@.len() && (#[trigger] r@[j]).obj_id@ == id {
                    let j = choose|j: int| 0 <= j < r@.len() && (#[trigger] r@[j]).obj_id@ == id;
                    if j < old_r.len() {
                        assert(old_r[j] == r@[j]);
                        assert(refers_to_track(prev, track_id@, obj_type, id));
                        let k = choose|k: int|
                            0 <= k < prev.len() && #[trigger] prev[k].track@ == track_id@
                                && prev[k].obj.obj_type == obj_type && prev[k].obj.obj_id@ == id;
                        assert(next[k] == prev[k]);
                    } else {
                        assert(next[i as int] == self.track_refs@[i as int]);
                    }
                }
            }
            i += 1;
        }
        assert(self.track_refs@.subrange(0, i as int) =~= self.track_refs@);
        r
    }
}

} // verus!
