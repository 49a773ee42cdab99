use vstd::prelude::*;

use crate::layer::Layer;
use crate::objects::{OSRDObject, ObjectRef, ObjectType};

verus! {

/// An operational point, as the infra describes it.
#[derive(Debug, Clone)]
pub struct OperationalPoint {
    pub id: String,
    pub parts: Vec<OperationalPointPart>,
    pub uic: i64,
    pub ci: i64,
    pub ch: String,
    pub ch_short_label: Option<String>,
    pub ch_long_label: Option<String>,
    pub name: String,
    pub trigram: String,
}

impl OSRDObject for OperationalPoint {
    fn get_type(&self) -> ObjectType {
        ObjectType::OperationalPoint
    }

    fn get_id(&self) -> &String {
        &self.id
    }
}

/// Where an operational point lies on one track, in integer track coordinates.
#[derive(Debug, Clone)]
pub struct OperationalPointPart {
    pub track: ObjectRef,
    pub position: i64,
}

/// The operational point layer.
impl Layer for OperationalPoint {
    open spec fn spec_obj_type() -> ObjectType {
        ObjectType::OperationalPoint
    }

    fn get_table_name() -> &'static str {
        "osrd_infra_operationalpointlayer"
    }

    fn layer_name() -> &'static str {
        "operational_points"
    }

    fn get_obj_type() -> (r: ObjectType) {
        ObjectType::OperationalPoint
    }
}

/// What the cache keeps of an operational point. Two entries are equal when
/// their ids are.
#[derive(Debug, Clone)]
pub struct OperationalPointCache {
    pub obj_id: String,
    pub parts: Vec<OperationalPointPart>,
}

impl PartialEq for OperationalPointCache {
    fn eq(&self, other: &OperationalPointCache) -> (r: bool) {
        self.obj_id == other.obj_id
    }
}

impl vstd::std_specs::cmp::PartialEqSpecImpl for OperationalPointCache {
    open spec fn obeys_eq_spec() -> bool {
        true
    }

    open spec fn eq_spec(&self, other: &OperationalPointCache) -> bool {
        self.obj_id@ == other.obj_id@
    }
}

impl OSRDObject for OperationalPointCache {
    fn get_type(&self) -> ObjectType {
        ObjectType::OperationalPoint
    }

    fn get_id(&self) -> &String {
        &self.obj_id
    }
}

impl OperationalPointCache {
    pub fn new(obj_id: String, parts: Vec<OperationalPointPart>) -> (r: OperationalPointCache)
        ensures
            r.obj_id == obj_id,
            r.parts == parts,
    {
        OperationalPointCache { obj_id, parts }
    }

    /// Ids of the tracks the parts lie on, part after part.
    pub fn get_track_referenced_id(&self) -> (r: Vec<String>)
        ensures
            r@.len() == self.parts@.len(),
            forall|i: int| 0 <= i < r@.len() ==> (#[trigger] r@[i]) == self.parts@[i].track.obj_id,
    {
        let mut r: Vec<String> = Vec::new();
        let mut i: usize = 0;
        while i < self.parts.len()
            invariant
                i <= self.parts@.len(),
                r@.len() == i,
                forall|j: int| 0 <= j < i ==> (#[trigger] r@[j]) == self.parts@[j].track.obj_id,
            decreases self.parts@.len() - i,
        {
            r.push(self.parts[i].track.obj_id.clone());
            i += 1;
        }
        r
    }
}

impl From<OperationalPoint> for OperationalPointCache {
    fn from(op: OperationalPoint) -> (r: OperationalPointCache) {
        OperationalPointCache::new(op.id, op.parts)
    }
}

impl vstd::std_specs::convert::FromSpecImpl<OperationalPoint> for OperationalPointCache {
    open spec fn obeys_from_spec() -> bool {
        true
    }

    open spec fn from_spec(op: OperationalPoint) -> OperationalPointCache {
        OperationalPointCache { obj_id: op.id, parts: op.parts }
    }
}

} // verus!
