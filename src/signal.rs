use vstd::prelude::*;

use crate::layer::Layer;
use crate::objects::{Direction, OSRDObject, ObjectRef, ObjectType};

verus! {

/// A signal, as the infra describes it. Positions and distances are integer
/// track coordinates; angles are in whole degrees.
#[derive(Debug, Clone)]
pub struct Signal {
    pub id: String,
    pub track: ObjectRef,
    pub position: i64,
    pub direction: Direction,
    pub sight_distance: i64,
    pub linked_detector: Option<ObjectRef>,
    pub aspects: Option<Vec<String>>,
    pub angle_sch: i64,
    pub angle_geo: i64,
    pub type_code: Option<String>,
    pub support_type: Option<String>,
    pub is_in_service: Option<bool>,
    pub is_lightable: Option<bool>,
    pub is_operational: Option<bool>,
    pub comment: Option<String>,
    pub physical_organization_group: Option<String>,
    pub responsible_group: Option<String>,
    pub label: Option<String>,
    pub installation_type: Option<String>,
    pub value: Option<String>,
    pub side: Side,
    pub default_aspect: String,
}

impl OSRDObject for Signal {
    fn get_type(&self) -> ObjectType {
        ObjectType::Signal
    }

    fn get_id(&self) -> &String {
        &self.id
    }
}

/// Side of the track a signal stands on.
#[derive(Debug, Clone, Copy, PartialEq, Eq, Structural)]
pub enum Side {
    Left,
    Right,
    Center,
}

impl Default for Side {
    fn default() -> (r: Side)
        ensures
            r == Side::Center,
    {
        Side::Center
    }
}

/// The signal layer.
impl Layer for Signal {
    open spec fn spec_obj_type() -> ObjectType {
        ObjectType::Signal
    }

    fn get_table_name() -> &'static str {
        "osrd_infra_signallayer"
    }

    fn layer_name() -> &'static str {
        "signals"
    }

    fn get_obj_type() -> (r: ObjectType) {
        ObjectType::Signal
    }
}

/// What the cache keeps of a signal. Two entries are equal when their ids are.
#[derive(Debug, Clone)]
pub struct SignalCache {
    pub obj_id: String,
    pub track: String,
    pub position: i64,
}

impl PartialEq for SignalCache {
    fn eq(&self, other: &SignalCache) -> (r: bool) {
        self.obj_id == other.obj_id
    }
}

impl vstd::std_specs::cmp::PartialEqSpecImpl for SignalCache {
    open spec fn obeys_eq_spec() -> bool {
        true
    }

    open spec fn eq_spec(&self, other: &SignalCache) -> bool {
        self.obj_id@ == other.obj_id@
    }
}

impl OSRDObject for SignalCache {
    fn get_type(&self) -> ObjectType {
        ObjectType::Signal
    }

    fn get_id(&self) -> &String {
        &self.obj_id
    }
}

impl SignalCache {
    pub fn new(obj_id: String, track: String, position: i64) -> (r: SignalCache)
        ensures
            r.obj_id == obj_id,
            r.track == track,
            r.position == position,
    {
        SignalCache { obj_id, track, position }
    }

    /// Ids of the tracks the signal is placed on.
    pub fn get_track_referenced_id(&self) -> (r: Vec<String>)
        ensures
            r@ == seq![self.track],
    {
        let mut r: Vec<String> = Vec::new();
        r.push(self.track.clone());
        r
    }
}

impl From<Signal> for SignalCache {
    fn from(sig: Signal) -> (r: SignalCache) {
        SignalCache::new(sig.id, sig.track.obj_id, sig.position)
    }
}

impl vstd::std_specs::convert::FromSpecImpl<Signal> for SignalCache {
    open spec fn obeys_from_spec() -> bool {
        true
    }

    open spec fn from_spec(sig: Signal) -> SignalCache {
        SignalCache { obj_id: sig.id, track: sig.track.obj_id, position: sig.position }
    }
}

} // verus!
