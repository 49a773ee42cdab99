use vstd::prelude::*;

verus! {

/// Kind of an infrastructure object.
#[derive(Debug, Clone, Copy, PartialEq, Eq, Structural)]
pub enum ObjectType {
    TrackSection,
    Signal,
    SpeedSection,
    Detector,
    TrackSectionLink,
    Switch,
    SwitchType,
    BufferStop,
    Route,
    OperationalPoint,
    Catenary,
}

/// Travel direction along a track section.
#[derive(Debug, Clone, Copy, PartialEq, Eq, Structural)]
pub enum Direction {
    StartToStop,
    StopToStart,
}

/// One of the two extremities of a track section.
#[derive(Debug, Clone, Copy, PartialEq, Eq, Structural)]
pub enum Endpoint {
    Begin,
    End,
}

/// An object of the infra: it has a type and an id.
pub trait OSRDObject {
    fn get_type(&self) -> ObjectType;

    fn get_id(&self) -> &String;
}

/// A typed, possibly dangling, reference to another object.
#[derive(Debug, PartialEq, Eq)]
pub struct ObjectRef {
    pub obj_type: ObjectType,
    pub obj_id: String,
}

/// Two references designate the same object.
pub open spec fn same_ref(a: ObjectRef, b: ObjectRef) -> bool {
    a.obj_type == b.obj_type && a.obj_id@ == b.obj_id@
}

impl Clone for ObjectRef {
    fn clone(&self) -> (r: ObjectRef)
        ensures
            r == *self,
    {
        ObjectRef { obj_type: self.obj_type, obj_id: self.obj_id.clone() }
    }
}

impl ObjectRef {
    pub fn new(obj_type: ObjectType, obj_id: &str) -> (r: ObjectRef)
        ensures
            r.obj_type == obj_type,
            r.obj_id@ == obj_id@,
    {
        ObjectRef { obj_type, obj_id: String::from_str(obj_id) }
    }

    /// Compares type and id.
    pub fn same_as(&self, other: &ObjectRef) -> (r: bool)
        ensures
            r == same_ref(*self, *other),
    {
        self.obj_type == other.obj_type && self.obj_id == other.obj_id
    }
}

/// A directed extremity of a track section, as a node of the adjacency graph.
#[derive(Debug, PartialEq, Eq)]
pub struct TrackEndpoint {
    pub endpoint: Endpoint,
    pub track: String,
}

pub open spec fn same_endpoint(a: TrackEndpoint, b: TrackEndpoint) -> bool {
    a.endpoint == b.endpoint && a.track@ == b.track@
}

impl Clone for TrackEndpoint {
    fn clone(&self) -> (r: TrackEndpoint)
        ensures
            r == *self,
    {
        TrackEndpoint { endpoint: self.endpoint, track: self.track.clone() }
    }
}

impl TrackEndpoint {
    pub fn new(endpoint: Endpoint, track: &str) -> (r: TrackEndpoint)
        ensures
            r.endpoint == endpoint,
            r.track@ == track@,
    {
        TrackEndpoint { endpoint, track: String::from_str(track) }
    }

    pub fn same_as(&self, other: &TrackEndpoint) -> (r: bool)
        ensures
            r == same_endpoint(*self, *other),
    {
        self.endpoint == other.endpoint && self.track == other.track
    }
}

/// A directed sub-segment of a track section. `begin <= end` in the track's own
/// coordinates whatever the direction; positions are integer coordinates.
#[derive(Debug, Clone, PartialEq, Eq)]
pub struct DirectionalTrackRange {
    pub track: ObjectRef,
    pub begin: i64,
    pub end: i64,
    pub direction: Direction,
}

impl DirectionalTrackRange {
    /// The position where travel along the range starts.
    pub open spec fn leading_pos(self) -> i64 {
        match self.direction {
            Direction::StartToStop => self.begin,
            Direction::StopToStart => self.end,
        }
    }

    /// The position where travel along the range stops.
    pub open spec fn trailing_pos(self) -> i64 {
        match self.direction {
            Direction::StartToStop => self.end,
            Direction::StopToStart => self.begin,
        }
    }

    /// The track extremity travel enters through.
    pub open spec fn leading_endpoint(self) -> Endpoint {
        match self.direction {
            Direction::StartToStop => Endpoint::Begin,
            Direction::StopToStart => Endpoint::End,
        }
    }

    /// The track extremity travel leaves through.
    pub open spec fn trailing_endpoint(self) -> Endpoint {
        match self.direction {
            Direction::StartToStop => Endpoint::End,
            Direction::StopToStart => Endpoint::Begin,
        }
    }

    /// The graph node where the range begins, in travel order.
    pub fn get_begin(&self) -> (r: TrackEndpoint)
        ensures
            r.endpoint == self.leading_endpoint(),
            r.track@ == self.track.obj_id@,
    {
        let endpoint = match self.direction {
            Direction::StartToStop => Endpoint::Begin,
            Direction::StopToStart => Endpoint::End,
        };
        TrackEndpoint { endpoint, track: self.track.obj_id.clone() }
    }

    /// The graph node where the range ends, in travel order.
    pub fn get_end(&self) -> (r: TrackEndpoint)
        ensures
            r.endpoint == self.trailing_endpoint(),
            r.track@ == self.track.obj_id@,
    {
        let endpoint = match self.direction {
            Direction::StartToStop => Endpoint::End,
            Direction::StopToStart => Endpoint::Begin,
        };
        TrackEndpoint { endpoint, track: self.track.obj_id.clone() }
    }
}

/// A route: its entry and exit points, release detectors and path.
#[derive(Debug, Clone, PartialEq, Eq)]
pub struct Route {
    pub id: String,
    pub entry_point: ObjectRef,
    pub exit_point: ObjectRef,
    pub release_detectors: Vec<ObjectRef>,
    pub path: Vec<DirectionalTrackRange>,
}

} // verus!
