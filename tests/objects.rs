use editoast::infra_errors::{get_paginated_infra_errors, InfraErrorQueryable, PaginationError};
use editoast::objects::{Direction, ObjectRef, ObjectType, OSRDObject};
use editoast::operational_point::{OperationalPoint, OperationalPointCache, OperationalPointPart};
use editoast::signal::{Side, Signal, SignalCache};

#[test]
fn signal_cache_equality_is_by_id() {
    let a = SignalCache::new("S".into(), "A".into(), 10);
    let b = SignalCache::new("S".into(), "B".into(), 20);
    let c = SignalCache::new("T".into(), "A".into(), 10);
    assert!(a == b);
    assert!(a != c);
    assert_eq!(a.get_track_referenced_id(), vec!["A".to_string()]);
    assert_eq!(a.get_type(), ObjectType::Signal);
    assert_eq!(a.get_id(), "S");
}

#[test]
fn operational_point_cache() {
    let parts = vec![
        OperationalPointPart { track: ObjectRef::new(ObjectType::TrackSection, "A"), position: 5 },
        OperationalPointPart { track: ObjectRef::new(ObjectType::TrackSection, "B"), position: 7 },
    ];
    let op = OperationalPointCache::new("OP".into(), parts);
    assert_eq!(op.get_track_referenced_id(), vec!["A".to_string(), "B".to_string()]);
    assert!(op == OperationalPointCache::new("OP".into(), vec![]));
    assert_eq!(op.get_type(), ObjectType::OperationalPoint);
}

#[test]
fn side_defaults_to_center() {
    assert_eq!(Side::default(), Side::Center);
}

fn row(count: i64, id: &str) -> InfraErrorQueryable {
    InfraErrorQueryable {
        count,
        obj_id: id.into(),
        obj_type: "Route".into(),
        information: serde_json::Value::Null,
    }
}

#[test]
fn pagination() {
    let (errors, count) = get_paginated_infra_errors(vec![], 1).ok().unwrap();
    assert!(errors.is_empty());
    assert_eq!(count, 0);
    assert_eq!(get_paginated_infra_errors(vec![], 2).err(), Some(PaginationError));
    let (errors, count) = get_paginated_infra_errors(vec![row(12, "R1"), row(12, "R2")], 3).ok().unwrap();
    assert_eq!(count, 12);
    assert_eq!(errors.len(), 2);
    assert_eq!(errors[0].obj_id, "R1");
    assert_eq!(errors[1].obj_id, "R2");
}

#[test]
fn signal_to_cache() {
    let sig = Signal {
        id: "S1".into(),
        track: ObjectRef::new(ObjectType::TrackSection, "A"),
        position: 120,
        direction: Direction::StartToStop,
        sight_distance: 400,
        linked_detector: None,
        aspects: None,
        angle_sch: 0,
        angle_geo: 0,
        type_code: None,
        support_type: None,
        is_in_service: None,
        is_lightable: None,
        is_operational: None,
        comment: None,
        physical_organization_group: None,
        responsible_group: None,
        label: None,
        installation_type: None,
        value: None,
        side: Side::Left,
        default_aspect: "VL".into(),
    };
    assert_eq!(sig.get_type(), ObjectType::Signal);
    assert_eq!(sig.get_id(), "S1");
    let cache = SignalCache::from(sig);
    assert_eq!(cache.obj_id, "S1");
    assert_eq!(cache.track, "A");
    assert_eq!(cache.position, 120);
}

#[test]
fn operational_point_to_cache() {
    let op = OperationalPoint {
        id: "OP_A".into(),
        parts: vec![OperationalPointPart { track: ObjectRef::new(ObjectType::TrackSection, "C"), position: 3 }],
        uic: 87,
        ci: 1,
        ch: "BV".into(),
        ch_short_label: None,
        ch_long_label: None,
        name: "Station".into(),
        trigram: "STA".into(),
    };
    assert_eq!(op.get_type(), ObjectType::OperationalPoint);
    let cache = OperationalPointCache::from(op);
    assert_eq!(cache.obj_id, "OP_A");
    assert_eq!(cache.get_track_referenced_id(), vec!["C".to_string()]);
}
