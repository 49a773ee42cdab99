use editoast::errors::{InfraError, PathEndpointField};
use editoast::graph::Graph;
use editoast::infra_cache::{InfraCache, PointCache, TrackSectionCache, TrackSectionLinkCache};
use editoast::objects::{Direction, DirectionalTrackRange, Endpoint, ObjectRef, ObjectType, Route, TrackEndpoint};
use editoast::routes::generate_errors;

fn create_track_section_cache(id: &str, length: i64) -> TrackSectionCache {
    TrackSectionCache { obj_id: id.into(), length }
}

fn create_detector_cache(id: &str, track: &str, position: i64) -> PointCache {
    PointCache { obj_id: id.into(), track: track.into(), position }
}

fn create_buffer_stop_cache(id: &str, track: &str, position: i64) -> PointCache {
    PointCache { obj_id: id.into(), track: track.into(), position }
}

fn create_link_cache(id: &str, src: (&str, Endpoint), dst: (&str, Endpoint)) -> TrackSectionLinkCache {
    TrackSectionLinkCache {
        obj_id: id.into(),
        src: TrackEndpoint::new(src.1, src.0),
        dst: TrackEndpoint::new(dst.1, dst.0),
    }
}

/// Tracks A, B, C and D of length 500; A's end is linked to B's begin; buffer
/// stop BF1 on A at 20, detector D1 on B at 250.
fn create_small_infra_cache() -> InfraCache {
    let mut infra_cache = InfraCache::new();
    for id in ["A", "B", "C", "D"] {
        infra_cache.track_sections.push(create_track_section_cache(id, 500));
    }
    infra_cache
        .track_section_links
        .push(create_link_cache("link", ("A", Endpoint::End), ("B", Endpoint::Begin)));
    infra_cache.buffer_stops.push(create_buffer_stop_cache("BF1", "A", 20));
    infra_cache.detectors.push(create_detector_cache("D1", "B", 250));
    infra_cache
}

fn create_route_cache(
    id: &str,
    entry_point: ObjectRef,
    exit_point: ObjectRef,
    release_detectors: Vec<ObjectRef>,
    path: Vec<(&str, i64, i64, Direction)>,
) -> Route {
    Route {
        id: id.into(),
        entry_point,
        exit_point,
        release_detectors,
        path: path
            .into_iter()
            .map(|(track, begin, end, direction)| DirectionalTrackRange {
                track: ObjectRef::new(ObjectType::TrackSection, track),
                begin,
                end,
                direction,
            })
            .collect(),
    }
}

#[test]
fn invalid_ref() {
    let mut infra_cache = create_small_infra_cache();
    let error_path = vec![
        ("A", 20, 500, Direction::StartToStop),
        ("E", 0, 500, Direction::StartToStop),
        ("B", 0, 250, Direction::StartToStop),
    ];
    infra_cache.routes.push(create_route_cache(
        "R_error",
        ObjectRef {
            obj_type: ObjectType::BufferStop,
            obj_id: "BF1".into(),
        },
        ObjectRef {
            obj_type: ObjectType::Detector,
            obj_id: "D1".into(),
        },
        vec![],
        error_path,
    ));
    let graph = Graph::load(&infra_cache);
    let errors = generate_errors(&infra_cache, &graph);
    assert_eq!(1, errors.len());
    let obj_ref = ObjectRef::new(ObjectType::TrackSection, "E");
    let infra_error = InfraError::new_invalid_reference("R_error", "path.1", obj_ref);
    assert_eq!(infra_error, errors[0]);
}

#[test]
fn out_of_range() {
    let mut infra_cache = create_small_infra_cache();
    let error_path = vec![
        ("A", 20, 600, Direction::StartToStop),
        ("B", 0, 250, Direction::StartToStop),
    ];
    infra_cache.routes.push(create_route_cache(
        "R_error",
        ObjectRef {
            obj_type: ObjectType::BufferStop,
            obj_id: "BF1".into(),
        },
        ObjectRef {
            obj_type: ObjectType::Detector,
            obj_id: "D1".into(),
        },
        vec![],
        error_path,
    ));
    let graph = Graph::load(&infra_cache);
    let errors = generate_errors(&infra_cache, &graph);
    assert_eq!(1, errors.len());
    let infra_error = InfraError::new_out_of_range("R_error", "path.0.end", 600, [0, 500]);
    assert_eq!(infra_error, errors[0]);
}

#[test]
fn invalid_ref_entry_point() {
    let mut infra_cache = create_small_infra_cache();
    let error_path = vec![
        ("A", 20, 500, Direction::StartToStop),
        ("B", 0, 250, Direction::StartToStop),
    ];
    infra_cache.routes.push(create_route_cache(
        "R_error",
        ObjectRef::new(ObjectType::BufferStop, "BF_non_existing"),
        ObjectRef::new(ObjectType::Detector, "D1"),
        vec![],
        error_path,
    ));
    let graph = Graph::load(&infra_cache);
    let errors = generate_errors(&infra_cache, &graph);
    assert_eq!(1, errors.len());
    let obj_ref = ObjectRef::new(ObjectType::BufferStop, "BF_non_existing");
    let infra_error = InfraError::new_invalid_reference("R_error", "\"entry_point\"", obj_ref);
    assert_eq!(infra_error, errors[0]);
}

#[test]
fn path_match_endpoint() {
    let mut infra_cache = create_small_infra_cache();
    let error_path = vec![
        ("A", 40, 500, Direction::StartToStop),
        ("B", 0, 250, Direction::StartToStop),
    ];
    infra_cache.routes.push(create_route_cache(
        "R_error",
        ObjectRef {
            obj_type: ObjectType::BufferStop,
            obj_id: "BF1".into(),
        },
        ObjectRef {
            obj_type: ObjectType::Detector,
            obj_id: "D1".into(),
        },
        vec![],
        error_path,
    ));
    let graph = Graph::load(&infra_cache);
    let errors = generate_errors(&infra_cache, &graph);
    assert_eq!(1, errors.len());
    // The path starts at A 40; BF1 stands at A 20.
    let infra_error = InfraError::new_path_does_not_match_endpoints(
        "R_error",
        "path",
        "A".into(),
        40,
        "A".into(),
        20,
        PathEndpointField::EntryPoint,
    );
    assert_eq!(infra_error, errors[0]);
}

#[test]
fn invalid_ref_release_detector() {
    let mut infra_cache = create_small_infra_cache();
    let error_path = vec![
        ("A", 20, 500, Direction::StartToStop),
        ("B", 0, 250, Direction::StartToStop),
    ];
    infra_cache.routes.push(create_route_cache(
        "R_error",
        ObjectRef {
            obj_type: ObjectType::BufferStop,
            obj_id: "BF1".into(),
        },
        ObjectRef {
            obj_type: ObjectType::Detector,
            obj_id: "D1".into(),
        },
        vec![ObjectRef {
            obj_type: ObjectType::Detector,
            obj_id: "non_existing_D".into(),
        }],
        error_path,
    ));
    let graph = Graph::load(&infra_cache);
    let errors = generate_errors(&infra_cache, &graph);
    assert_eq!(1, errors.len());
    let infra_error = InfraError::new_invalid_reference(
        "R_error",
        "release_detector.0",
        ObjectRef {
            obj_type: ObjectType::Detector,
            obj_id: "non_existing_D".into(),
        },
    );
    assert_eq!(infra_error, errors[0]);
}

#[test]
fn out_of_path() {
    let mut infra_cache = create_small_infra_cache();
    let error_path = vec![
        ("A", 20, 500, Direction::StartToStop),
        ("B", 0, 250, Direction::StartToStop),
    ];
    infra_cache.detectors.push(create_detector_cache("D2", "C", 250));
    infra_cache.routes.push(create_route_cache(
        "R_error",
        ObjectRef {
            obj_type: ObjectType::BufferStop,
            obj_id: "BF1".into(),
        },
        ObjectRef {
            obj_type: ObjectType::Detector,
            obj_id: "D1".into(),
        },
        vec![ObjectRef {
            obj_type: ObjectType::Detector,
            obj_id: "D2".into(),
        }],
        error_path,
    ));
    let graph = Graph::load(&infra_cache);
    let errors = generate_errors(&infra_cache, &graph);
    assert_eq!(1, errors.len());
    let infra_error = InfraError::new_object_out_of_path("R_error", "release_detector.0", 250, "C".into());
    assert_eq!(infra_error, errors[0]);
}

#[test]
fn path_not_continuous_1() {
    let mut infra_cache = create_small_infra_cache();
    let error_path = vec![
        ("A", 20, 500, Direction::StartToStop),
        ("B", 100, 250, Direction::StartToStop),
    ];
    infra_cache.routes.push(create_route_cache(
        "R_error",
        ObjectRef {
            obj_type: ObjectType::BufferStop,
            obj_id: "BF1".into(),
        },
        ObjectRef {
            obj_type: ObjectType::Detector,
            obj_id: "D1".into(),
        },
        vec![],
        error_path,
    ));
    let graph = Graph::load(&infra_cache);
    let errors = generate_errors(&infra_cache, &graph);
    assert_eq!(1, errors.len());
    let infra_error = InfraError::new_path_is_not_continuous("R_error", "path.1");
    assert_eq!(infra_error, errors[0]);
}

#[test]
fn path_not_continuous_2() {
    let mut infra_cache = create_small_infra_cache();
    let error_path = vec![
        ("A", 20, 250, Direction::StartToStop),
        ("A", 300, 500, Direction::StartToStop),
        ("B", 0, 250, Direction::StartToStop),
    ];
    infra_cache.routes.push(create_route_cache(
        "R_error",
        ObjectRef {
            obj_type: ObjectType::BufferStop,
            obj_id: "BF1".into(),
        },
        ObjectRef {
            obj_type: ObjectType::Detector,
            obj_id: "D1".into(),
        },
        vec![],
        error_path,
    ));
    let graph = Graph::load(&infra_cache);
    let errors = generate_errors(&infra_cache, &graph);
    assert_eq!(1, errors.len());
    let infra_error = InfraError::new_path_is_not_continuous("R_error", "path.1");
    assert_eq!(infra_error, errors[0]);
}

#[test]
fn path_not_continuous_3() {
    let mut infra_cache = create_small_infra_cache();
    let error_path = vec![
        ("A", 20, 500, Direction::StartToStop),
        ("C", 0, 250, Direction::StartToStop),
    ];
    infra_cache.detectors.push(create_detector_cache("D2", "C", 250));
    infra_cache.routes.push(create_route_cache(
        "R_error",
        ObjectRef {
            obj_type: ObjectType::BufferStop,
            obj_id: "BF1".into(),
        },
        ObjectRef {
            obj_type: ObjectType::Detector,
            obj_id: "D2".into(),
        },
        vec![],
        error_path,
    ));
    let graph = Graph::load(&infra_cache);
    let errors = generate_errors(&infra_cache, &graph);
    assert_eq!(1, errors.len());
    let infra_error = InfraError::new_path_is_not_continuous("R_error", "path.1");
    assert_eq!(infra_error, errors[0]);
}

#[test]
fn valid_route_has_no_error() {
    let mut infra_cache = create_small_infra_cache();
    infra_cache.routes.push(create_route_cache(
        "R_ok",
        ObjectRef::new(ObjectType::BufferStop, "BF1"),
        ObjectRef::new(ObjectType::Detector, "D1"),
        vec![ObjectRef::new(ObjectType::Detector, "D1")],
        vec![("A", 20, 500, Direction::StartToStop), ("B", 0, 250, Direction::StartToStop)],
    ));
    let graph = Graph::load(&infra_cache);
    assert!(generate_errors(&infra_cache, &graph).is_empty());
}

#[test]
fn valid_route_stop_to_start() {
    let mut infra_cache = create_small_infra_cache();
    infra_cache.routes.push(create_route_cache(
        "R_back",
        ObjectRef::new(ObjectType::Detector, "D1"),
        ObjectRef::new(ObjectType::BufferStop, "BF1"),
        vec![],
        vec![("B", 0, 250, Direction::StopToStart), ("A", 20, 500, Direction::StopToStart)],
    ));
    let graph = Graph::load(&infra_cache);
    assert!(generate_errors(&infra_cache, &graph).is_empty());
}

#[test]
fn empty_path_gives_only_empty_path() {
    let mut infra_cache = create_small_infra_cache();
    infra_cache.routes.push(create_route_cache(
        "R_empty",
        ObjectRef::new(ObjectType::BufferStop, "missing"),
        ObjectRef::new(ObjectType::Detector, "missing"),
        vec![ObjectRef::new(ObjectType::Detector, "missing")],
        vec![],
    ));
    let graph = Graph::load(&infra_cache);
    let errors = generate_errors(&infra_cache, &graph);
    assert_eq!(errors, vec![InfraError::new_empty_path("R_empty", "path")]);
}

#[test]
fn missing_track_still_checks_other_bounds() {
    let mut infra_cache = create_small_infra_cache();
    infra_cache.routes.push(create_route_cache(
        "R_error",
        ObjectRef::new(ObjectType::BufferStop, "BF1"),
        ObjectRef::new(ObjectType::Detector, "D1"),
        vec![],
        vec![
            ("A", 20, 500, Direction::StartToStop),
            ("E", 0, 500, Direction::StartToStop),
            ("B", -5, 250, Direction::StartToStop),
        ],
    ));
    let graph = Graph::load(&infra_cache);
    let errors = generate_errors(&infra_cache, &graph);
    assert_eq!(
        errors,
        vec![
            InfraError::new_invalid_reference("R_error", "path.1", ObjectRef::new(ObjectType::TrackSection, "E")),
            InfraError::new_out_of_range("R_error", "path.2.begin", -5, [0, 500]),
        ]
    );
}

#[test]
fn unconnected_tracks_and_wrong_exit() {
    let mut infra_cache = create_small_infra_cache();
    infra_cache.routes.push(create_route_cache(
        "R_error",
        ObjectRef::new(ObjectType::BufferStop, "BF1"),
        ObjectRef::new(ObjectType::Signal, "S1"),
        vec![],
        vec![("A", 20, 500, Direction::StartToStop), ("D", 0, 500, Direction::StartToStop)],
    ));
    let graph = Graph::load(&infra_cache);
    let errors = generate_errors(&infra_cache, &graph);
    assert_eq!(
        errors,
        vec![
            InfraError::new_path_is_not_continuous("R_error", "path.1"),
            InfraError::new_invalid_reference("R_error", "\"exit_point\"", ObjectRef::new(ObjectType::Signal, "S1")),
        ]
    );
}

#[test]
fn exit_point_mismatch_reports_path_location() {
    let mut infra_cache = create_small_infra_cache();
    infra_cache.routes.push(create_route_cache(
        "R_error",
        ObjectRef::new(ObjectType::BufferStop, "BF1"),
        ObjectRef::new(ObjectType::Detector, "D1"),
        vec![],
        vec![("A", 20, 500, Direction::StartToStop), ("B", 0, 300, Direction::StartToStop)],
    ));
    let graph = Graph::load(&infra_cache);
    let errors = generate_errors(&infra_cache, &graph);
    assert_eq!(
        errors,
        vec![InfraError::new_path_does_not_match_endpoints(
            "R_error",
            "path",
            "B".into(),
            300,
            "B".into(),
            250,
            PathEndpointField::ExitPoint,
        )]
    );
}

#[test]
fn errors_accumulate_route_after_route_and_are_stable() {
    let mut infra_cache = create_small_infra_cache();
    infra_cache.routes.push(create_route_cache(
        "R1",
        ObjectRef::new(ObjectType::BufferStop, "BF1"),
        ObjectRef::new(ObjectType::Detector, "D1"),
        vec![],
        vec![],
    ));
    infra_cache.routes.push(create_route_cache(
        "R2",
        ObjectRef::new(ObjectType::BufferStop, "BF1"),
        ObjectRef::new(ObjectType::Detector, "D1"),
        vec![],
        vec![("A", 20, 600, Direction::StartToStop), ("B", 0, 250, Direction::StartToStop)],
    ));
    let graph = Graph::load(&infra_cache);
    let first = generate_errors(&infra_cache, &graph);
    let second = generate_errors(&infra_cache, &graph);
    assert_eq!(first, second);
    assert_eq!(first.len(), 2);
    assert_eq!(first[0], InfraError::new_empty_path("R1", "path"));
    assert_eq!(first[1], InfraError::new_out_of_range("R2", "path.0.end", 600, [0, 500]));
}

#[test]
fn field_of_large_index() {
    let mut infra_cache = InfraCache::new();
    infra_cache.track_sections.push(create_track_section_cache("A", 500));
    let mut path = vec![];
    for _ in 0..12 {
        path.push(("A", 0, 500, Direction::StartToStop));
    }
    path.push(("Z", 0, 500, Direction::StartToStop));
    infra_cache.routes.push(create_route_cache(
        "R",
        ObjectRef::new(ObjectType::Detector, "nope"),
        ObjectRef::new(ObjectType::Detector, "nope"),
        vec![],
        path,
    ));
    let graph = Graph::load(&infra_cache);
    let errors = generate_errors(&infra_cache, &graph);
    assert_eq!(errors[0].field, "path.12");
}

#[test]
fn path_location_and_route_endpoint() {
    let route = create_route_cache(
        "R",
        ObjectRef::new(ObjectType::BufferStop, "BF1"),
        ObjectRef::new(ObjectType::Detector, "D1"),
        vec![],
        vec![("A", 20, 500, Direction::StopToStart), ("B", 0, 250, Direction::StopToStart)],
    );
    assert_eq!(
        PathEndpointField::EntryPoint.get_path_location(&route.path),
        ("A".to_string(), 500)
    );
    assert_eq!(
        PathEndpointField::ExitPoint.get_path_location(&route.path),
        ("B".to_string(), 0)
    );
    assert_eq!(PathEndpointField::EntryPoint.get_route_endpoint(&route).obj_id, "BF1");
    assert_eq!(PathEndpointField::ExitPoint.get_route_endpoint(&route).obj_id, "D1");
    assert_eq!(PathEndpointField::ExitPoint.to_string(), "\"exit_point\"");
}

#[test]
fn graph_links_both_ways() {
    let infra_cache = create_small_infra_cache();
    let graph = Graph::load(&infra_cache);
    let a_end = TrackEndpoint::new(Endpoint::End, "A");
    let b_begin = TrackEndpoint::new(Endpoint::Begin, "B");
    assert!(graph.is_connected(&a_end, &b_begin));
    assert!(graph.is_connected(&b_begin, &a_end));
    assert!(!graph.is_connected(&a_end, &TrackEndpoint::new(Endpoint::Begin, "C")));
}
