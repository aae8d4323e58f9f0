use mercator_core::index::build_index;
use mercator_core::model::{Axis, Properties, Shape, Space, SpatialObject};
use mercator_core::pipeline::{
    pipeline_action, pipeline_start, pipeline_step, QueryAction, QueryError, QueryEvent,
    QueryState,
};
use mercator_core::query::{
    execute_all_cores, execute_retrieval, CoreQueryParameters, DataBase, ExecutionError,
    Retrieval,
};
use mercator_core::service::{Core, Filters, Query, SharedState};

fn bits(values: &[f64]) -> Vec<u64> {
    values.iter().map(|v| v.to_bits()).collect()
}

fn axis() -> Axis {
    Axis::new(
        "mm".to_string(),
        bits(&[1.0, 0.0, 0.0]),
        "R",
        0f64.to_bits(),
        1f64.to_bits(),
        10,
    )
    .unwrap()
}

fn named_space(name: &str) -> Space {
    Space {
        name: name.to_string(),
        origin: bits(&[0.0, 0.0, 0.0]),
        axes: vec![axis(), axis(), axis()],
    }
}

fn point_object(id: &str, space: &str, coords: [f64; 3]) -> SpatialObject {
    SpatialObject {
        properties: Properties { kind: "Feature".to_string(), id: id.to_string() },
        shapes: vec![Shape {
            kind: "Point".to_string(),
            reference_space: space.to_string(),
            vertices: vec![bits(&coords)],
        }],
    }
}

fn no_parameters() -> CoreQueryParameters {
    CoreQueryParameters {
        output_space: None,
        threshold_volume: None,
        view_port: None,
        resolution: None,
    }
}

fn sample_db() -> DataBase {
    let objects = vec![
        point_object("A", "std", [0.0, 0.0, 0.0]),
        point_object("A", "std", [1.0, 1.0, 1.0]),
        point_object("B", "std", [5.0, 5.0, 5.0]),
    ];
    let cores = build_index("10k", vec![named_space("std")], &objects).unwrap();
    DataBase::new(vec![named_space("std")], cores)
}

#[test]
fn execute_unknown_core_is_an_error() {
    let db = sample_db();
    match execute_retrieval(&db, "41-doesnotexists", &no_parameters(), &Retrieval::All) {
        Err(ExecutionError::UnknownCore(name)) => assert_eq!(name, "41-doesnotexists"),
        other => panic!("expected an unknown-core error, got {:?}", other),
    }
}

#[test]
fn execute_unknown_output_space_is_an_error() {
    let db = sample_db();
    let parameters = CoreQueryParameters {
        output_space: Some("nowhere".to_string()),
        threshold_volume: None,
        view_port: None,
        resolution: None,
    };
    match execute_retrieval(&db, "10k", &parameters, &Retrieval::All) {
        Err(ExecutionError::UnknownSpace(name)) => assert_eq!(name, "nowhere"),
        other => panic!("expected an unknown-space error, got {:?}", other),
    }
}

#[test]
fn execute_all_returns_every_record() {
    let db = sample_db();
    let results = execute_retrieval(&db, "10k", &no_parameters(), &Retrieval::All).unwrap();
    assert_eq!(results.len(), 3);
    let mut ids: Vec<&str> = results.iter().map(|o| o.id.as_str()).collect();
    ids.sort_unstable();
    assert_eq!(ids, vec!["A", "A", "B"]);
    assert!(results.iter().all(|o| o.space_id == "std"));
}

#[test]
fn execute_by_id_returns_only_that_feature() {
    let db = sample_db();
    let results = execute_retrieval(
        &db,
        "10k",
        &no_parameters(),
        &Retrieval::ById("A".to_string()),
    )
    .unwrap();
    assert_eq!(results.len(), 2);
    assert!(results.iter().all(|o| o.id == "A"));
    let none = execute_retrieval(
        &db,
        "10k",
        &no_parameters(),
        &Retrieval::ById("C".to_string()),
    )
    .unwrap();
    assert!(none.is_empty());
}

#[test]
fn fan_out_reports_each_core_separately() {
    let space = named_space("std");
    let mut cores = build_index("first", vec![space.clone()], &vec![point_object(
        "A",
        "std",
        [0.0, 0.0, 0.0],
    )])
    .unwrap();
    cores.extend(
        build_index("second", vec![space.clone()], &vec![point_object(
            "B",
            "std",
            [1.0, 1.0, 1.0],
        )])
        .unwrap(),
    );
    let db = DataBase::new(vec![space], cores);
    let outcomes = execute_all_cores(&db, &no_parameters(), &Retrieval::All);
    assert_eq!(outcomes.len(), 2);
    assert_eq!(outcomes[0].0, "first");
    assert_eq!(outcomes[1].0, "second");
    assert_eq!(outcomes[0].1.as_ref().unwrap().len(), 1);
    assert_eq!(outcomes[0].1.as_ref().unwrap()[0].id, "A");
    assert_eq!(outcomes[1].1.as_ref().unwrap()[0].id, "B");
}

#[test]
fn database_lookups_and_keys() {
    let db = sample_db();
    assert_eq!(db.space_keys(), vec!["std".to_string()]);
    assert_eq!(db.core_keys(), vec!["10k".to_string()]);
    assert!(db.space("std").is_some());
    assert!(db.space("21-doesnotexists").is_none());
    assert!(db.find_core("10k").is_some());
    assert!(db.find_core("41-doesnotexists").is_none());
    assert_eq!(db.find_core("10k").unwrap().keys().len(), 2);
}

#[test]
fn empty_query_fails_at_parse_without_further_work() {
    let state = pipeline_start("");
    assert!(matches!(state, QueryState::Failed(QueryError::EmptyQuery)));
    assert!(pipeline_action(&state).is_none());
}

#[test]
fn pipeline_walks_the_stages_in_order() {
    let state = pipeline_start("json(.,inside(hyperrectangle{[0,0,0],[0,1,1]}))");
    assert!(matches!(state, QueryState::Received));
    assert_eq!(pipeline_action(&state), Some(QueryAction::Parse));
    let state = pipeline_step(state, QueryEvent::ParseOk);
    assert!(matches!(state, QueryState::Parsed));
    assert_eq!(pipeline_action(&state), Some(QueryAction::Validate));
    let state = pipeline_step(state, QueryEvent::ValidateOk);
    assert!(matches!(state, QueryState::Validated));
    assert_eq!(pipeline_action(&state), Some(QueryAction::Execute));
    let state = pipeline_step(state, QueryEvent::ExecuteOk);
    assert!(matches!(state, QueryState::Executed));
    assert!(pipeline_action(&state).is_none());
}

#[test]
fn parse_failure_keeps_the_grammar_message() {
    let state = pipeline_start("toto");
    let state = pipeline_step(state, QueryEvent::ParseFailed("unexpected token".to_string()));
    match state {
        QueryState::Failed(QueryError::Parse(message)) => {
            assert_eq!(message, "unexpected token")
        },
        other => panic!("expected a parse failure, got {:?}", other),
    }
}

#[test]
fn validation_failure_is_generic() {
    let state = pipeline_step(QueryState::Parsed, QueryEvent::ValidateFailed(
        "specific cause".to_string(),
    ));
    assert!(matches!(state, QueryState::Failed(QueryError::Validation)));
}

#[test]
fn execution_failure_carries_the_engine_error() {
    let state = pipeline_step(
        QueryState::Validated,
        QueryEvent::ExecuteFailed(ExecutionError::UnknownCore("42".to_string())),
    );
    match state {
        QueryState::Failed(QueryError::Execution(ExecutionError::UnknownCore(name))) => {
            assert_eq!(name, "42")
        },
        other => panic!("expected an execution failure, got {:?}", other),
    }
}

#[test]
fn filters_ids_only_defaults_to_true() {
    let f = Filters {
        filters: None,
        ids_only: None,
        space: None,
        resolution: None,
        view_port: None,
    };
    assert!(f.ids_only());
    let f = Filters { ids_only: Some(false), ..f };
    assert!(!f.ids_only());
}

#[test]
fn filters_validate_the_output_space() {
    let db = sample_db();
    let good = Filters {
        filters: None,
        ids_only: None,
        space: Some("std".to_string()),
        resolution: None,
        view_port: None,
    };
    assert_eq!(good.space(&db).unwrap(), Some("std".to_string()));
    let bad = Filters { space: Some("nowhere".to_string()), ..good.clone() };
    match bad.space(&db) {
        Err(ExecutionError::UnknownSpace(name)) => assert_eq!(name, "nowhere"),
        other => panic!("expected an unknown-space error, got {:?}", other),
    }
    let unset = Filters { space: None, ..good };
    assert_eq!(unset.space(&db).unwrap(), None);
}

#[test]
fn filters_assemble_parameters() {
    let f = Filters {
        filters: Some("inside".to_string()),
        ids_only: Some(true),
        space: Some("std".to_string()),
        resolution: Some(vec![0, 1, 2]),
        view_port: Some((bits(&[0.0, 0.0, 0.0]), bits(&[1.0, 1.0, 1.0]))),
    };
    let volume = Some(8f64.to_bits());
    let p = f.to_parameters(volume);
    assert_eq!(p.output_space, Some("std".to_string()));
    assert_eq!(p.threshold_volume, volume);
    assert_eq!(p.resolution, Some(vec![0, 1, 2]));
    assert_eq!(
        p.view_port,
        Some((bits(&[0.0, 0.0, 0.0]), bits(&[1.0, 1.0, 1.0])))
    );
    assert_eq!(*f.filters(), Some("inside".to_string()));
    assert_eq!(*f.resolution(), Some(vec![0, 1, 2]));
}

#[test]
fn query_body_accessors() {
    let q = Query {
        query: "json(.,inside(hyperrectangle{[0,0,0],[0,1,1]}))".to_string(),
        resolution: Some(vec![0]),
        view_port: None,
    };
    assert_eq!(q.query(), "json(.,inside(hyperrectangle{[0,0,0],[0,1,1]}))");
    assert_eq!(*q.resolution(), Some(vec![0]));
    assert!(q.volume().is_none());
}

#[test]
fn shared_state_hands_out_the_database() {
    let state = SharedState::new(sample_db());
    assert_eq!(state.db().core_keys(), vec!["10k".to_string()]);
    assert_eq!(state.db().space_keys(), vec!["std".to_string()]);
}

#[test]
fn core_summary_reports_name_version_and_finest_scale() {
    let db = sample_db();
    let summary = Core::of_index(db.find_core("10k").unwrap());
    assert_eq!(summary.name, "10k");
    assert_eq!(summary.version, "v0.1");
    assert_eq!(summary.scales, vec![vec![0, 0, 0]]);
}
