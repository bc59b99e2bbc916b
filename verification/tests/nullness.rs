use rpl_constraints::forward::PathForwardAnalysisConfig;
use rpl_constraints::mir::Location;
use rpl_constraints::null_analysis::{analyze_null_mirsa, is_null_mirsa, is_null_value, NullPtr};

const HERE: Location = Location { block: 0, statement_index: 4 };

#[test]
fn only_null_is_null() {
    assert!(is_null_value(Some(NullPtr::Null)));
    assert!(!is_null_value(Some(NullPtr::Bot)));
    assert!(!is_null_value(Some(NullPtr::NonNull)));
    assert!(!is_null_value(Some(NullPtr::MaybeNull)));
    assert!(!is_null_value(None));
}

#[test]
fn null_is_asked_of_the_state_before_the_location() {
    let query = |analysis: &u8, location: Location| {
        assert_eq!(*analysis, 3);
        assert_eq!(location, HERE);
        Some("state")
    };
    let value = |known: NullPtr| {
        move |state: &&str, local: usize| {
            assert_eq!(*state, "state");
            assert_eq!(local, 8);
            Some(known)
        }
    };
    assert!(is_null_mirsa(&3u8, HERE, 8, query, value(NullPtr::Null)));
    assert!(!is_null_mirsa(&3u8, HERE, 8, query, value(NullPtr::MaybeNull)));
    assert!(!is_null_mirsa(&3u8, HERE, 8, query, |_, _| None));
}

#[test]
fn nothing_is_null_without_a_state() {
    assert!(!is_null_mirsa(
        &3u8,
        HERE,
        8,
        |_, _| None::<u8>,
        |_, _| panic!("asked a state that is not there")
    ));
}

#[test]
fn null_analysis_is_configured() {
    let result = analyze_null_mirsa(
        &"body",
        |body| format!("graph of {body}"),
        |body| format!("places of {body}"),
        |body, graph, places, debug, config| {
            (body.to_string(), graph.clone(), places.clone(), debug, config)
        },
    );
    assert_eq!(result.0, "body");
    assert_eq!(result.1, "graph of body");
    assert_eq!(result.2, "places of body");
    assert!(!result.3);
    assert_eq!(
        result.4,
        PathForwardAnalysisConfig { max_paths: 128, widen_after_iterations: None }
    );
}
