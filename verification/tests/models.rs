use docstore::config::TracingConfig;
use docstore::models::event::{from_sql, to_sql, Event, EventType};
use docstore::models::role::{DocumentVersionRole, Role, UnknownCode};
use docstore::models::version::{
    is_decimal_digit, is_valid_version_name, CreateInitialOrUpdateVersionRequest,
    CreateVersionWithParentsRequest,
};
use docstore::models::version_state::DocumentVersionState;
use docstore::models::version_state::DocumentVersionState::{InProgress, Published, ReadyForReview, Reviewed};
use docstore::models::role::DocumentVersionRole::{Editor, Owner, Reviewer};
use regex::Regex;

const ROLES: [DocumentVersionRole; 5] = [
    DocumentVersionRole::Owner,
    DocumentVersionRole::Viewer,
    DocumentVersionRole::Editor,
    DocumentVersionRole::Reviewer,
    DocumentVersionRole::Publisher,
];

const STATES: [DocumentVersionState; 4] = [
    DocumentVersionState::InProgress,
    DocumentVersionState::ReadyForReview,
    DocumentVersionState::Reviewed,
    DocumentVersionState::Published,
];

#[test]
fn roles_are_persisted_under_their_codes() {
    for (code, role) in ROLES.iter().enumerate() {
        assert_eq!(i16::from(*role), code as i16);
        assert_eq!(DocumentVersionRole::try_from(code as i16), Ok(*role));
    }
    assert_eq!(DocumentVersionRole::try_from(5), Err(UnknownCode { code: 5 }));
    assert_eq!(DocumentVersionRole::try_from(-1), Err(UnknownCode { code: -1 }));
    assert_eq!(i16::from(Role::Admin), 0);
}

#[test]
fn states_are_persisted_under_their_codes() {
    for (code, state) in STATES.iter().enumerate() {
        assert_eq!(i16::from(*state), code as i16);
        assert_eq!(DocumentVersionState::try_from(code as i16), Ok(*state));
    }
    assert_eq!(DocumentVersionState::try_from(4), Err(UnknownCode { code: 4 }));
}

#[test]
fn event_kinds_are_persisted_in_three_columns() {
    assert_eq!(to_sql(&EventType::RoleAdded(DocumentVersionRole::Editor)), (0, Some(2), None));
    assert_eq!(to_sql(&EventType::RoleRemoved(DocumentVersionRole::Reviewer)), (1, Some(3), None));
    assert_eq!(to_sql(&EventType::StatusChange(DocumentVersionState::Published)), (2, None, Some(3)));
    let role = DocumentVersionRole::Viewer;
    let state = DocumentVersionState::Reviewed;
    assert_eq!(from_sql(0, role, state), EventType::RoleAdded(role));
    assert_eq!(from_sql(1, role, state), EventType::RoleRemoved(role));
    assert_eq!(from_sql(2, role, state), EventType::StatusChange(state));
}

#[test]
fn the_transition_table_allows_five_moves() {
    let allowed = [
        (InProgress, ReadyForReview),
        (ReadyForReview, Reviewed),
        (Reviewed, Published),
        (ReadyForReview, InProgress),
        (Reviewed, InProgress),
    ];
    for from in STATES {
        for target in STATES {
            assert_eq!(from.can_enter(target), allowed.contains(&(from, target)));
            assert_eq!(target.allowed_sources().contains(&from), allowed.contains(&(from, target)));
        }
    }
    assert_eq!(InProgress.allowed_sources(), vec![ReadyForReview, Reviewed]);
    assert_eq!(Published.allowed_sources(), vec![Reviewed]);
}

#[test]
fn each_target_state_has_its_role_gate() {
    assert_eq!(DocumentVersionState::InProgress.required_roles(), vec![Owner, Editor]);
    assert_eq!(DocumentVersionState::ReadyForReview.required_roles(), vec![Owner, Editor]);
    assert_eq!(DocumentVersionState::Reviewed.required_roles(), vec![Reviewer]);
    assert_eq!(DocumentVersionState::Published.required_roles(), vec![Owner]);
}

#[test]
fn version_names_are_dotted_numerals() {
    let pattern = Regex::new(r"^\d+(\.\d+)*$").unwrap();
    let names = [
        "1", "0", "1.0", "1.2.3", "10.20.30.40", "007", "", ".", "1.", ".1", "1..2", "1.2.", "a",
        "1.a", "1 .2", "1.2\n", "-1", "1,2", "v1", " 1",
    ];
    for name in names {
        assert_eq!(is_valid_version_name(name), pattern.is_match(name), "{:?}", name);
    }
    assert!(is_valid_version_name("1.2.3"));
    assert!(!is_valid_version_name("1..3"));
    assert!(!is_valid_version_name(""));
}

#[test]
fn digits_of_other_scripts_count_as_the_pattern_has_them() {
    let pattern = Regex::new(r"^\d+(\.\d+)*$").unwrap();
    let names = [
        "\u{661}.\u{662}",
        "\u{661}\u{662}\u{663}",
        "\u{ff11}\u{ff12}",
        "1.\u{663}.0",
        "\u{966}.1",
        "\u{663}.",
        ".\u{663}",
        "1.\u{b2}",
        "\u{2163}",
        "1.\u{e9}",
        "1\u{3002}2",
        "\u{661}..\u{662}",
    ];
    for name in names {
        assert_eq!(is_valid_version_name(name), pattern.is_match(name), "{:?}", name);
    }
    assert!(is_valid_version_name("\u{661}.\u{662}"));
    assert!(is_valid_version_name("1.\u{663}.0"));
    assert!(!is_valid_version_name("1.\u{b2}"));
    assert!(!is_valid_version_name("\u{2163}"));
    assert!(is_decimal_digit('7'));
    assert!(is_decimal_digit('\u{ff17}'));
    assert!(!is_decimal_digit('.'));
    assert!(!is_decimal_digit('x'));
    assert!(!is_decimal_digit('\u{bd}'));
}

#[test]
fn requests_are_validated_by_name_and_parents() {
    let initial = |name: &str| CreateInitialOrUpdateVersionRequest {
        version_name: name.to_string(),
        content: String::new(),
    };
    assert!(initial("1.0").validate());
    assert!(!initial("one").validate());
    let derived = |name: &str, parents: Vec<u128>| CreateVersionWithParentsRequest {
        version_name: name.to_string(),
        content: String::new(),
        parents,
    };
    assert!(derived("1.1", vec![1]).validate());
    assert!(!derived("1.1", vec![]).validate());
    assert!(!derived("x", vec![1]).validate());
}

#[test]
fn unseen_events_come_first_and_then_the_latest() {
    let event = |seen: bool, created_at: i64| Event {
        event_id: 1,
        user_id: 1,
        document_id: 1,
        version_id: 1,
        event_type: EventType::StatusChange(DocumentVersionState::Reviewed),
        seen,
        created_at,
    };
    assert!(event(false, 1).comes_before(&event(true, 9)));
    assert!(!event(true, 9).comes_before(&event(false, 1)));
    assert!(event(false, 5).comes_before(&event(false, 4)));
    assert!(!event(false, 4).comes_before(&event(false, 5)));
    assert!(event(true, 4).comes_before(&event(true, 4)));
}

#[test]
fn filter_directives_are_joined_by_commas() {
    let config = |directives: Vec<&str>| TracingConfig {
        console: true,
        json_directory: None,
        directives: directives.into_iter().map(|directive| directive.to_string()).collect(),
    };
    assert_eq!(config(vec![]).prepare_filter_directives(), "");
    assert_eq!(config(vec!["webserver=debug"]).prepare_filter_directives(), "webserver=debug");
    assert_eq!(
        config(vec!["webserver=debug", "tower_http=info", "warn"]).prepare_filter_directives(),
        "webserver=debug,tower_http=info,warn"
    );
}
