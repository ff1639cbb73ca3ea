use docstore::handlers::documents::create_document_with;
use docstore::handlers::permission::{grant_version_role, revoke_version_role};
use docstore::handlers::states::change_state_at;
use docstore::handlers::versions::{create_version_with, update_version_at};
use docstore::models::document::CreateDocumentRequest;
use docstore::models::event::EventType;
use docstore::models::role::DocumentVersionRole;
use docstore::models::version::{
    CreateInitialOrUpdateVersionRequest, CreateVersionWithParentsRequest, UpdateVersion,
    VersionChangeState,
};
use docstore::models::version_state::DocumentVersionState;
use docstore::repositories::documents::DocumentsRepository;
use docstore::repositories::events::EventsRepository;
use docstore::repositories::permission::PermissionRepository;
use docstore::repositories::RepoError;

const OWNER: u128 = 1;
const EDITOR: u128 = 2;
const REVIEWER: u128 = 3;
const STRANGER: u128 = 4;
const DOC: u128 = 100;
const V1: u128 = 101;
const T0: i64 = 1_000;
const T1: i64 = 2_000;
const T2: i64 = 3_000;
const EVENT_IDS: [u128; 3] = [9001, 9002, 9003];

struct World {
    documents: DocumentsRepository,
    roles: PermissionRepository,
    events: EventsRepository,
}

fn spec_request() -> CreateDocumentRequest {
    CreateDocumentRequest {
        document_name: "Spec".to_string(),
        initial_version: CreateInitialOrUpdateVersionRequest {
            version_name: "1.0".to_string(),
            content: "draft".to_string(),
        },
    }
}

fn world_with_spec() -> World {
    let mut world = World {
        documents: DocumentsRepository::new(),
        roles: PermissionRepository::new(),
        events: EventsRepository::new(),
    };
    let created = create_document_with(
        &mut world.documents,
        &mut world.roles,
        DOC,
        V1,
        T0,
        OWNER,
        spec_request(),
    );
    assert!(created.is_ok());
    assert_eq!(
        grant_version_role(&world.documents, &mut world.roles, &mut world.events, DOC, V1, EDITOR, DocumentVersionRole::Editor)
            .unwrap(),
        true
    );
    assert_eq!(
        grant_version_role(
            &world.documents,
            &mut world.roles,
            &mut world.events,
            DOC,
            V1,
            REVIEWER,
            DocumentVersionRole::Reviewer
        )
        .unwrap(),
        true
    );
    world
}

fn request(new_state: DocumentVersionState, updated_at: i64) -> VersionChangeState {
    VersionChangeState { new_state, updated_at }
}

#[test]
fn creating_a_document_returns_it_with_its_initial_version() {
    let mut documents = DocumentsRepository::new();
    let mut roles = PermissionRepository::new();
    let created =
        create_document_with(&mut documents, &mut roles, DOC, V1, T0, OWNER, spec_request()).unwrap();
    assert_eq!(created.document.document_id, DOC);
    assert_eq!(created.document.document_name, "Spec");
    assert_eq!(created.initial_version.document_id, DOC);
    assert_eq!(created.initial_version.version_id, V1);
    assert_eq!(created.initial_version.version_name, "1.0");
    assert_eq!(created.initial_version.content, "draft");
    assert_eq!(created.initial_version.version_state, DocumentVersionState::InProgress);
    assert_eq!(created.initial_version.created_at, T0);
    assert_eq!(created.initial_version.updated_at, T0);
    assert!(created.initial_version.parents.is_empty());
    assert!(created.initial_version.children.is_empty());
    assert!(roles.is_owner(OWNER, DOC, V1));
}

#[test]
fn a_user_without_any_role_may_not_read_a_version() {
    let world = world_with_spec();
    let read = world.documents.get_version(&world.roles, STRANGER, DOC, V1);
    assert!(matches!(read, Err(RepoError::Forbidden)));
    let read = world.documents.get_version(&world.roles, REVIEWER, DOC, V1).unwrap();
    assert_eq!(read.version_id, V1);
}

#[test]
fn a_stale_token_is_a_conflict_that_carries_the_current_version() {
    let mut world = world_with_spec();
    let moved = change_state_at(
        &mut world.documents,
        &world.roles,
        &mut world.events,
        OWNER,
        DOC,
        V1,
        request(DocumentVersionState::ReadyForReview, T0),
        T1,
        &EVENT_IDS.to_vec(),
    )
    .unwrap();
    assert_eq!(moved.version_state, DocumentVersionState::ReadyForReview);
    assert_eq!(moved.updated_at, T1);
    let late = change_state_at(
        &mut world.documents,
        &world.roles,
        &mut world.events,
        EDITOR,
        DOC,
        V1,
        request(DocumentVersionState::InProgress, T0),
        T2,
        &EVENT_IDS.to_vec(),
    );
    match late {
        Err(RepoError::ConcurrencyConflict(current)) => {
            assert_eq!(current.version_state, DocumentVersionState::ReadyForReview);
            assert_eq!(current.updated_at, T1);
            assert_eq!(current.version_id, V1);
        }
        other => panic!("expected a conflict, got {:?}", other),
    }
    let stored = world.documents.get_version(&world.roles, OWNER, DOC, V1).unwrap();
    assert_eq!(stored.version_state, DocumentVersionState::ReadyForReview);
    assert_eq!(stored.updated_at, T1);
}

#[test]
fn publishing_from_ready_for_review_is_rejected() {
    let mut world = world_with_spec();
    world
        .documents
        .change_state_at(DOC, V1, DocumentVersionState::ReadyForReview, T0, T1)
        .unwrap();
    let rejected =
        world.documents.change_state_at(DOC, V1, DocumentVersionState::Published, T1, T2);
    assert!(matches!(rejected, Err(RepoError::TransitionRejected)));
    let by_owner = change_state_at(
        &mut world.documents,
        &world.roles,
        &mut world.events,
        OWNER,
        DOC,
        V1,
        request(DocumentVersionState::Published, T1),
        T2,
        &EVENT_IDS.to_vec(),
    );
    assert!(matches!(by_owner, Err(RepoError::TransitionRejected)));
    let by_reviewer = change_state_at(
        &mut world.documents,
        &world.roles,
        &mut world.events,
        REVIEWER,
        DOC,
        V1,
        request(DocumentVersionState::Published, T1),
        T2,
        &EVENT_IDS.to_vec(),
    );
    assert!(matches!(by_reviewer, Err(RepoError::Forbidden)));
    let stored = world.documents.get_version(&world.roles, OWNER, DOC, V1).unwrap();
    assert_eq!(stored.version_state, DocumentVersionState::ReadyForReview);
    assert_eq!(stored.updated_at, T1);
}

#[test]
fn of_two_writers_with_one_token_one_wins() {
    let mut world = world_with_spec();
    let first = update_version_at(
        &mut world.documents,
        &world.roles,
        OWNER,
        DOC,
        V1,
        UpdateVersion { content: "first".to_string(), updated_at: T0 },
        T1,
    )
    .unwrap();
    assert_eq!(first.content, "first");
    assert_eq!(first.updated_at, T1);
    let second = update_version_at(
        &mut world.documents,
        &world.roles,
        EDITOR,
        DOC,
        V1,
        UpdateVersion { content: "second".to_string(), updated_at: T0 },
        T2,
    );
    match second {
        Err(RepoError::ConcurrencyConflict(current)) => {
            assert_eq!(current.updated_at, T1);
            assert_eq!(current.content, "first");
        }
        other => panic!("expected a conflict, got {:?}", other),
    }
}

#[test]
fn a_name_is_used_once_within_a_document() {
    let mut world = world_with_spec();
    let branch = |name: &str| CreateVersionWithParentsRequest {
        version_name: name.to_string(),
        content: String::new(),
        parents: vec![V1],
    };
    let first =
        create_version_with(&mut world.documents, &mut world.roles, 102, T1, OWNER, DOC, branch("1.1"))
            .unwrap();
    assert_eq!(first.parents, vec![V1]);
    assert_eq!(first.version_state, DocumentVersionState::InProgress);
    let second =
        create_version_with(&mut world.documents, &mut world.roles, 103, T2, EDITOR, DOC, branch("1.1"));
    assert!(matches!(second, Err(RepoError::UniqueConflict)));
    assert!(world.roles.is_owner(OWNER, DOC, 102));
    assert!(!world.roles.is_owner(EDITOR, DOC, 103));
    let parent = world.documents.get_version(&world.roles, OWNER, DOC, V1).unwrap();
    assert_eq!(parent.children, vec![102]);
}

#[test]
fn ownership_is_neither_granted_nor_revoked() {
    let mut world = world_with_spec();
    let granted =
        grant_version_role(&world.documents, &mut world.roles, &mut world.events, DOC, V1, EDITOR, DocumentVersionRole::Owner);
    assert!(matches!(granted, Err(RepoError::InvalidRequest)));
    assert!(!world.roles.is_owner(EDITOR, DOC, V1));
    let revoked =
        revoke_version_role(&mut world.roles, &mut world.events, DOC, V1, OWNER, DocumentVersionRole::Owner);
    assert!(matches!(revoked, Err(RepoError::InvalidRequest)));
    assert!(world.roles.is_owner(OWNER, DOC, V1));
}

#[test]
fn granting_twice_and_revoking_what_is_not_held_report_false() {
    let mut world = world_with_spec();
    let again =
        grant_version_role(&world.documents, &mut world.roles, &mut world.events, DOC, V1, EDITOR, DocumentVersionRole::Editor);
    assert_eq!(again.unwrap(), false);
    assert_eq!(world.roles.roles_of(EDITOR, DOC, V1), vec![DocumentVersionRole::Editor]);
    let absent = revoke_version_role(
        &mut world.roles,
        &mut world.events,
        DOC,
        V1,
        STRANGER,
        DocumentVersionRole::Viewer,
    );
    assert_eq!(absent.unwrap(), false);
    let held =
        revoke_version_role(&mut world.roles, &mut world.events, DOC, V1, EDITOR, DocumentVersionRole::Editor);
    assert_eq!(held.unwrap(), true);
    assert!(world.roles.roles_of(EDITOR, DOC, V1).is_empty());
    let events = world.events.get_events_for_user(EDITOR);
    assert_eq!(events.len(), 2);
    assert!(events
        .iter()
        .any(|event| event.event_type == EventType::RoleRemoved(DocumentVersionRole::Editor)));
}

#[test]
fn a_write_at_the_time_of_the_token_still_renews_the_token() {
    let mut world = world_with_spec();
    let first = update_version_at(
        &mut world.documents,
        &world.roles,
        OWNER,
        DOC,
        V1,
        UpdateVersion { content: "first".to_string(), updated_at: T0 },
        T0,
    )
    .unwrap();
    assert_eq!(first.updated_at, T0 + 1);
    assert_eq!(first.content, "first");
    let second = update_version_at(
        &mut world.documents,
        &world.roles,
        EDITOR,
        DOC,
        V1,
        UpdateVersion { content: "second".to_string(), updated_at: T0 },
        T0,
    );
    match second {
        Err(RepoError::ConcurrencyConflict(current)) => {
            assert_eq!(current.updated_at, T0 + 1);
            assert_eq!(current.content, "first");
        }
        other => panic!("expected a conflict, got {:?}", other),
    }
    let moved = change_state_at(
        &mut world.documents,
        &world.roles,
        &mut world.events,
        OWNER,
        DOC,
        V1,
        request(DocumentVersionState::ReadyForReview, T0 + 1),
        T0 - 500,
        &EVENT_IDS.to_vec(),
    )
    .unwrap();
    assert_eq!(moved.updated_at, T0 + 2);
    assert_eq!(moved.version_state, DocumentVersionState::ReadyForReview);
    let late = change_state_at(
        &mut world.documents,
        &world.roles,
        &mut world.events,
        EDITOR,
        DOC,
        V1,
        request(DocumentVersionState::InProgress, T0 + 1),
        T0 + 1,
        &vec![],
    );
    match late {
        Err(RepoError::ConcurrencyConflict(current)) => {
            assert_eq!(current.updated_at, T0 + 2);
            assert_eq!(current.version_state, DocumentVersionState::ReadyForReview);
        }
        other => panic!("expected a conflict, got {:?}", other),
    }
}

#[test]
fn a_role_is_granted_on_existing_versions_only() {
    let mut world = world_with_spec();
    let missing = grant_version_role(
        &world.documents,
        &mut world.roles,
        &mut world.events,
        DOC,
        999,
        STRANGER,
        DocumentVersionRole::Viewer,
    );
    assert!(matches!(missing, Err(RepoError::NotFound)));
    assert!(world.roles.roles_of(STRANGER, DOC, 999).is_empty());
    assert!(world.events.get_events_for_user(STRANGER).is_empty());
    let owner_first = grant_version_role(
        &world.documents,
        &mut world.roles,
        &mut world.events,
        DOC,
        999,
        STRANGER,
        DocumentVersionRole::Owner,
    );
    assert!(matches!(owner_first, Err(RepoError::InvalidRequest)));
}
