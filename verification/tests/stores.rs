use docstore::handlers::comments::create_comment;
use docstore::handlers::sets::{
    add_to_document_set_version, create_document_set, create_document_set_version,
    remove_from_document_set_version,
};
use docstore::handlers::states::{change_state, change_state_at, is_entitled};
use docstore::models::comment::CreateDocumentVersionComment;
use docstore::models::document_set::CreateDocumentSet;
use docstore::models::set_version::{
    CreateInitialSetVersion, CreateSetVersionWithParents, UpdateSetVersion,
};
use docstore::handlers::versions::{create_version, create_version_with, update_version};
use docstore::handlers::documents::update_document;
use docstore::models::document::{CreateDocumentRequest, UpdateDocumentRequest};
use docstore::models::event::EventType;
use docstore::models::role::DocumentVersionRole;
use docstore::models::version::{
    CreateInitialOrUpdateVersionRequest, CreateVersionWithParentsRequest, UpdateVersion,
    VersionChangeState,
};
use docstore::models::version_state::DocumentVersionState;
use docstore::repositories::comments::CommentsRepository;
use docstore::repositories::document_sets::DocumentSetsRepository;
use docstore::repositories::documents::{has_duplicates, renew_token, DocumentsRepository};
use docstore::repositories::events::EventsRepository;
use docstore::repositories::files::{find_match, same_content, FilesRepository};
use docstore::repositories::permission::{contains_id, PermissionRepository};
use docstore::models::version_state::DocumentVersionState::{InProgress, Published, ReadyForReview, Reviewed};
use docstore::repositories::users::UsersRepository;
use docstore::repositories::RepoError;

const ANN: u128 = 1;
const BOB: u128 = 2;
const DOC: u128 = 100;
const V1: u128 = 101;
const V2: u128 = 102;
const V3: u128 = 103;

fn one_document() -> (DocumentsRepository, PermissionRepository) {
    let mut documents = DocumentsRepository::new();
    let mut roles = PermissionRepository::new();
    documents
        .create_document_with(
            &mut roles,
            DOC,
            V1,
            10,
            "Spec".to_string(),
            ANN,
            "1.0".to_string(),
            "draft".to_string(),
        )
        .unwrap();
    (documents, roles)
}

fn derive(
    documents: &mut DocumentsRepository,
    roles: &mut PermissionRepository,
    id: u128,
    now: i64,
    name: &str,
    parents: Vec<u128>,
) -> Result<docstore::models::version::DocumentVersion, RepoError> {
    documents.create_version_with(roles, id, now, ANN, DOC, name.to_string(), String::new(), parents)
}

#[test]
fn a_document_is_refused_for_its_names_and_identifier() {
    let (mut documents, mut roles) = one_document();
    let mut create = |id: u128, name: &str, version: &str| {
        documents.create_document_with(
            &mut roles,
            id,
            900,
            20,
            name.to_string(),
            BOB,
            version.to_string(),
            String::new(),
        )
    };
    assert!(matches!(create(200, "Other", "one"), Err(RepoError::InvalidRequest)));
    assert!(matches!(create(200, "Spec", "1.0"), Err(RepoError::UniqueConflict)));
    assert!(matches!(create(DOC, "Other", "1.0"), Err(RepoError::StoreFailure)));
    assert!(create(200, "Other", "1.0").is_ok());
    assert!(!roles.is_owner(BOB, DOC, 900));
    assert!(roles.is_owner(BOB, 200, 900));
}

#[test]
fn a_version_is_refused_for_what_it_names() {
    let (mut documents, mut roles) = one_document();
    assert!(matches!(
        derive(&mut documents, &mut roles, V2, 20, "1.1", vec![]),
        Err(RepoError::InvalidRequest)
    ));
    assert!(matches!(
        derive(&mut documents, &mut roles, V2, 20, "1.1", vec![V1, V1]),
        Err(RepoError::InvalidRequest)
    ));
    assert!(matches!(
        derive(&mut documents, &mut roles, V2, 20, "1.x", vec![V1]),
        Err(RepoError::InvalidRequest)
    ));
    assert!(matches!(
        documents.create_version_with(
            &mut roles,
            V2,
            20,
            ANN,
            999,
            "1.1".to_string(),
            String::new(),
            vec![V1]
        ),
        Err(RepoError::NotFound)
    ));
    assert!(matches!(
        derive(&mut documents, &mut roles, V2, 20, "1.0", vec![V1]),
        Err(RepoError::UniqueConflict)
    ));
    assert!(matches!(
        derive(&mut documents, &mut roles, V2, 20, "1.1", vec![V1, 555]),
        Err(RepoError::NotFound)
    ));
    assert!(matches!(
        derive(&mut documents, &mut roles, V1, 20, "1.1", vec![V1]),
        Err(RepoError::StoreFailure)
    ));
    assert!(!documents.contains_version(DOC, V2));
    assert!(derive(&mut documents, &mut roles, V2, 20, "1.1", vec![V1]).is_ok());
    assert!(documents.contains_version(DOC, V2));
}

#[test]
fn parents_and_children_mirror_each_other() {
    let (mut documents, mut roles) = one_document();
    derive(&mut documents, &mut roles, V2, 20, "1.1", vec![V1]).unwrap();
    let merged = derive(&mut documents, &mut roles, V3, 30, "2.0", vec![V2, V1]).unwrap();
    assert_eq!(merged.parents, vec![V2, V1]);
    assert!(merged.children.is_empty());
    let first = documents.get_version(&roles, ANN, DOC, V1).unwrap();
    assert!(first.parents.is_empty());
    assert_eq!(first.children, vec![V2, V3]);
    let second = documents.get_version(&roles, ANN, DOC, V2).unwrap();
    assert_eq!(second.parents, vec![V1]);
    assert_eq!(second.children, vec![V3]);
    let third = documents.get_version(&roles, ANN, DOC, V3).unwrap();
    assert_eq!(third.parents, vec![V2, V1]);
}

#[test]
fn versions_are_listed_oldest_first_and_only_where_a_role_is_held() {
    let (mut documents, mut roles) = one_document();
    derive(&mut documents, &mut roles, V2, 5, "0.9", vec![V1]).unwrap();
    derive(&mut documents, &mut roles, V3, 10, "1.1", vec![V1]).unwrap();
    let names = |listed: Vec<docstore::models::version::DocumentVersion>| {
        listed.into_iter().map(|version| version.version_id).collect::<Vec<u128>>()
    };
    assert_eq!(names(documents.get_versions(&roles, ANN, DOC)), vec![V2, V1, V3]);
    assert!(documents.get_versions(&roles, BOB, DOC).is_empty());
    assert!(roles.grant_document_version_role(BOB, DOC, V3, DocumentVersionRole::Viewer));
    assert_eq!(names(documents.get_versions(&roles, BOB, DOC)), vec![V3]);
    assert!(documents.get_versions(&roles, ANN, 999).is_empty());
    assert!(matches!(documents.get_version(&roles, BOB, DOC, V1), Err(RepoError::Forbidden)));
    assert!(matches!(documents.get_version(&roles, BOB, DOC, 999), Err(RepoError::Forbidden)));
}

#[test]
fn documents_are_read_where_a_role_is_held_on_a_version() {
    let (mut documents, mut roles) = one_document();
    documents
        .create_document_with(
            &mut roles,
            200,
            201,
            20,
            "Plan".to_string(),
            BOB,
            "1".to_string(),
            String::new(),
        )
        .unwrap();
    assert_eq!(documents.get_document(&roles, ANN, DOC).unwrap().document_name, "Spec");
    assert!(matches!(documents.get_document(&roles, ANN, 200), Err(RepoError::Forbidden)));
    assert!(matches!(documents.get_document(&roles, ANN, 999), Err(RepoError::Forbidden)));
    let seen: Vec<u128> =
        documents.get_documents(&roles, BOB).into_iter().map(|d| d.document_id).collect();
    assert_eq!(seen, vec![200]);
    roles.grant_document_version_role(BOB, DOC, V1, DocumentVersionRole::Reviewer);
    let seen: Vec<u128> =
        documents.get_documents(&roles, BOB).into_iter().map(|d| d.document_id).collect();
    assert_eq!(seen, vec![DOC, 200]);
}

#[test]
fn a_document_is_renamed_by_an_owner() {
    let (mut documents, mut roles) = one_document();
    documents
        .create_document_with(&mut roles, 200, 201, 20, "Plan".to_string(), BOB, "1".to_string(), String::new())
        .unwrap();
    let rename = |name: &str| UpdateDocumentRequest { document_name: name.to_string() };
    assert!(matches!(
        update_document(&mut documents, &roles, BOB, DOC, rename("Draft")),
        Err(RepoError::Forbidden)
    ));
    roles.grant_document_version_role(BOB, DOC, V1, DocumentVersionRole::Editor);
    assert!(matches!(
        update_document(&mut documents, &roles, BOB, DOC, rename("Draft")),
        Err(RepoError::Forbidden)
    ));
    assert!(matches!(
        update_document(&mut documents, &roles, ANN, DOC, rename("Plan")),
        Err(RepoError::UniqueConflict)
    ));
    assert_eq!(update_document(&mut documents, &roles, ANN, DOC, rename("Spec")).unwrap(), true);
    assert_eq!(update_document(&mut documents, &roles, ANN, DOC, rename("Draft")).unwrap(), true);
    assert_eq!(documents.get_document(&roles, ANN, DOC).unwrap().document_name, "Draft");
    assert_eq!(documents.update_document(999, "Other".to_string()).unwrap(), false);
    assert_eq!(documents.get_document(&roles, BOB, 200).unwrap().document_name, "Plan");
}

#[test]
fn every_pair_of_states_has_its_outcome() {
    let path_to = |state: DocumentVersionState| -> Vec<DocumentVersionState> {
        match state {
            InProgress => vec![],
            ReadyForReview => vec![ReadyForReview],
            Reviewed => vec![ReadyForReview, Reviewed],
            Published => vec![ReadyForReview, Reviewed, Published],
        }
    };
    for from in [InProgress, ReadyForReview, Reviewed, Published] {
        for target in [InProgress, ReadyForReview, Reviewed, Published] {
            let (mut documents, _roles) = one_document();
            let mut token = 10;
            for step in path_to(from) {
                token = documents.change_state_at(DOC, V1, step, token, token + 1).unwrap().updated_at;
            }
            let outcome = documents.change_state_at(DOC, V1, target, token, token + 1);
            if from.can_enter(target) {
                let moved = outcome.unwrap();
                assert_eq!(moved.version_state, target);
                assert_eq!(moved.updated_at, token + 1);
                assert_eq!(moved.content, "draft");
            } else {
                assert!(matches!(outcome, Err(RepoError::TransitionRejected)));
            }
        }
    }
}

#[test]
fn a_change_to_an_unknown_version_is_not_found() {
    let (mut documents, _roles) = one_document();
    assert!(matches!(
        documents.change_state_at(DOC, 999, DocumentVersionState::ReadyForReview, 10, 11),
        Err(RepoError::NotFound)
    ));
    assert!(matches!(
        documents.update_version_at(999, V1, "x".to_string(), 10, 11),
        Err(RepoError::NotFound)
    ));
}

#[test]
fn the_last_token_cannot_be_renewed() {
    let mut documents = DocumentsRepository::new();
    let mut roles = PermissionRepository::new();
    documents
        .create_document_with(
            &mut roles,
            DOC,
            V1,
            i64::MAX,
            "Spec".to_string(),
            ANN,
            "1.0".to_string(),
            "draft".to_string(),
        )
        .unwrap();
    assert!(matches!(
        documents.update_version_at(DOC, V1, "x".to_string(), i64::MAX, 5),
        Err(RepoError::StoreFailure)
    ));
    assert!(matches!(
        documents.change_state_at(DOC, V1, DocumentVersionState::ReadyForReview, i64::MAX, i64::MAX),
        Err(RepoError::StoreFailure)
    ));
    assert!(matches!(
        documents.change_state_at(DOC, V1, DocumentVersionState::Published, i64::MAX, 5),
        Err(RepoError::TransitionRejected)
    ));
    let stored = documents.get_version(&roles, ANN, DOC, V1).unwrap();
    assert_eq!(stored.content, "draft");
    assert_eq!(stored.updated_at, i64::MAX);
    assert_eq!(renew_token(10, 11), Some(11));
    assert_eq!(renew_token(10, 10), Some(11));
    assert_eq!(renew_token(10, -3), Some(11));
    assert_eq!(renew_token(i64::MAX, 0), None);
}

#[test]
fn content_changes_only_while_in_progress() {
    let (mut documents, _roles) = one_document();
    let edited = documents.update_version_at(DOC, V1, "better".to_string(), 10, 11).unwrap();
    assert_eq!(edited.content, "better");
    assert_eq!(edited.updated_at, 11);
    assert_eq!(edited.created_at, 10);
    documents.change_state_at(DOC, V1, DocumentVersionState::ReadyForReview, 11, 12).unwrap();
    assert!(matches!(
        documents.update_version_at(DOC, V1, "late".to_string(), 12, 13),
        Err(RepoError::TransitionRejected)
    ));
    match documents.update_version_at(DOC, V1, "stale".to_string(), 11, 13) {
        Err(RepoError::ConcurrencyConflict(current)) => {
            assert_eq!(current.content, "better");
            assert_eq!(current.updated_at, 12);
        }
        other => panic!("expected a conflict, got {:?}", other),
    }
}

#[test]
fn the_role_gate_follows_the_target_state() {
    let (_documents, mut roles) = one_document();
    roles.grant_document_version_role(BOB, DOC, V1, DocumentVersionRole::Reviewer);
    roles.grant_document_version_role(3, DOC, V1, DocumentVersionRole::Editor);
    roles.grant_document_version_role(4, DOC, V1, DocumentVersionRole::Viewer);
    roles.grant_document_version_role(5, DOC, V1, DocumentVersionRole::Publisher);
    let gate = |user: u128| -> Vec<bool> {
        [InProgress, ReadyForReview, Reviewed, Published]
            .into_iter()
            .map(|target| is_entitled(&roles, user, DOC, V1, target))
            .collect()
    };
    assert_eq!(gate(ANN), vec![true, true, false, true]);
    assert_eq!(gate(BOB), vec![false, false, true, false]);
    assert_eq!(gate(3), vec![true, true, false, false]);
    assert_eq!(gate(4), vec![false, false, false, false]);
    assert_eq!(gate(5), vec![false, false, false, false]);
    assert!(!is_entitled(&roles, ANN, DOC, V2, ReadyForReview));
}

#[test]
fn a_state_change_notifies_every_holder_once() {
    let (mut documents, mut roles) = one_document();
    let mut events = EventsRepository::new();
    roles.grant_document_version_role(BOB, DOC, V1, DocumentVersionRole::Reviewer);
    roles.grant_document_version_role(BOB, DOC, V1, DocumentVersionRole::Viewer);
    let request =
        VersionChangeState { new_state: DocumentVersionState::ReadyForReview, updated_at: 10 };
    change_state_at(&mut documents, &roles, &mut events, ANN, DOC, V1, request, 11, &vec![71, 72]).unwrap();
    for user in [ANN, BOB] {
        let listed = events.get_events_for_user(user);
        assert_eq!(listed.len(), 1);
        assert_eq!(listed[0].event_type, EventType::StatusChange(DocumentVersionState::ReadyForReview));
        assert_eq!(listed[0].document_id, DOC);
        assert_eq!(listed[0].version_id, V1);
        assert!(!listed[0].seen);
    }
    let refused =
        VersionChangeState { new_state: DocumentVersionState::Published, updated_at: 11 };
    assert!(change_state_at(&mut documents, &roles, &mut events, ANN, DOC, V1, refused, 12, &vec![73, 74]).is_err());
    assert_eq!(events.get_events_for_user(ANN).len(), 1);
    assert_eq!(roles.role_holders(DOC, V1), vec![ANN, BOB]);
}

#[test]
fn the_clock_and_fresh_identifiers_serve_the_use_cases() {
    let mut documents = DocumentsRepository::new();
    let mut roles = PermissionRepository::new();
    let mut events = EventsRepository::new();
    let created = docstore::handlers::documents::create_document(
        &mut documents,
        &mut roles,
        ANN,
        CreateDocumentRequest {
            document_name: "Spec".to_string(),
            initial_version: CreateInitialOrUpdateVersionRequest {
                version_name: "1.0".to_string(),
                content: "draft".to_string(),
            },
        },
    )
    .unwrap();
    let document = created.document.document_id;
    let first = created.initial_version;
    assert_ne!(document, first.version_id);
    assert!(first.created_at > 1_600_000_000_000_000);
    assert_eq!(first.created_at, first.updated_at);
    assert!(roles.is_owner(ANN, document, first.version_id));
    let second = create_version(
        &mut documents,
        &mut roles,
        ANN,
        document,
        CreateVersionWithParentsRequest {
            version_name: "1.1".to_string(),
            content: String::new(),
            parents: vec![first.version_id],
        },
    )
    .unwrap();
    assert_ne!(second.version_id, first.version_id);
    assert!(second.created_at >= first.created_at);
    let edited = update_version(
        &mut documents,
        &roles,
        ANN,
        document,
        second.version_id,
        UpdateVersion { content: "text".to_string(), updated_at: second.updated_at },
    )
    .unwrap();
    assert_eq!(edited.content, "text");
    let moved = change_state(
        &mut documents,
        &roles,
        &mut events,
        ANN,
        document,
        second.version_id,
        VersionChangeState {
            new_state: DocumentVersionState::ReadyForReview,
            updated_at: edited.updated_at,
        },
    )
    .unwrap();
    assert_eq!(moved.version_state, DocumentVersionState::ReadyForReview);
    let listed = events.get_events_for_user(ANN);
    assert_eq!(listed.len(), 1);
    assert!(listed[0].created_at >= first.created_at);
}

#[test]
fn a_version_is_derived_only_from_what_the_user_sees() {
    let (mut documents, mut roles) = one_document();
    let request = |name: &str, parents: Vec<u128>| CreateVersionWithParentsRequest {
        version_name: name.to_string(),
        content: String::new(),
        parents,
    };
    let blind = create_version_with(&mut documents, &mut roles, V2, 20, BOB, DOC, request("1.1", vec![V1]));
    assert!(matches!(blind, Err(RepoError::Forbidden)));
    let invalid = create_version_with(&mut documents, &mut roles, V2, 20, ANN, DOC, request("1.1", vec![]));
    assert!(matches!(invalid, Err(RepoError::InvalidRequest)));
    roles.grant_document_version_role(BOB, DOC, V1, DocumentVersionRole::Viewer);
    let seen = create_version_with(&mut documents, &mut roles, V2, 20, BOB, DOC, request("1.1", vec![V1]));
    assert_eq!(seen.unwrap().version_id, V2);
    assert!(roles.is_owner(BOB, DOC, V2));
}

#[test]
fn events_are_listed_unseen_first_and_latest_first() {
    let mut events = EventsRepository::new();
    let kind = EventType::RoleAdded(DocumentVersionRole::Viewer);
    events.create_event_with(1, 100, DOC, V1, ANN, kind).unwrap();
    events.create_event_with(2, 300, DOC, V1, ANN, kind).unwrap();
    events.create_event_with(3, 200, DOC, V1, ANN, kind).unwrap();
    events.create_event_with(4, 400, DOC, V1, BOB, kind).unwrap();
    assert!(matches!(events.create_event_with(3, 500, DOC, V1, ANN, kind), Err(RepoError::StoreFailure)));
    let ids = |events: &EventsRepository, user: u128| -> Vec<u128> {
        events.get_events_for_user(user).into_iter().map(|event| event.event_id).collect()
    };
    assert_eq!(ids(&events, ANN), vec![2, 3, 1]);
    events.mark_read(2);
    assert_eq!(ids(&events, ANN), vec![3, 1, 2]);
    events.mark_read(999);
    events.mark_read(1);
    assert_eq!(ids(&events, ANN), vec![3, 2, 1]);
    assert!(events.get_events_for_user(ANN)[1].seen);
    assert_eq!(ids(&events, BOB), vec![4]);
    let mut recipients = vec![ANN, BOB];
    recipients.push(7);
    events.notify(&recipients, DOC, V2, EventType::StatusChange(DocumentVersionState::Reviewed));
    assert_eq!(events.get_events_for_user(7).len(), 1);
    assert_eq!(events.get_events_for_user(BOB).len(), 2);
    assert_eq!(events.get_events_for_user(7)[0].created_at, events.get_events_for_user(BOB)[0].created_at);
}

#[test]
fn each_recipient_is_notified_exactly_if_its_identifier_is_free() {
    let mut events = EventsRepository::new();
    let kind = EventType::StatusChange(DocumentVersionState::Published);
    events.create_event_with(2, 100, DOC, V1, ANN, kind).unwrap();
    events.notify_with(&vec![10, 11, 12, 13, 14], &vec![1, 2, 3, 1], 500, DOC, V1, kind);
    let of = |events: &EventsRepository, user: u128| -> Vec<(u128, i64)> {
        events
            .get_events_for_user(user)
            .into_iter()
            .map(|event| (event.event_id, event.created_at))
            .collect()
    };
    assert_eq!(of(&events, 10), vec![(1, 500)]);
    assert!(of(&events, 11).is_empty());
    assert_eq!(of(&events, 12), vec![(3, 500)]);
    assert!(of(&events, 13).is_empty());
    assert!(of(&events, 14).is_empty());
    assert_eq!(of(&events, ANN), vec![(2, 100)]);
    let listed = events.get_events_for_user(12);
    assert_eq!(listed[0].event_type, kind);
    assert_eq!(listed[0].document_id, DOC);
    assert_eq!(listed[0].version_id, V1);
    assert!(!listed[0].seen);
}

#[test]
fn members_are_the_registered_holders_with_their_roles() {
    let (_documents, mut roles) = one_document();
    let mut users = UsersRepository::new();
    users.create_user_with(ANN, 11, "ann".to_string(), "pw".to_string()).unwrap();
    users.create_user_with(BOB, 12, "bob".to_string(), "pw".to_string()).unwrap();
    roles.grant_document_version_role(BOB, DOC, V1, DocumentVersionRole::Reviewer);
    roles.grant_document_version_role(BOB, DOC, V1, DocumentVersionRole::Editor);
    roles.grant_document_version_role(9, DOC, V1, DocumentVersionRole::Viewer);
    let members = roles.get_document_version_users(&users, DOC, V1);
    assert_eq!(members.len(), 2);
    assert_eq!(members[0].user.username, "ann");
    assert_eq!(members[0].roles, vec![DocumentVersionRole::Owner]);
    assert_eq!(members[1].user.user_id, BOB);
    assert_eq!(members[1].roles, vec![DocumentVersionRole::Reviewer, DocumentVersionRole::Editor]);
    let bob = roles.get_document_version_user(&users, BOB, DOC, V1).unwrap();
    assert_eq!(bob.roles.len(), 2);
    assert!(roles.get_document_version_user(&users, 9, DOC, V1).is_none());
    assert!(roles.get_document_version_user(&users, BOB, DOC, V2).is_none());
    let all: Vec<String> =
        roles.get_all_users(&users).into_iter().map(|user| user.username).collect();
    assert_eq!(all, vec!["ann".to_string(), "bob".to_string()]);
    assert!(roles.does_user_have_document_version_roles(
        BOB,
        DOC,
        V1,
        &[DocumentVersionRole::Owner, DocumentVersionRole::Editor]
    ));
    assert!(!roles.does_user_have_document_version_roles(BOB, DOC, V1, &[DocumentVersionRole::Owner]));
    assert!(!roles.does_user_have_document_version_roles(BOB, DOC, V1, &[]));
    assert!(roles.has_role_in_document(BOB, DOC));
    assert!(!roles.has_role_in_document(BOB, 999));
    assert!(roles.revoke_document_version_role(BOB, DOC, V1, DocumentVersionRole::Reviewer));
    assert!(!roles.revoke_document_version_role(BOB, DOC, V1, DocumentVersionRole::Reviewer));
    assert_eq!(roles.roles_of(BOB, DOC, V1), vec![DocumentVersionRole::Editor]);
}

#[test]
fn document_sets_bundle_document_versions() {
    let (mut documents, mut roles) = one_document();
    derive(&mut documents, &mut roles, V2, 20, "1.1", vec![V1]).unwrap();
    let mut sets = DocumentSetsRepository::new();
    let made = sets
        .create_document_set_with(
            &documents,
            500,
            501,
            30,
            ANN,
            "Release".to_string(),
            "1".to_string(),
            vec![(DOC, V1)],
        )
        .unwrap();
    assert_eq!(made.document_set.document_set_name, "Release");
    assert_eq!(made.initial_version.document_version_ids, vec![(DOC, V1)]);
    assert!(made.initial_version.parents.is_empty());
    let mut refuse = |set: u128, id: u128, name: &str, version: &str, members: Vec<(u128, u128)>| {
        sets.create_document_set_with(&documents, set, id, 31, ANN, name.to_string(), version.to_string(), members)
    };
    assert!(matches!(refuse(600, 601, "Other", "x", vec![]), Err(RepoError::InvalidRequest)));
    assert!(matches!(
        refuse(600, 601, "Other", "1", vec![(DOC, V1), (DOC, V1)]),
        Err(RepoError::InvalidRequest)
    ));
    assert!(matches!(refuse(600, 601, "Release", "1", vec![]), Err(RepoError::UniqueConflict)));
    assert!(matches!(refuse(600, 601, "Other", "1", vec![(DOC, 999)]), Err(RepoError::NotFound)));
    assert!(matches!(refuse(500, 601, "Other", "1", vec![]), Err(RepoError::StoreFailure)));
    let next = sets
        .create_document_set_version_with(
            &documents,
            502,
            25,
            ANN,
            500,
            "2".to_string(),
            vec![(DOC, V2), (DOC, V1)],
            vec![501],
        )
        .unwrap();
    assert_eq!(next.parents, vec![501]);
    let mut derive_set = |id: u128, name: &str, members: Vec<(u128, u128)>, parents: Vec<u128>| {
        sets.create_document_set_version_with(&documents, id, 40, ANN, 500, name.to_string(), members, parents)
    };
    assert!(matches!(derive_set(503, "3", vec![], vec![]), Err(RepoError::InvalidRequest)));
    assert!(matches!(derive_set(503, "2", vec![], vec![501]), Err(RepoError::UniqueConflict)));
    assert!(matches!(derive_set(503, "3", vec![], vec![777]), Err(RepoError::NotFound)));
    assert!(matches!(derive_set(503, "3", vec![(7, 7)], vec![501]), Err(RepoError::NotFound)));
    assert!(matches!(derive_set(502, "3", vec![], vec![501]), Err(RepoError::StoreFailure)));
    let listed = sets.get_document_set_versions(ANN, 500);
    assert_eq!(listed.len(), 2);
    assert_eq!(listed[0].set_version_id, 502);
    assert_eq!(listed[0].document_version_ids, vec![(DOC, V2), (DOC, V1)]);
    assert_eq!(listed[1].set_version_id, 501);
    assert_eq!(listed[1].children, vec![502]);
    assert_eq!(sets.get_document_sets(ANN).len(), 1);
    assert_eq!(sets.add_to_document_set_version(&documents, ANN, 500, 501, DOC, V2).unwrap(), true);
    assert_eq!(sets.add_to_document_set_version(&documents, ANN, 500, 501, DOC, V2).unwrap(), false);
    assert!(matches!(
        sets.add_to_document_set_version(&documents, ANN, 500, 999, DOC, V2),
        Err(RepoError::NotFound)
    ));
    assert!(matches!(
        sets.add_to_document_set_version(&documents, ANN, 500, 501, DOC, 999),
        Err(RepoError::NotFound)
    ));
    assert!(sets.remove_from_document_set_version(ANN, 500, 501, DOC, V1));
    assert!(!sets.remove_from_document_set_version(ANN, 500, 501, DOC, V1));
    let listed = sets.get_document_set_versions(ANN, 500);
    assert_eq!(listed[1].document_version_ids, vec![(DOC, V2)]);
    let fresh = create_document_set(
        &mut sets,
        &documents,
        ANN,
        CreateDocumentSet {
            document_set_name: "Bundle".to_string(),
            initial_version: CreateInitialSetVersion {
                set_version_name: "1".to_string(),
                document_version_ids: vec![],
            },
        },
    )
    .unwrap();
    let set = fresh.document_set.document_set_id;
    let fresh_version = create_document_set_version(
        &mut sets,
        &documents,
        ANN,
        set,
        CreateSetVersionWithParents {
            set_version_name: "2".to_string(),
            document_version_ids: vec![(DOC, V1)],
            parents: vec![fresh.initial_version.set_version_id],
        },
    )
    .unwrap();
    assert_eq!(fresh_version.document_set_id, set);
    let member = UpdateSetVersion { document_id: DOC, version_id: V2 };
    let version = fresh_version.set_version_id;
    assert_eq!(add_to_document_set_version(&mut sets, &documents, ANN, set, version, member).unwrap(), true);
    assert!(remove_from_document_set_version(&mut sets, ANN, set, version, member));
    assert!(!remove_from_document_set_version(&mut sets, ANN, set, version, member));
    let bad = CreateSetVersionWithParents {
        set_version_name: "3".to_string(),
        document_version_ids: vec![],
        parents: vec![],
    };
    assert!(!bad.validate());
    assert!(matches!(
        create_document_set_version(&mut sets, &documents, ANN, set, bad),
        Err(RepoError::InvalidRequest)
    ));
}

#[test]
fn content_is_filed_once_and_kept_while_attached() {
    let (documents, roles) = one_document();
    let mut files = FilesRepository::new();
    let name = "notes.txt".to_string();
    assert!(files.upload_candidates(&name, b"hello").is_empty());
    let (first, to_store) =
        files.try_upload_file_with(None, 700, name.clone(), "text/plain".to_string(), b"hello");
    let first = first.unwrap();
    assert_eq!(to_store, Some(700));
    assert_eq!(first.file_hash, FilesRepository::file_hash(b"hello"));
    assert_eq!(first.file_mime_type, "text/plain");
    let candidates = files.upload_candidates(&name, b"hello");
    assert_eq!(candidates, vec![700]);
    assert!(files.upload_candidates(&name, b"other").is_empty());
    assert!(files.upload_candidates(&"else.txt".to_string(), b"hello").is_empty());
    let known = find_match(&candidates, &vec![b"hello".to_vec()], b"hello");
    assert_eq!(known, Some(700));
    assert_eq!(find_match(&candidates, &vec![b"hellp".to_vec()], b"hello"), None);
    assert_eq!(find_match(&vec![1, 2, 3], &vec![vec![9], vec![7], vec![7]], &[7]), Some(2));
    assert_eq!(find_match(&candidates, &vec![], b"hello"), None);
    let (again, to_store) =
        files.try_upload_file_with(known, 701, name.clone(), "text/plain".to_string(), b"hello");
    assert_eq!(again.unwrap().file_id, 700);
    assert_eq!(to_store, None);
    let (clash, to_store) =
        files.try_upload_file_with(None, 700, name.clone(), "text/plain".to_string(), b"x");
    assert!(matches!(clash, Err(RepoError::StoreFailure)));
    assert_eq!(to_store, None);
    let (missing, _) = files.try_upload_file_with(Some(999), 702, name.clone(), String::new(), b"x");
    assert!(matches!(missing, Err(RepoError::NotFound)));
    let (fresh, to_store) = files.try_upload_file(None, name.clone(), String::new(), b"y");
    assert_eq!(to_store, Some(fresh.unwrap().file_id));
    assert_eq!(documents.attach_file(&mut files, DOC, V1, 700).unwrap(), true);
    assert_eq!(documents.attach_file(&mut files, DOC, V1, 700).unwrap(), false);
    assert!(matches!(documents.attach_file(&mut files, DOC, 999, 700), Err(RepoError::NotFound)));
    assert!(matches!(documents.attach_file(&mut files, DOC, V1, 999), Err(RepoError::NotFound)));
    assert_eq!(documents.get_file_attachments(&roles, &files, ANN, DOC, V1).len(), 1);
    assert!(documents.get_file_attachments(&roles, &files, BOB, DOC, V1).is_empty());
    assert_eq!(documents.get_file_attachment(&roles, &files, ANN, DOC, V1, 700).unwrap().file_name, "notes.txt");
    assert!(matches!(documents.get_file_attachment(&roles, &files, BOB, DOC, V1, 700), Err(RepoError::Forbidden)));
    assert!(matches!(documents.get_file_attachment(&roles, &files, ANN, DOC, V1, 999), Err(RepoError::Forbidden)));
    assert!(!files.try_delete_file(700));
    assert!(documents.detach_file(&mut files, DOC, V1, 700));
    assert!(!documents.detach_file(&mut files, DOC, V1, 700));
    assert!(files.try_delete_file(700));
    assert!(!files.try_delete_file(700));
    assert!(same_content(b"abc", b"abc"));
    assert!(!same_content(b"abc", b"abd"));
    assert!(!same_content(b"abc", b"ab"));
}

#[test]
fn comments_are_shown_with_their_authors() {
    let (_documents, roles) = one_document();
    let mut users = UsersRepository::new();
    users.create_user_with(ANN, 11, "ann".to_string(), "pw".to_string()).unwrap();
    let mut comments = CommentsRepository::new();
    let made = comments
        .create_comment_with(&users, 800, 50, ANN, DOC, V1, "looks good".to_string())
        .unwrap();
    assert_eq!(made.username, "ann");
    assert_eq!(made.created_at, 50);
    assert!(matches!(
        comments.create_comment_with(&users, 801, 51, BOB, DOC, V1, "hi".to_string()),
        Err(RepoError::NotFound)
    ));
    assert!(matches!(
        comments.create_comment_with(&users, 800, 51, ANN, DOC, V1, "hi".to_string()),
        Err(RepoError::StoreFailure)
    ));
    comments.create_comment_with(&users, 802, 52, ANN, DOC, V2, "elsewhere".to_string()).unwrap();
    let fresh = create_comment(
        &mut comments,
        &users,
        ANN,
        DOC,
        V1,
        CreateDocumentVersionComment { content: "again".to_string() },
    )
    .unwrap();
    assert_eq!(fresh.content, "again");
    let listed = comments.get_comments(&roles, &users, ANN, DOC, V1);
    assert_eq!(listed.len(), 2);
    assert_eq!(listed[0].content, "looks good");
    assert_eq!(listed[0].comment_id, 800);
    assert_eq!(listed[1].content, "again");
    assert!(comments.get_comments(&roles, &users, BOB, DOC, V1).is_empty());
    assert!(comments.get_comments(&roles, &users, ANN, DOC, V2).is_empty());
}

#[test]
fn identifier_lists_are_searched() {
    assert!(contains_id(&vec![1, 2, 3], 2));
    assert!(!contains_id(&vec![1, 2, 3], 4));
    assert!(has_duplicates(&vec![1, 2, 1]));
    assert!(!has_duplicates(&vec![1, 2, 3]));
    assert!(!has_duplicates(&vec![]));
}
