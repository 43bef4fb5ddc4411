use identity_service::authorization_repository::AuthorizationRepository;
use identity_service::authorization_service::AuthorizationService;
use identity_service::error::ServiceError;
use identity_service::session_repository::SessionRepository;
use identity_service::user_repository::UserRepository;
use identity_service::user_service::register_user;

const ALICE: u128 = 0xa11ce;
const EDITOR: u128 = 0xed;
const VIEWER: u128 = 0x71e;
const READ: u128 = 0x1;
const WRITE: u128 = 0x2;
const DELETE: u128 = 0x3;

fn text(id: u128) -> String {
    uuid::Uuid::from_u128(id).to_string()
}

fn graph() -> AuthorizationRepository {
    let mut repo = AuthorizationRepository::new();
    repo.create_role(EDITOR, "editor", "edits", 0).unwrap();
    repo.create_role(VIEWER, "viewer", "reads", 0).unwrap();
    repo.create_permission(READ, "read", "", 0).unwrap();
    repo.create_permission(WRITE, "write", "", 0).unwrap();
    repo.create_permission(DELETE, "delete", "", 0).unwrap();
    repo.assign_permission_to_role(EDITOR, READ).unwrap();
    repo.assign_permission_to_role(EDITOR, WRITE).unwrap();
    repo.assign_permission_to_role(VIEWER, READ).unwrap();
    repo
}

fn sorted(mut v: Vec<String>) -> Vec<String> {
    v.sort();
    v
}

#[test]
fn effective_permissions_are_union_of_roles() {
    let mut repo = graph();
    assert!(repo.get_user_permissions(ALICE).is_empty());
    repo.assign_role(ALICE, VIEWER).unwrap();
    assert_eq!(repo.get_user_permissions(ALICE), vec!["read".to_string()]);
    repo.assign_role(ALICE, EDITOR).unwrap();
    assert_eq!(
        sorted(repo.get_user_permissions(ALICE)),
        vec!["read".to_string(), "write".to_string()]
    );
    assert!(repo.check_permission(ALICE, "write"));
    assert!(!repo.check_permission(ALICE, "delete"));
    assert!(!repo.check_permission(ALICE, "unknown"));
}

#[test]
fn assign_then_revoke_restores_permissions() {
    let mut repo = graph();
    repo.assign_role(ALICE, VIEWER).unwrap();
    let before = sorted(repo.get_user_permissions(ALICE));
    repo.assign_role(ALICE, EDITOR).unwrap();
    assert_ne!(sorted(repo.get_user_permissions(ALICE)), before);
    repo.revoke_role(ALICE, EDITOR);
    assert_eq!(sorted(repo.get_user_permissions(ALICE)), before);
}

#[test]
fn assign_role_twice_conflicts_and_keeps_first() {
    let mut service = AuthorizationService::new(graph());
    let (u, r) = (text(ALICE), text(EDITOR));
    service.assign_role(&u, &r).unwrap();
    assert_eq!(service.assign_role(&u, &r).unwrap_err(), ServiceError::Conflict);
    assert_eq!(service.roles_for_user(&u).unwrap().len(), 1);
    assert!(service.check_permission(&u, "write").unwrap());
}

#[test]
fn assign_unknown_role_is_not_found() {
    let mut repo = graph();
    assert_eq!(repo.assign_role(ALICE, 0xbad).unwrap_err(), ServiceError::NotFound);
    assert!(repo.get_roles_for_user(ALICE).is_empty());
}

#[test]
fn revoke_absent_role_succeeds() {
    let mut service = AuthorizationService::new(graph());
    assert!(service.revoke_role(&text(ALICE), &text(EDITOR)).is_ok());
}

#[test]
fn malformed_ids_are_invalid_arguments() {
    let mut service = AuthorizationService::new(graph());
    assert_eq!(
        service.get_user_permissions("nope").unwrap_err(),
        ServiceError::InvalidArgument
    );
    assert_eq!(
        service.assign_role("nope", &text(EDITOR)).unwrap_err(),
        ServiceError::InvalidArgument
    );
    assert_eq!(
        service.check_permission("", "read").unwrap_err(),
        ServiceError::InvalidArgument
    );
    assert_eq!(
        service.assign_permission_to_role(&text(EDITOR), "x").unwrap_err(),
        ServiceError::InvalidArgument
    );
    assert_eq!(service.delete_role("x").unwrap_err(), ServiceError::InvalidArgument);
    assert!(service.roles_for_user(&text(ALICE)).unwrap().is_empty());
}

#[test]
fn permission_links_conflict_and_not_found() {
    let mut service = AuthorizationService::new(graph());
    let (editor, read, delete) = (text(EDITOR), text(READ), text(DELETE));
    assert_eq!(
        service.assign_permission_to_role(&editor, &read).unwrap_err(),
        ServiceError::Conflict
    );
    assert_eq!(
        service.assign_permission_to_role(&editor, &text(0xbad)).unwrap_err(),
        ServiceError::NotFound
    );
    service.assign_permission_to_role(&editor, &delete).unwrap();
    service.assign_role(&text(ALICE), &editor).unwrap();
    assert!(service.check_permission(&text(ALICE), "delete").unwrap());
    service.remove_permission_from_role(&editor, &delete).unwrap();
    service.remove_permission_from_role(&editor, &delete).unwrap();
    assert!(!service.check_permission(&text(ALICE), "delete").unwrap());
}

#[test]
fn get_user_permissions_by_text_id() {
    let mut service = AuthorizationService::new(graph());
    service.assign_role(&text(ALICE), &text(EDITOR)).unwrap();
    assert_eq!(
        service.get_user_permissions(&text(ALICE)).unwrap(),
        vec!["read".to_string(), "write".to_string()]
    );
}

#[test]
fn delete_role_drops_its_edges() {
    let mut service = AuthorizationService::new(graph());
    service.assign_role(&text(ALICE), &text(EDITOR)).unwrap();
    service.delete_role(&text(EDITOR)).unwrap();
    assert!(service.get_user_permissions(&text(ALICE)).unwrap().is_empty());
    assert_eq!(service.delete_role(&text(EDITOR)).unwrap_err(), ServiceError::NotFound);
    assert_eq!(service.list_roles().len(), 1);
}

#[test]
fn delete_permission_drops_its_links() {
    let mut repo = graph();
    repo.assign_role(ALICE, EDITOR).unwrap();
    repo.delete_permission(WRITE).unwrap();
    assert_eq!(repo.get_user_permissions(ALICE), vec!["read".to_string()]);
    assert_eq!(repo.delete_permission(WRITE).unwrap_err(), ServiceError::NotFound);
}

#[test]
fn role_and_permission_names_are_unique() {
    let mut service = AuthorizationService::new(graph());
    assert_eq!(service.create_role("editor", "again").unwrap_err(), ServiceError::Conflict);
    assert_eq!(service.create_permission("read").unwrap_err(), ServiceError::Conflict);
    let role = service.create_role("auditor", "audits").unwrap();
    assert_eq!(role.name, "auditor");
    let p = service.create_permission("audit").unwrap();
    assert_eq!(p.description, "");
    assert_eq!(service.get_permission_by_name("audit").unwrap().id, p.id);
    assert_eq!(
        service.get_permission_by_name("missing").unwrap_err(),
        ServiceError::NotFound
    );
    assert_eq!(service.list_permissions().len(), 4);
}

#[test]
fn rename_role_and_permission() {
    let mut repo = graph();
    assert_eq!(repo.update_role(EDITOR, "viewer", 5).unwrap_err(), ServiceError::Conflict);
    assert_eq!(repo.update_role(0xbad, "x", 5).unwrap_err(), ServiceError::NotFound);
    repo.update_role(EDITOR, "author", 5).unwrap();
    assert_eq!(repo.get_role_by_name("author").unwrap().id, EDITOR);
    assert_eq!(repo.get_role_by_name("editor").unwrap_err(), ServiceError::NotFound);
    repo.update_permission(WRITE, "edit", 6).unwrap();
    let p = repo.get_permission_by_name("edit").unwrap();
    assert_eq!(p.updated_at, 6);
    assert_eq!(
        repo.update_permission(WRITE, "read", 7).unwrap_err(),
        ServiceError::Conflict
    );
}

#[test]
fn register_user_gets_default_role() {
    let mut users = UserRepository::new();
    let mut repo = graph();
    assert_eq!(
        register_user(&mut users, &mut repo, "n".to_string(), "n@x.com".to_string(), "pw")
            .unwrap_err(),
        ServiceError::NotFound
    );
    assert!(users.find_by_email_and_password("n@x.com").is_none());
    repo.create_role(0x05e7, "user", "default", 0).unwrap();
    repo.assign_permission_to_role(0x05e7, READ).unwrap();
    let id = register_user(&mut users, &mut repo, "n".to_string(), "n@x.com".to_string(), "pw")
        .unwrap();
    assert_eq!(repo.get_user_permissions(id), vec!["read".to_string()]);
    assert_eq!(repo.get_roles_for_user(id)[0].name, "user");
}

#[test]
fn get_role_and_its_permissions() {
    let service = AuthorizationService::new(graph());
    assert_eq!(service.get_role(&text(EDITOR)).unwrap().name, "editor");
    assert_eq!(service.get_role(&text(0xbad)).unwrap_err(), ServiceError::NotFound);
    assert_eq!(service.get_role("?").unwrap_err(), ServiceError::InvalidArgument);
    let names: Vec<String> = service
        .get_role_permissions(&text(EDITOR))
        .unwrap()
        .into_iter()
        .map(|p| p.name)
        .collect();
    assert_eq!(names, vec!["read".to_string(), "write".to_string()]);
    assert_eq!(
        service.get_role_permissions(&text(0xbad)).unwrap_err(),
        ServiceError::NotFound
    );
}

#[test]
fn validate_access_combines_session_and_permission() {
    let mut service = AuthorizationService::new(graph());
    service.assign_role(&text(ALICE), &text(VIEWER)).unwrap();
    let mut sessions = SessionRepository::new();
    sessions.create_session(0x5e55, ALICE, None, None, 1, 0).unwrap();
    let header = format!("Bearer {}", text(0x5e55));
    assert_eq!(service.validate_access(&mut sessions, Some(&header), "read", 10), Ok(true));
    assert_eq!(service.validate_access(&mut sessions, Some(&header), "write", 10), Ok(false));
    assert_eq!(
        service.validate_access(&mut sessions, None, "read", 10),
        Err(ServiceError::Unauthenticated)
    );
    assert_eq!(
        service.validate_access(&mut sessions, Some(&header), "read", 3_600_000),
        Err(ServiceError::Unauthenticated)
    );
}
