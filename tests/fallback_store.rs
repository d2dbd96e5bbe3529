use porta::auth::{has_session, User};
use porta::error::{required_setting, Error as ServiceError};
use porta::model::fallback::{
    check_user, page_bounds, validate_user, Bounty, Database, Project, QueryOptions, Reward,
    UpdateBountySchema, UpdateProject,
};
use porta::model::Error;
use porta::response::porta_status;

fn project(code: &str) -> Project {
    Project {
        id: None,
        project_id: code.to_string(),
        project_name: "Pecunia Inception".to_string(),
        project_lead_address: "12345iawjejioj".to_string(),
        project_lead_reward: 10,
        project_budget: "1000.5".to_string(),
        project_denom: "USDC".to_string(),
        project_type: "AUX".to_string(),
        project_description: "Inception pecunia finance".to_string(),
        project_deliverables: "Inception pecunia finance".to_string(),
        completed: None,
        created_at: None,
        updated_at: None,
    }
}

fn bounty(bounty_id: &str, title: &str) -> Bounty {
    Bounty {
        id: None,
        bounty_id: bounty_id.to_string(),
        project_id: String::new(),
        title: title.to_string(),
        reward: Reward { amount: 5, denom: "USDC".to_string() },
        completed: None,
        created_at: None,
        updated_at: None,
    }
}

fn user(email: &str, password: &str, address: &str) -> User {
    User {
        id: None,
        email: email.to_string(),
        password: password.to_string(),
        address: address.to_string(),
    }
}

fn no_project_update() -> UpdateProject {
    UpdateProject {
        project_id: None,
        project_name: None,
        project_lead_address: None,
        project_lead_reward: None,
        project_budget: None,
        project_denom: None,
        project_type: None,
        project_description: None,
        project_deliverables: None,
        completed: None,
        created_at: None,
        updated_at: None,
    }
}

#[test]
fn create_project_stamps_and_refuses_duplicates() {
    let mut db = Database::new();
    let pos = db.create_project(project("AUX4"), 77, 1_000).unwrap();
    assert_eq!(pos, 0);
    let p = &db.projects[0];
    assert_eq!(p.id, Some(77));
    assert_eq!(p.completed, Some(false));
    assert_eq!(p.created_at, Some(1_000));
    assert_eq!(p.updated_at, Some(1_000));
    assert_eq!(
        db.create_project(project("AUX4"), 78, 2_000),
        Err(Error::EntityAlreadyExists { entity: "project", field: "project_id" })
    );
    assert!(matches!(
        db.create_project(project("AUX5"), 77, 2_000),
        Err(Error::StoreFailure { .. })
    ));
    assert_eq!(db.projects.len(), 1);
}

#[test]
fn edit_project_changes_only_given_fields() {
    let mut db = Database::new();
    db.create_project(project("AUX4"), 1, 10).unwrap();
    let mut upd = no_project_update();
    upd.project_name = Some("Pecunia Inception2".to_string());
    upd.project_lead_address = Some("arewfaewfawfwae".to_string());
    upd.project_denom = Some("XMR".to_string());
    upd.completed = Some(true);
    let pos = db.edit_project("AUX4", upd, 20).unwrap();
    let p = &db.projects[pos];
    assert_eq!(p.project_id, "AUX4");
    assert_eq!(p.project_name, "Pecunia Inception2");
    assert_eq!(p.project_lead_address, "arewfaewfawfwae");
    assert_eq!(p.project_denom, "XMR");
    assert_eq!(p.project_description, "Inception pecunia finance");
    assert_eq!(p.project_budget, "1000.5");
    assert_eq!(p.completed, Some(true));
    assert_eq!(p.created_at, Some(10));
    assert_eq!(p.updated_at, Some(20));
}

#[test]
fn edit_project_errors() {
    let mut db = Database::new();
    db.create_project(project("A1"), 1, 10).unwrap();
    db.create_project(project("A2"), 2, 10).unwrap();
    assert!(matches!(
        db.edit_project("ZZ", no_project_update(), 20),
        Err(Error::EntityKeyNotFound { entity: "project", ref key }) if key == "ZZ"
    ));
    let mut upd = no_project_update();
    upd.project_id = Some("A1".to_string());
    assert_eq!(
        db.edit_project("A2", upd, 20),
        Err(Error::EntityAlreadyExists { entity: "project", field: "project_id" })
    );
    assert_eq!(db.projects[1].project_id, "A2");
}

#[test]
fn delete_project_then_find_fails() {
    let mut db = Database::new();
    db.create_project(project("A1"), 1, 10).unwrap();
    db.create_project(project("A2"), 2, 10).unwrap();
    db.delete_project("A1").unwrap();
    assert_eq!(db.find_project("A1"), None);
    assert_eq!(db.find_project("A2"), Some(0));
    assert!(matches!(db.delete_project("A1"), Err(Error::EntityKeyNotFound { .. })));
}

#[test]
fn bounties_are_attached_and_edited() {
    let mut db = Database::new();
    db.create_bounty("p1".to_string(), bounty("b1", "first"), 1, 5).unwrap();
    db.create_bounty("p2".to_string(), bounty("b2", "second"), 2, 5).unwrap();
    db.create_bounty("p1".to_string(), bounty("b3", "third"), 3, 5).unwrap();
    assert_eq!(
        db.create_bounty("p1".to_string(), bounty("b4", "first"), 4, 5),
        Err(Error::EntityAlreadyExists { entity: "bounty", field: "title" })
    );
    assert_eq!(db.bounties_of_project("p1"), vec![0, 2]);
    assert_eq!(db.bounties[1].project_id, "p2");
    let pos = db
        .edit_bounty(
            "b3",
            UpdateBountySchema {
                bounty_id: None,
                project_id: None,
                title: Some("renamed".to_string()),
                content: Some("ignored".to_string()),
                completed: None,
                reward: Some(Reward { amount: 9, denom: "XMR".to_string() }),
            },
            8,
        )
        .unwrap();
    assert_eq!(pos, 2);
    assert_eq!(db.bounties[2].title, "renamed");
    assert_eq!(db.bounties[2].reward.amount, 9);
    assert_eq!(db.bounties[2].bounty_id, "b3");
    assert_eq!(db.bounties[2].completed, Some(false));
    assert_eq!(db.bounties[2].updated_at, Some(8));
    db.delete_bounty("b2").unwrap();
    assert_eq!(db.find_bounty("b2"), None);
    assert_eq!(db.find_bounty("b3"), Some(1));
}

#[test]
fn paging_windows() {
    let opts = |page, limit| QueryOptions { page, limit };
    assert_eq!(page_bounds(25, &QueryOptions::default()), (0, 10));
    assert_eq!(page_bounds(25, &opts(Some(3), None)), (20, 25));
    assert_eq!(page_bounds(25, &opts(Some(4), None)), (25, 25));
    assert_eq!(page_bounds(25, &opts(Some(2), Some(5))), (5, 10));
    assert_eq!(page_bounds(25, &opts(Some(0), Some(5))), (0, 0));
    assert_eq!(page_bounds(0, &QueryOptions::default()), (0, 0));
    assert_eq!(page_bounds(7, &opts(Some(usize::MAX), Some(usize::MAX))), (7, 7));
}

#[test]
fn user_rules() {
    let email_ok = true;
    assert_eq!(check_user(&user("a@b.io", "welcome", "3298420398490238jiweojwoeirjow"), email_ok), Ok(()));
    assert_eq!(
        check_user(&user("", "welcome", "addr123"), email_ok),
        Err(Error::ValidationFailure { field: "email", reason: "Email is required" })
    );
    assert_eq!(
        check_user(&user("a@b.io", "welcome", "addr123"), false),
        Err(Error::ValidationFailure { field: "email", reason: "Email is invalid" })
    );
    assert_eq!(
        check_user(&user("a@b.io", "short", "addr123"), email_ok),
        Err(Error::ValidationFailure { field: "password", reason: "Password must be at least 6 characters" })
    );
    assert_eq!(
        check_user(&user("a@b.io", "welcome", "addr"), email_ok),
        Err(Error::ValidationFailure { field: "address", reason: "Address must be at least 6 characters" })
    );
    assert_eq!(
        check_user(&user("a@b.io", "ééééé", "addr123"), email_ok),
        Err(Error::ValidationFailure { field: "password", reason: "Password must be at least 6 characters" })
    );
}

#[test]
fn validate_user_uses_email_rules() {
    assert_eq!(validate_user(&user("demo1@example.com", "welcome", "address1")), Ok(()));
    assert_eq!(
        validate_user(&user("demo1", "welcome", "address1")),
        Err(Error::ValidationFailure { field: "email", reason: "Email is invalid" })
    );
}

#[test]
fn users_register_and_log_in() {
    let mut db = Database::new();
    let pos = db.add_user(user("demo1@example.com", "welcome", "3298420398490238jiweojwoeirjow")).unwrap();
    assert_eq!(pos, 0);
    assert!(db.users[0].id.is_some());
    assert_eq!(
        db.add_user(user("other@example.com", "welcome", "3298420398490238jiweojwoeirjow")),
        Err(Error::EntityAlreadyExists { entity: "user", field: "address" })
    );
    assert_eq!(db.login("3298420398490238jiweojwoeirjow", "welcome"), Ok(0));
    assert_eq!(
        db.login("3298420398490238jiweojwoeirjow", "welcom"),
        Err(Error::AuthFailure { reason: "WrongCredential" })
    );
    assert_eq!(db.login("nobody", "welcome"), Err(Error::AuthFailure { reason: "UserDoesNotExist" }));
}

#[test]
fn many_creates_keep_every_record_and_distinct_ids() {
    let mut db = Database::new();
    let mut ok = 0;
    for i in 0..50 {
        if db.add_project(project(&format!("P{}", i))).is_ok() {
            ok += 1;
        }
    }
    assert_eq!(ok, 50);
    assert_eq!(db.projects.len(), 50);
    let mut ids: Vec<u128> = db.projects.iter().map(|p| p.id.unwrap()).collect();
    ids.sort();
    ids.dedup();
    assert_eq!(ids.len(), 50);
    for id in ids {
        assert_eq!((id >> 76) & 0xF, 4, "a random (version 4) identifier");
    }
    let created = db.projects[0].created_at.unwrap();
    assert!(created > 1_600_000_000_000, "a current time in milliseconds");
    assert_eq!(db.projects[0].created_at, db.projects[0].updated_at);
}

#[test]
fn add_bounty_draws_an_identifier() {
    let mut db = Database::new();
    db.add_bounty("p".to_string(), bounty("b", "t")).unwrap();
    assert!(db.add_bounty("p".to_string(), bounty("c", "t")).is_err());
    assert_eq!(db.bounties.len(), 1);
    assert!(db.bounties[0].id.is_some());
}

#[test]
fn settings_and_status() {
    assert_eq!(required_setting("JWT_SECRET", Some("s3cret".to_string())).unwrap(), "s3cret");
    assert!(matches!(
        required_setting("JWT_SECRET", None),
        Err(ServiceError::ConfigMissingEnv("JWT_SECRET"))
    ));
    assert!(matches!(
        required_setting("JWT_SECRET", Some(String::new())),
        Err(ServiceError::ConfigWrongFormat("JWT_SECRET"))
    ));
    let g = porta_status();
    assert_eq!(g.status, "success");
    assert_eq!(g.message, "Porta backend in Rust using Axum");
    assert!(has_session(&Some("user-1.exp.sign".to_string())));
    assert!(!has_session(&None));
}
