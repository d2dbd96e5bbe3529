use porta::ctx::Ctx;
use porta::dev_utils::seed_tasks;
use porta::model::bounty::{Bounty, BountyBmc, BountyForCreate, BountyForUpdate};
use porta::model::project::{ProjectBmc, ProjectForCreate, ProjectForUpdate};
use porta::model::{Error, ModelManager};

fn bounty_c(text: &str) -> BountyForCreate {
    BountyForCreate {
        bounty_title: text.to_string(),
        bounty_assignee: text.to_string(),
        bounty_deliverables: text.to_string(),
        bounty_description: text.to_string(),
        bounty_reward: text.to_string(),
    }
}

#[test]
fn test_create_ok() {
    let mut mm = ModelManager::new();
    let ctx = Ctx::root_ctx();
    let fx_title = "test_create_ok title";
    let id = BountyBmc::create(&ctx, &mut mm, bounty_c(fx_title)).unwrap();
    let bounty = BountyBmc::get(&ctx, &mm, id).unwrap();
    assert_eq!(bounty.bounty_title, fx_title);
    BountyBmc::delete(&ctx, &mut mm, id).unwrap();
    let id = BountyBmc::create(&ctx, &mut mm, bounty_c(fx_title)).unwrap();
    let bounty = BountyBmc::get(&ctx, &mm, id).unwrap();
    assert_eq!(bounty.bounty_title, fx_title);
    BountyBmc::delete(&ctx, &mut mm, id).unwrap();
}

#[test]
fn test_get_err_not_found() {
    let mm = ModelManager::new();
    let ctx = Ctx::root_ctx();
    let res = BountyBmc::get(&ctx, &mm, 99);
    assert!(matches!(
        res,
        Err(Error::EntityNotFound {
            entity: "bounty",
            id: 99,
        })
    ),);
}

#[test]
fn test_delete_bounty_ok() {
    let mut mm = ModelManager::new();
    let ctx = Ctx::root_ctx();
    let fx_id = 99;
    let res = BountyBmc::delete(&ctx, &mut mm, fx_id);
    assert!(
        matches!(
            res,
            Err(Error::EntityNotFound {
                entity: "bounty",
                id: 99,
            })
        ),
        "EntityNotFound not matching"
    );
}

#[test]
fn test_list_ok() {
    let mut mm = ModelManager::new();
    let ctx = Ctx::root_ctx();
    let fx_titles = &["test_list_ok-bounty 01", "test_list_ok-bounty 02"];
    seed_tasks(&ctx, &mut mm, fx_titles).unwrap();
    let bounties = BountyBmc::list(&ctx, &mm).unwrap();
    let bounties: Vec<Bounty> = bounties
        .into_iter()
        .filter(|t| t.bounty_title.starts_with("test_list_ok"))
        .collect();
    assert_eq!(bounties.len(), 2, "number of seeded bounties");
    for bounty in bounties.iter() {
        BountyBmc::delete(&ctx, &mut mm, bounty.id).unwrap();
    }
}

#[test]
fn test_update_ok() {
    let mut mm = ModelManager::new();
    let ctx = Ctx::root_ctx();
    let fx_title = "test_update_ok - task 01";
    let fx_new_title = "test_update_ok - task 02 - new";
    let fx_bounty = seed_tasks(&ctx, &mut mm, &[fx_title]).unwrap().remove(0);
    BountyBmc::update(
        &ctx,
        &mut mm,
        fx_bounty.id,
        BountyForUpdate {
            bounty_title: Some(fx_new_title.to_string()),
            bounty_assignee: Some(fx_new_title.to_string()),
            bounty_deliverables: Some(fx_new_title.to_string()),
            bounty_description: Some(fx_new_title.to_string()),
            bounty_reward: Some(fx_new_title.to_string()),
        },
    )
    .unwrap();
    let bounty = BountyBmc::get(&ctx, &mm, fx_bounty.id).unwrap();
    assert_eq!(bounty.bounty_title, fx_new_title);
}

#[test]
fn create_then_get_returns_the_payload() {
    let mut mm = ModelManager::new();
    let ctx = Ctx::new(7);
    let id = BountyBmc::create(
        &ctx,
        &mut mm,
        BountyForCreate {
            bounty_title: "t".to_string(),
            bounty_assignee: "a".to_string(),
            bounty_reward: "r".to_string(),
            bounty_deliverables: "d".to_string(),
            bounty_description: "x".to_string(),
        },
    )
    .unwrap();
    assert_eq!(id, 1);
    let b = BountyBmc::get(&ctx, &mm, id).unwrap();
    assert_eq!(b.id, 1);
    assert_eq!(b.bounty_title, "t");
    assert_eq!(b.bounty_assignee, "a");
    assert_eq!(b.bounty_reward, "r");
    assert_eq!(b.bounty_deliverables, "d");
    assert_eq!(b.bounty_description, "x");
}

#[test]
fn identifiers_ascend_and_are_not_reused() {
    let mut mm = ModelManager::new();
    let ctx = Ctx::root_ctx();
    let a = BountyBmc::create(&ctx, &mut mm, bounty_c("a")).unwrap();
    let b = BountyBmc::create(&ctx, &mut mm, bounty_c("b")).unwrap();
    BountyBmc::delete(&ctx, &mut mm, b).unwrap();
    let c = BountyBmc::create(&ctx, &mut mm, bounty_c("c")).unwrap();
    assert_eq!((a, b, c), (1, 2, 3));
}

#[test]
fn duplicate_title_is_refused() {
    let mut mm = ModelManager::new();
    let ctx = Ctx::root_ctx();
    BountyBmc::create(&ctx, &mut mm, bounty_c("same")).unwrap();
    let res = BountyBmc::create(&ctx, &mut mm, bounty_c("same"));
    assert_eq!(
        res,
        Err(Error::EntityAlreadyExists { entity: "bounty", field: "bounty_title" })
    );
    assert_eq!(BountyBmc::list(&ctx, &mm).unwrap().len(), 1);
}

#[test]
fn partial_update_keeps_absent_fields_and_is_idempotent() {
    let mut mm = ModelManager::new();
    let ctx = Ctx::root_ctx();
    let id = BountyBmc::create(&ctx, &mut mm, bounty_c("orig")).unwrap();
    let patch = || BountyForUpdate {
        bounty_title: None,
        bounty_assignee: Some("alice".to_string()),
        bounty_reward: None,
        bounty_deliverables: None,
        bounty_description: Some("new".to_string()),
    };
    BountyBmc::update(&ctx, &mut mm, id, patch()).unwrap();
    BountyBmc::update(&ctx, &mut mm, id, patch()).unwrap();
    let b = BountyBmc::get(&ctx, &mm, id).unwrap();
    assert_eq!(b.bounty_title, "orig");
    assert_eq!(b.bounty_assignee, "alice");
    assert_eq!(b.bounty_reward, "orig");
    assert_eq!(b.bounty_deliverables, "orig");
    assert_eq!(b.bounty_description, "new");
}

#[test]
fn update_to_a_taken_title_is_refused() {
    let mut mm = ModelManager::new();
    let ctx = Ctx::root_ctx();
    BountyBmc::create(&ctx, &mut mm, bounty_c("one")).unwrap();
    let two = BountyBmc::create(&ctx, &mut mm, bounty_c("two")).unwrap();
    let res = BountyBmc::update(
        &ctx,
        &mut mm,
        two,
        BountyForUpdate {
            bounty_title: Some("one".to_string()),
            bounty_assignee: None,
            bounty_reward: None,
            bounty_deliverables: None,
            bounty_description: None,
        },
    );
    assert_eq!(
        res,
        Err(Error::EntityAlreadyExists { entity: "bounty", field: "bounty_title" })
    );
    assert_eq!(BountyBmc::get(&ctx, &mm, two).unwrap().bounty_title, "two");
}

#[test]
fn update_of_missing_id_fails() {
    let mut mm = ModelManager::new();
    let ctx = Ctx::root_ctx();
    let res = BountyBmc::update(
        &ctx,
        &mut mm,
        5,
        BountyForUpdate {
            bounty_title: Some("x".to_string()),
            bounty_assignee: None,
            bounty_reward: None,
            bounty_deliverables: None,
            bounty_description: None,
        },
    );
    assert_eq!(res, Err(Error::EntityNotFound { entity: "bounty", id: 5 }));
}

#[test]
fn delete_then_get_fails() {
    let mut mm = ModelManager::new();
    let ctx = Ctx::root_ctx();
    let id = BountyBmc::create(&ctx, &mut mm, bounty_c("gone")).unwrap();
    BountyBmc::delete(&ctx, &mut mm, id).unwrap();
    assert!(matches!(
        BountyBmc::get(&ctx, &mm, id),
        Err(Error::EntityNotFound { entity: "bounty", id: 1 })
    ));
    assert_eq!(
        BountyBmc::delete(&ctx, &mut mm, id),
        Err(Error::EntityNotFound { entity: "bounty", id: 1 })
    );
}

#[test]
fn list_after_creates_and_deletes() {
    let mut mm = ModelManager::new();
    let ctx = Ctx::root_ctx();
    let names = ["n1", "n2", "n3", "n4", "n5"];
    let mut ids = Vec::new();
    for n in names.iter() {
        ids.push(BountyBmc::create(&ctx, &mut mm, bounty_c(n)).unwrap());
    }
    BountyBmc::delete(&ctx, &mut mm, ids[1]).unwrap();
    BountyBmc::delete(&ctx, &mut mm, ids[3]).unwrap();
    let all = BountyBmc::list(&ctx, &mm).unwrap();
    let titles: Vec<&str> = all.iter().map(|b| b.bounty_title.as_str()).collect();
    assert_eq!(titles, vec!["n1", "n3", "n5"]);
    let listed_ids: Vec<i64> = all.iter().map(|b| b.id).collect();
    assert_eq!(listed_ids, vec![1, 3, 5]);
}

#[test]
fn empty_list_is_ok() {
    let mm = ModelManager::new();
    let ctx = Ctx::root_ctx();
    assert!(BountyBmc::list(&ctx, &mm).unwrap().is_empty());
}

#[test]
fn project_kind_round_trip_and_errors() {
    let mut mm = ModelManager::new();
    let ctx = Ctx::root_ctx();
    let p = || ProjectForCreate {
        project_id: "AUX4".to_string(),
        project_name: "Pecunia Inception".to_string(),
        project_lead_address: "12345iawjejioj".to_string(),
        project_budget: "10".to_string(),
        project_denom: "USDC".to_string(),
        project_type: "AUX".to_string(),
        project_description: "Inception pecunia finance".to_string(),
    };
    let id = ProjectBmc::create(&ctx, &mut mm, p()).unwrap();
    assert_eq!(
        ProjectBmc::create(&ctx, &mut mm, p()),
        Err(Error::EntityAlreadyExists { entity: "project", field: "project_id" })
    );
    ProjectBmc::update(
        &ctx,
        &mut mm,
        id,
        ProjectForUpdate {
            project_id: None,
            project_name: Some("Pecunia Inception2".to_string()),
            project_lead_address: None,
            project_budget: None,
            project_denom: Some("XMR".to_string()),
            project_type: None,
            project_description: None,
        },
    )
    .unwrap();
    let got = ProjectBmc::get(&ctx, &mm, id).unwrap();
    assert_eq!(got.project_id, "AUX4");
    assert_eq!(got.project_name, "Pecunia Inception2");
    assert_eq!(got.project_denom, "XMR");
    assert_eq!(got.project_budget, "10");
    assert_eq!(ProjectBmc::list(&ctx, &mm).unwrap().len(), 1);
    ProjectBmc::delete(&ctx, &mut mm, id).unwrap();
    assert_eq!(
        ProjectBmc::get(&ctx, &mm, id).map(|p| p.id),
        Err(Error::EntityNotFound { entity: "project", id })
    );
}

#[test]
fn context_carries_its_actor() {
    assert_eq!(Ctx::new(42).user_id(), 42);
    assert_eq!(Ctx::root_ctx().user_id(), 0);
}

#[test]
fn seeding_stops_at_the_first_duplicate() {
    let mut mm = ModelManager::new();
    let ctx = Ctx::root_ctx();
    let res = seed_tasks(&ctx, &mut mm, &["s1", "s2", "s1", "s3"]);
    assert_eq!(
        res.map(|v| v.len()),
        Err(Error::EntityAlreadyExists { entity: "bounty", field: "bounty_title" })
    );
    let titles: Vec<String> = BountyBmc::list(&ctx, &mm).unwrap().into_iter().map(|b| b.bounty_title).collect();
    assert_eq!(titles, vec!["s1".to_string(), "s2".to_string()]);
    let seeded = seed_tasks(&ctx, &mut mm, &["s3"]).unwrap();
    assert_eq!(seeded[0].id, 3);
    assert_eq!(seeded[0].bounty_reward, "s3");
}
