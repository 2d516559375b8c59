use std::collections::HashSet;

use databy::model::{InsertUserModel, QueryParams, User, UserQueryParams};
use databy::relation::{OneToOne, Reference};
use databy::repository::Repository;
use databy::rid::RID;
use databy::shard::{InsertError, DB};

fn fields(first: &str, country: &str) -> InsertUserModel {
    InsertUserModel {
        first_name: first.to_string(),
        last_name: "Doe".to_string(),
        country: country.to_string(),
        address: "1 Main St".to_string(),
        city: "Springfield".to_string(),
    }
}

fn seeded(id: &str, country: &str) -> User {
    fields("Seed", country).into_model(RID::new(id))
}

#[test]
fn new_shard_is_empty_and_named() {
    let db = DB::new("france-paris-08");
    assert_eq!(db.get_document_count(), 0);
    assert_eq!(db.info_string(), "Shard: france-paris-08");
    assert!(db.users().get_all().is_empty());
}

#[test]
fn minted_identifier_is_prefixed_by_the_shard() {
    let mut db = DB::new("shard-a");
    let rid = db.insert_user(fields("Ann", "Canada")).unwrap();
    let text = rid.to_string();
    assert!(text.starts_with("shard-a:"));
    assert_eq!(text.len(), "shard-a:".len() + 36);
    assert_ne!(&text["shard-a:".len()..], "shard-a");
    assert_eq!(db.get_document_count(), 1);
    let stored = &db.users().get_all()[0];
    assert_eq!(stored.id, rid);
    assert_eq!(stored.first_name, "Ann");
}

#[test]
fn generate_id_does_not_store_anything() {
    let db = DB::new("s");
    let a = db.generate_id();
    let b = db.generate_id();
    assert_ne!(a, b);
    assert!(a.as_str().starts_with("s:"));
    assert_eq!(db.get_document_count(), 0);
    assert!(!db.holds_id(&a));
}

#[test]
fn ten_thousand_inserts_give_distinct_identifiers() {
    let mut db = DB::new("shard-a");
    let mut seen = HashSet::new();
    for i in 0..10_000 {
        let rid = db.insert_user(fields(&i.to_string(), "Canada")).unwrap();
        assert!(seen.insert(rid.to_string()));
    }
    assert_eq!(db.get_document_count(), 10_000);
    assert_eq!(seen.len(), 10_000);
}

#[test]
fn seeded_identifiers_are_kept_verbatim() {
    let mut db = DB::new("s");
    let rid = db.load_user(seeded("42", "Canada")).unwrap();
    assert_eq!(rid.as_str(), "42");
    assert!(db.holds_id(&RID::new("42")));
    assert!(!db.holds_id(&RID::new("s:42")));
    assert_eq!(db.get_document_count(), 1);
}

#[test]
fn a_held_identifier_is_refused() {
    let mut db = DB::new("s");
    db.load_user(seeded("1", "Canada")).unwrap();
    let again = db.load_user(seeded("1", "France"));
    assert_eq!(again.unwrap_err(), InsertError::DuplicateId);
    assert_eq!(db.get_document_count(), 1);
    assert_eq!(db.users().get_all()[0].country, "Canada");
}

#[test]
fn shard_read_filters_and_limits() {
    let mut db = DB::new("s");
    for i in 0..5 {
        db.load_user(seeded(&format!("c{i}"), "Canada")).unwrap();
        db.load_user(seeded(&format!("f{i}"), "France")).unwrap();
    }
    let q = UserQueryParams::builder().country("Canada".to_string()).wrap();
    let all: Vec<String> = db
        .get_user(&q, &QueryParams { limit: None })
        .iter()
        .map(|u| u.id.to_string())
        .collect();
    assert_eq!(all, vec!["c0", "c1", "c2", "c3", "c4"]);
    let two: Vec<String> = db
        .get_user(&q, &QueryParams { limit: Some(2) })
        .iter()
        .map(|u| u.id.to_string())
        .collect();
    assert_eq!(two, vec!["c0", "c1"]);
    let every = db.get_user(&UserQueryParams::default(), &QueryParams { limit: None });
    assert_eq!(every.len(), 10);
}

#[test]
fn reference_finds_the_entity_by_identifier() {
    let mut repo = Repository::new();
    repo.insert_one(seeded("a", "Canada"));
    repo.insert_one(seeded("b", "France"));
    let r = Reference::new(RID::new("b"), &repo);
    assert_eq!(r.get().unwrap().country, "France");
    let missing = Reference::new(RID::new("z"), &repo);
    assert!(missing.get().is_none());
}

#[test]
fn one_to_one_links_two_entities() {
    let mut users = Repository::new();
    users.insert_one(seeded("a", "Canada"));
    users.insert_one(seeded("b", "France"));
    let link = OneToOne::new(RID::new("a"), RID::new("b"), &users, &users);
    assert_eq!(link.from.get().unwrap().country, "Canada");
    assert_eq!(link.to.get().unwrap().country, "France");
}
