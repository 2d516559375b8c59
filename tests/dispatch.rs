use databy::dispatcher::{gather, DispatchOutcome, Dispatcher, FailurePolicy, ShardError};
use databy::model::{QueryParams, User, UserQueryParams};
use databy::rid::RID;
use databy::shard::DB;

fn row(id: &str, country: &str) -> User {
    User::new(
        RID::new(id),
        "F".to_string(),
        "L".to_string(),
        country.to_string(),
        "A".to_string(),
        "C".to_string(),
    )
}

fn ids(rows: &[User]) -> Vec<String> {
    rows.iter().map(|u| u.id.to_string()).collect()
}

fn answer(db: &DB, q: &UserQueryParams, limit: Option<usize>) -> Result<Vec<User>, ShardError> {
    Ok(db.get_user(q, &QueryParams { limit }).into_iter().cloned().collect())
}

#[test]
fn address_list_is_split_at_semicolons() {
    let d = Dispatcher::from_address_list("127.0.0.1:8080;127.0.0.1:8081");
    assert_eq!(d.len(), 2);
    assert_eq!(d.instances(), &vec!["127.0.0.1:8080".to_string(), "127.0.0.1:8081".to_string()]);
    let odd = Dispatcher::from_address_list("a;;b;");
    assert_eq!(odd.instances(), &vec!["a".to_string(), "".to_string(), "b".to_string(), "".to_string()]);
    let empty = Dispatcher::from_address_list("");
    assert_eq!(empty.instances(), &vec!["".to_string()]);
}

#[test]
fn each_shard_gets_the_query_verbatim() {
    let d = Dispatcher::new(vec!["h1:1".to_string(), "h2:2".to_string()]);
    let urls = d.shard_urls("get_user?country=Canada");
    assert_eq!(
        urls,
        vec![
            "http://h1:1/get_user?country=Canada".to_string(),
            "http://h2:2/get_user?country=Canada".to_string()
        ]
    );
}

#[test]
fn gather_concatenates_in_address_order() {
    let mut a = DB::new("a");
    a.load_user(row("1", "Canada")).unwrap();
    a.load_user(row("2", "France")).unwrap();
    let mut b = DB::new("b");
    b.load_user(row("3", "Canada")).unwrap();
    let q = UserQueryParams::builder().country("Canada".to_string()).wrap();
    let answers = vec![answer(&a, &q, None), answer(&b, &q, None)];
    match gather(answers, FailurePolicy::FailFast) {
        DispatchOutcome::Complete(rows) => assert_eq!(ids(&rows), vec!["1", "3"]),
        other => panic!("expected a complete outcome, got {other:?}"),
    }
}

#[test]
fn limit_applies_on_each_shard() {
    let mut a = DB::new("a");
    let mut b = DB::new("b");
    for i in 0..5 {
        a.load_user(row(&format!("a{i}"), "Canada")).unwrap();
        b.load_user(row(&format!("b{i}"), "Canada")).unwrap();
    }
    let q = UserQueryParams::builder().country("Canada".to_string()).wrap();
    let answers = vec![answer(&a, &q, Some(2)), answer(&b, &q, Some(2))];
    match gather(answers, FailurePolicy::FailFast) {
        DispatchOutcome::Complete(rows) => {
            assert_eq!(rows.len(), 4);
            assert_eq!(ids(&rows), vec!["a0", "a1", "b0", "b1"]);
        }
        other => panic!("expected a complete outcome, got {other:?}"),
    }
}

#[test]
fn fail_fast_reports_total_failure() {
    let answers = vec![Ok(vec![row("1", "Canada")]), Err(ShardError::Timeout)];
    match gather(answers, FailurePolicy::FailFast) {
        DispatchOutcome::Failed { shard, error } => {
            assert_eq!(shard, 1);
            assert_eq!(error, ShardError::Timeout);
        }
        other => panic!("expected a failed outcome, got {other:?}"),
    }
}

#[test]
fn fail_fast_names_the_first_failed_shard() {
    let answers: Vec<Result<Vec<User>, ShardError>> = vec![
        Ok(vec![]),
        Err(ShardError::Status(503)),
        Err(ShardError::MalformedBody),
    ];
    match gather(answers, FailurePolicy::FailFast) {
        DispatchOutcome::Failed { shard, error } => {
            assert_eq!(shard, 1);
            assert_eq!(error, ShardError::Status(503));
        }
        other => panic!("expected a failed outcome, got {other:?}"),
    }
}

#[test]
fn degraded_returns_the_rows_that_came_back() {
    let answers = vec![
        Ok(vec![row("1", "Canada"), row("2", "Canada")]),
        Err(ShardError::Timeout),
    ];
    match gather(answers, FailurePolicy::Degraded) {
        DispatchOutcome::Degraded { rows, failed } => {
            assert_eq!(ids(&rows), vec!["1", "2"]);
            assert_eq!(failed, vec![1]);
        }
        other => panic!("expected a degraded outcome, got {other:?}"),
    }
}

#[test]
fn degraded_lists_every_failed_shard() {
    let answers = vec![
        Err(ShardError::Transport),
        Ok(vec![row("5", "Chile")]),
        Err(ShardError::Timeout),
    ];
    match gather(answers, FailurePolicy::Degraded) {
        DispatchOutcome::Degraded { rows, failed } => {
            assert_eq!(ids(&rows), vec!["5"]);
            assert_eq!(failed, vec![0, 2]);
        }
        other => panic!("expected a degraded outcome, got {other:?}"),
    }
}

#[test]
fn all_successes_are_complete_under_either_policy() {
    let make = || vec![Ok(vec![row("1", "X")]), Ok(vec![]), Ok(vec![row("2", "Y")])];
    for policy in [FailurePolicy::FailFast, FailurePolicy::Degraded] {
        match gather(make(), policy) {
            DispatchOutcome::Complete(rows) => assert_eq!(ids(&rows), vec!["1", "2"]),
            other => panic!("expected a complete outcome, got {other:?}"),
        }
    }
}

#[test]
fn no_shards_gather_to_nothing() {
    let answers: Vec<Result<Vec<User>, ShardError>> = Vec::new();
    match gather(answers, FailurePolicy::FailFast) {
        DispatchOutcome::Complete(rows) => assert!(rows.is_empty()),
        other => panic!("expected a complete outcome, got {other:?}"),
    }
}

#[test]
fn default_policy_is_fail_fast() {
    assert_eq!(FailurePolicy::default(), FailurePolicy::FailFast);
    let answers = vec![Ok(vec![row("1", "Canada")]), Err(ShardError::Timeout)];
    assert!(matches!(
        gather(answers, FailurePolicy::default()),
        DispatchOutcome::Failed { shard: 1, error: ShardError::Timeout }
    ));
}
