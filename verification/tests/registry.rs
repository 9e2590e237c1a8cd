use checklist::check::{CheckError, CheckerMode, Checkers, FlattenError, SwitchMode};
use checklist::commit::{CheckList, IntoCheckList, Registry};
use checklist::notice::Notice;
use checklist::value::{Value, ValueKind};

fn sample() -> Registry<CheckerMode<Checkers>> {
    let lists = vec![
        (
            "A".to_string(),
            Checkers::Exact("abc".to_string(), "caution".to_string()).into_attention(),
        ),
        (
            "B".to_string(),
            Checkers::Between(-2, 2, "caution".to_string()).into_attention(),
        ),
        (
            "B".to_string(),
            Checkers::Between(-5, 5, "error".to_string()).into_error(),
        ),
    ];
    lists.into_checklist().unwrap()
}

#[test]
fn test() {
    let map = sample();
    assert_eq!(
        map.commit("A", "abc".into()).unwrap().unwrap().notice(),
        &Notice::Clear
    );
    assert_eq!(
        map.commit("A", "abcd".into()).unwrap().unwrap().notice(),
        &Notice::Attention("caution".to_string())
    );
    assert_eq!(
        map.commit("B", 0.into()).unwrap().unwrap().notice(),
        &Notice::Clear
    );
    assert_eq!(
        map.commit("B", 3.into()).unwrap().unwrap().notice(),
        &Notice::Attention("caution".to_string())
    );
    assert_eq!(
        map.commit("B", 6.into()).unwrap().unwrap().notice(),
        &Notice::Error("error".to_string())
    );
}

#[test]
fn commit_records_field_and_value() {
    let map = sample();
    let commit = map.commit("B", Value::from(-3)).unwrap().unwrap();
    assert_eq!(commit.key(), "B");
    assert_eq!(commit.value().to_string(), "-3");
    assert!(commit.value().is_kind_of(ValueKind::Number));
    assert_eq!(commit.notice(), &Notice::Attention("caution".to_string()));
}

#[test]
fn commit_on_unknown_field_is_none() {
    let map = sample();
    assert_eq!(map.commit("Z", Value::from(1)), Ok(None));
    assert_eq!(map.commit("", Value::from("abc")), Ok(None));
    assert_eq!(map.commit("a", Value::from("abc")), Ok(None));
    assert_eq!(map.commit("AB", Value::from("abc")), Ok(None));
}

#[test]
fn commit_on_empty_registry_is_none() {
    let lists: Vec<(String, Checkers)> = Vec::new();
    let map = lists.into_checklist().unwrap();
    assert_eq!(map.commit("A", Value::from(1)), Ok(None));
    assert!(map.items().is_empty());
}

#[test]
fn commit_propagates_invalid_kind() {
    let map = sample();
    assert_eq!(
        map.commit("B", Value::from("3")),
        Err(CheckError::InvalidKind)
    );
}

#[test]
fn mixed_signatures_under_one_field_fail() {
    let lists = vec![
        (
            "A".to_string(),
            Checkers::Between(0, 1, "m".to_string()),
        ),
        (
            "A".to_string(),
            Checkers::Exact("x".to_string(), "m".to_string()),
        ),
    ];
    assert!(matches!(
        lists.into_checklist(),
        Err(FlattenError::InvalidKind)
    ));
}

#[test]
fn mixed_signatures_under_two_fields_pass() {
    let lists = vec![
        (
            "A".to_string(),
            Checkers::Between(0, 1, "m".to_string()),
        ),
        (
            "B".to_string(),
            Checkers::Exact("x".to_string(), "m".to_string()),
        ),
    ];
    let map = lists.into_checklist().unwrap();
    assert_eq!(
        map.items(),
        vec![
            ("A".to_string(), vec![ValueKind::Number]),
            (
                "B".to_string(),
                vec![ValueKind::Number, ValueKind::Literal]
            ),
        ]
    );
}

#[test]
fn rules_of_a_field_need_not_be_adjacent() {
    let lists = vec![
        (
            "B".to_string(),
            Checkers::Between(-2, 2, "caution".to_string()).into_attention(),
        ),
        (
            "A".to_string(),
            Checkers::Exact("abc".to_string(), "caution".to_string()).into_attention(),
        ),
        (
            "B".to_string(),
            Checkers::Between(-5, 5, "error".to_string()).into_error(),
        ),
    ];
    let map = lists.into_checklist().unwrap();
    assert_eq!(
        map.commit("B", Value::from(3)).unwrap().unwrap().notice(),
        &Notice::Attention("caution".to_string())
    );
    assert_eq!(
        map.commit("B", Value::from(6)).unwrap().unwrap().notice(),
        &Notice::Error("error".to_string())
    );
    let items = map.items();
    assert_eq!(items.len(), 2);
    assert_eq!(items[0], ("B".to_string(), vec![ValueKind::Number]));
    assert_eq!(
        items[1],
        (
            "A".to_string(),
            vec![ValueKind::Number, ValueKind::Literal]
        )
    );
}

#[test]
fn a_later_mismatch_fails_the_whole_registry() {
    let lists = vec![
        ("A".to_string(), Checkers::Any),
        (
            "B".to_string(),
            Checkers::Between(0, 1, "m".to_string()),
        ),
        ("B".to_string(), Checkers::Any),
    ];
    assert!(lists.into_checklist().is_err());
}

#[test]
fn items_lists_each_field_once() {
    let map = sample();
    assert_eq!(
        map.items(),
        vec![
            (
                "A".to_string(),
                vec![ValueKind::Number, ValueKind::Literal]
            ),
            ("B".to_string(), vec![ValueKind::Number]),
        ]
    );
}
