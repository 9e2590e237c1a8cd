use checklist::check::{CheckError, Checker, Checkers, Flatten, SwitchMode};
use checklist::commit::{CheckList, IntoCheckList};
use checklist::notice::{Notice, NoticeView};
use checklist::value::{Value, ValueKind, ValueView};
use vstd::seq::Seq;

/// A rule of the caller's own: the text must not be empty.
struct NonEmpty;

// `outcome` and `signature` serve contracts only and are never run.
impl Checker for NonEmpty {
    fn outcome(&self, _value: ValueView) -> Result<NoticeView, CheckError> {
        unreachable!()
    }

    fn signature(&self) -> Seq<ValueKind> {
        unreachable!()
    }

    fn check(&self, value: &Value) -> Result<Notice, CheckError> {
        if !value.is_kind_of(ValueKind::Literal) {
            return Err(CheckError::InvalidKind);
        }
        if value.to_string().is_empty() {
            Ok(Notice::Attention("empty".to_string()))
        } else {
            Ok(Notice::Clear)
        }
    }

    fn expecting(&self) -> Vec<ValueKind> {
        vec![ValueKind::Literal]
    }
}

#[test]
fn a_rule_of_the_callers_own_can_be_registered() {
    let lists = vec![
        (
            "name".to_string(),
            Checkers::Custom(Box::new(NonEmpty)).into_error(),
        ),
        (
            "name".to_string(),
            Checkers::Custom(Box::new(NonEmpty)).into_attention(),
        ),
    ];
    let map = lists.into_checklist().unwrap();
    assert_eq!(
        map.commit("name", Value::from("x")).unwrap().unwrap().notice(),
        &Notice::Clear
    );
    assert_eq!(
        map.commit("name", Value::from("")).unwrap().unwrap().notice(),
        &Notice::Error("empty".to_string())
    );
    assert_eq!(
        map.commit("name", Value::from(1)),
        Err(CheckError::InvalidKind)
    );
    assert_eq!(
        map.items(),
        vec![("name".to_string(), vec![ValueKind::Literal])]
    );
}

#[test]
fn a_rule_of_the_callers_own_can_be_merged_directly() {
    let flat = Flatten::new(vec![NonEmpty, NonEmpty]).unwrap();
    assert_eq!(flat.check(&Value::from("")), Ok(Notice::Attention("empty".to_string())));
    assert_eq!(flat.expecting(), vec![ValueKind::Literal]);
    let mixed = vec![
        Checkers::Custom(Box::new(NonEmpty)),
        Checkers::Any,
    ];
    assert!(Flatten::new(mixed).is_err());
}

#[test]
fn number_rule_and_literal_rule_under_one_field_fail() {
    let lists = vec![
        (
            "A".to_string(),
            Checkers::Between(0, 1, "m".to_string()),
        ),
        ("A".to_string(), Checkers::Custom(Box::new(NonEmpty))),
    ];
    assert!(lists.into_checklist().is_err());
    let swapped = vec![
        ("A".to_string(), Checkers::Custom(Box::new(NonEmpty))),
        (
            "A".to_string(),
            Checkers::Between(0, 1, "m".to_string()),
        ),
    ];
    assert!(swapped.into_checklist().is_err());
}
