use typesafe::{Entry, Question};

#[test]
fn validation_catches_degenerate_criteria() {
    assert!(Question::score("x".into(), vec!["only one".into()]).validate().is_err());
    assert!(Question::choice_options("x".into(), Vec::<&str>::new()).validate().is_err());
    assert!(Question::score("x".into(), vec!["a".into(), "b".into()]).validate().is_ok());
    assert!(Question::noul("x".into()).validate().is_ok());
}

#[test]
fn validation_reasons_name_the_problem() {
    assert_eq!(
        Question::score("x".into(), vec!["only one".into()]).validate(),
        Err("a Score needs at least two levels in criteria, got 1".to_string())
    );
    assert_eq!(
        Question::score("x".into(), vec![]).validate(),
        Err("a Score needs at least two levels in criteria, got 0".to_string())
    );
    assert_eq!(
        Question::choice("x".into(), vec![]).validate(),
        Err("a Choice needs at least one option in criteria".to_string())
    );
}

#[test]
fn choice_keeps_option_order() {
    let q = Question::choice(
        "Which team should handle this?".into(),
        vec![
            ("billing", "Payments, invoicing, refunds".into()),
            ("technical", "Bugs, outages, integrations".into()),
            ("sales", "Pricing, upgrades, new accounts".into()),
        ],
    );
    match q {
        Question::Choice(c) => assert_eq!(c.criteria.keys(), ["billing", "technical", "sales"]),
        _ => panic!("not a choice"),
    }
}

#[test]
fn bare_choice_options_have_null_rubrics() {
    let q = Question::choice_options("Which value?".into(), vec!["Beaver", "Dam"]);
    match q {
        Question::Choice(c) => {
            assert_eq!(c.criteria.keys(), ["Beaver", "Dam"]);
            assert!(matches!(c.criteria.get("Beaver"), Some(Entry::Null)));
            assert!(matches!(c.criteria.get("Dam"), Some(Entry::Null)));
        }
        _ => panic!("not a choice"),
    }
}

#[test]
fn noul_questions_carry_their_criteria() {
    let q = Question::noul_with_criteria(
        "Does this convey urgency?".into(),
        "Explicitly time-sensitive".into(),
        "No urgency expressed".into(),
    );
    assert_eq!(q.wire_name(), "noul");
    match q {
        Question::Noul(n) => {
            let c = n.criteria.expect("criteria");
            assert!(matches!(c.yes, Entry::Text(ref t) if t == "Explicitly time-sensitive"));
            assert!(matches!(c.no, Entry::Text(ref t) if t == "No urgency expressed"));
        }
        _ => panic!("not a noul"),
    }
    assert_eq!(Question::score("s".into(), vec![]).wire_name(), "score");
    assert_eq!(Question::choice_options("c".into(), vec!["a"]).wire_name(), "choice");
}

#[test]
fn structured_instructions_are_accepted() {
    let value: serde_json::Value = serde_json::from_str(
        r#"{"field": {"name": "invoice_number", "type": "string"}, "extracted_value": "4471"}"#,
    )
    .unwrap();
    let q = Question::noul(value.clone().into());
    match q {
        Question::Noul(n) => match n.instructions {
            Entry::Structured(v) => assert_eq!(v["extracted_value"], serde_json::Value::from("4471")),
            _ => panic!("not structured"),
        },
        _ => panic!("not a noul"),
    }
}

#[test]
fn cloned_questions_keep_structured_values() {
    let value: serde_json::Value = serde_json::from_str(r#"{"a": [1, 2, 3]}"#).unwrap();
    let q = Question::choice("x".into(), vec![("opt", value.clone().into())]);
    let copy = q.clone();
    match copy {
        Question::Choice(c) => match c.criteria.get("opt") {
            Some(Entry::Structured(v)) => assert_eq!(*v, value),
            _ => panic!("value lost"),
        },
        _ => panic!("not a choice"),
    }
}
