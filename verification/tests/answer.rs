use typesafe::{Answer, ChoiceAnswer, Evaluation, NoulAnswer, OrderedMap, ScoreAnswer, TypeSafeError, Usage};

fn probabilities(pairs: &[(&str, f64)]) -> OrderedMap<f64> {
    OrderedMap::from_entries(pairs.iter().map(|(k, v)| (k.to_string(), *v)).collect())
}

fn legend(pairs: &[(&str, &str)]) -> OrderedMap<String> {
    OrderedMap::from_entries(pairs.iter().map(|(k, v)| (k.to_string(), v.to_string())).collect())
}

fn sample() -> Evaluation<f64> {
    let mut answers = OrderedMap::new();
    answers.insert("is_urgent", Answer::Noul(NoulAnswer { noul: 0.92 }));
    answers.insert(
        "department",
        Answer::Choice(ChoiceAnswer {
            choice: "technical".to_string(),
            probabilities: probabilities(&[("billing", 0.08), ("technical", 0.85), ("sales", 0.07)]),
            confidence: 0.82,
        }),
    );
    answers.insert(
        "frustration",
        Answer::Score(ScoreAnswer {
            score: 1.6,
            legend: legend(&[("0", "Calm"), ("1", "Frustrated"), ("2", "Very angry")]),
            probabilities: probabilities(&[("0", 0.05), ("1", 0.3), ("2", 0.65)]),
            confidence: 0.78,
        }),
    );
    Evaluation {
        model: "jev-1.13.0".to_string(),
        answers,
        usage: Usage { input_tokens: 312, output_tokens: 48 },
    }
}

#[test]
fn parses_all_three_answer_types() {
    let e = sample();
    assert_eq!(e.model, "jev-1.13.0");
    assert_eq!(e.usage.input_tokens, 312);
    assert_eq!(e.noul("is_urgent").unwrap(), 0.92);
    assert_eq!(e.choice("department").unwrap().choice, "technical");
    assert_eq!(e.score("frustration").unwrap().score, 1.6);
}

#[test]
fn noul_has_no_confidence_but_others_do() {
    let e = sample();
    assert_eq!(e.answer("is_urgent").unwrap().confidence(), None);
    assert_eq!(e.answer("department").unwrap().confidence(), Some(0.82));
    assert_eq!(e.answer("frustration").unwrap().confidence(), Some(0.78));
}

#[test]
fn wrong_type_and_missing_id_are_distinct_errors() {
    let e = sample();
    assert!(matches!(
        e.noul("department"),
        Err(TypeSafeError::AnswerTypeMismatch { expected: "noul", actual: "choice", .. })
    ));
    assert!(matches!(e.answer("nope"), Err(TypeSafeError::MissingAnswer(_))));
    assert!(matches!(
        e.score("is_urgent"),
        Err(TypeSafeError::AnswerTypeMismatch { expected: "score", actual: "noul", .. })
    ));
    assert!(matches!(
        e.choice("frustration"),
        Err(TypeSafeError::AnswerTypeMismatch { expected: "choice", actual: "score", .. })
    ));
    assert!(matches!(e.noul("nope"), Err(TypeSafeError::MissingAnswer(ref id)) if id == "nope"));
}

#[test]
fn answers_expose_their_variant() {
    let e = sample();
    let noul = e.answer("is_urgent").unwrap();
    assert_eq!(noul.wire_name(), "noul");
    assert!(noul.as_noul().is_some());
    assert!(noul.as_choice().is_none());
    assert!(noul.as_score().is_none());
    let score = e.answer("frustration").unwrap();
    assert_eq!(score.wire_name(), "score");
    assert!(score.as_score().is_some());
    assert_eq!(e.answer("department").unwrap().wire_name(), "choice");
}

#[test]
fn choice_reports_option_probabilities() {
    let e = sample();
    let choice = e.choice("department").unwrap();
    assert_eq!(choice.probability("sales"), Some(0.07));
    assert_eq!(choice.probability("nope"), None);
}

#[test]
fn score_levels_resolve_against_the_legend() {
    let e = sample();
    let score = e.score("frustration").unwrap();
    let levels = score.levels(0.0);
    assert_eq!(levels.len(), 3);
    assert_eq!(levels[0].description, "Calm");
    assert_eq!(levels[2].probability, 0.65);
    assert_eq!(score.description_at(2).map(String::as_str), Some("Very angry"));
    assert_eq!(score.description_at(3), None);
}

#[test]
fn score_levels_sort_numerically_past_nine() {
    let score = ScoreAnswer {
        score: 9.0,
        legend: legend(&[("0", "a"), ("1", "b"), ("2", "c"), ("9", "j"), ("10", "k")]),
        probabilities: probabilities(&[("0", 0.0), ("1", 0.0), ("2", 0.0), ("9", 0.5), ("10", 0.5)]),
        confidence: 0.5,
    };
    let indices: Vec<usize> = score.levels(0.0).iter().map(|l| l.index).collect();
    assert_eq!(indices, [0, 1, 2, 9, 10]);
}

#[test]
fn score_levels_skip_bad_keys_and_default_missing_probabilities() {
    let score = ScoreAnswer {
        score: 1.0,
        legend: legend(&[("10", "k"), ("x", "bad"), ("2", "c"), ("+2", "c again")]),
        probabilities: probabilities(&[("10", 0.4)]),
        confidence: 0.5,
    };
    let levels = score.levels(-1.0);
    let seen: Vec<(usize, &str, f64)> =
        levels.iter().map(|l| (l.index, l.description, l.probability)).collect();
    assert_eq!(seen, [(2, "c", -1.0), (2, "c again", -1.0), (10, "k", 0.4)]);
}
