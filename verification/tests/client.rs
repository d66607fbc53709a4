use typesafe::{
    decode_failure, Attempt, Client, ClientConfig, Duration, Entry, Json, ModelCard, ModelList,
    Outcome, Question, Request, RetryPolicy, Step, TypeSafeError, DEFAULT_BASE_URL, DEFAULT_MODEL,
};

fn config_with(key: &str, base: Option<&str>) -> ClientConfig {
    ClientConfig {
        api_key: Some(key.to_string()),
        base_url: base.map(|b| b.to_string()),
        ..Default::default()
    }
}

fn client() -> Client {
    Client::new(config_with("test-key", None), None, None).unwrap()
}

#[test]
fn questions_keep_their_order_and_ids() {
    let request = Request::new("x".into())
        .ask("first", Question::noul("a".into()))
        .ask("second", Question::noul("b".into()))
        .ask("third", Question::noul("c".into()));
    assert_eq!(request.question_ids(), ["first", "second", "third"]);
}

#[test]
fn asking_again_replaces_the_question_in_place() {
    let request = Request::new("x".into())
        .ask_all(vec![("a", Question::noul("1".into())), ("b", Question::noul("2".into()))])
        .ask("a", Question::score("3".into(), vec!["lo".into(), "hi".into()]));
    assert_eq!(request.question_ids(), ["a", "b"]);
    assert_eq!(request.len(), 2);
    assert!(!request.is_empty());
    assert_eq!(request.questions().get("a").unwrap().wire_name(), "score");
}

#[test]
fn empty_and_malformed_requests_fail_before_sending() {
    assert!(matches!(Request::new("x".into()).validate(), Err(TypeSafeError::EmptyRequest)));
    assert!(matches!(
        Request::new("x".into())
            .ask("bad", Question::score("rate it".into(), vec!["only one level".into()]))
            .validate(),
        Err(TypeSafeError::InvalidQuestion { .. })
    ));
}

#[test]
fn the_first_invalid_question_is_reported() {
    let request = Request::new("x".into())
        .ask("fine", Question::noul("a".into()))
        .ask("empty", Question::choice_options("b".into(), vec![]))
        .ask("short", Question::score("c".into(), vec![]));
    match request.validate() {
        Err(TypeSafeError::InvalidQuestion { id, reason }) => {
            assert_eq!(id, "empty");
            assert_eq!(reason, "a Choice needs at least one option in criteria");
        }
        other => panic!("unexpected: {other:?}"),
    }
    assert!(Request::new("x".into()).ask("ok", Question::noul("a".into())).validate().is_ok());
}

#[test]
fn object_state_is_passed_through_unchanged() {
    let state: serde_json::Value =
        serde_json::from_str(r#"{"ticket": {"subject": "Duplicate charge"}}"#).unwrap();
    let request = Request::new(state.clone().into())
        .ask("refund", Question::noul("Did the customer ask for a refund?".into()));
    match request.state() {
        Entry::Structured(v) => assert_eq!(*v, state),
        _ => panic!("state changed"),
    }
}

#[test]
fn missing_key_is_reported_clearly() {
    let config = ClientConfig { api_key: Some("   ".to_string()), ..Default::default() };
    assert!(matches!(Client::new(config.clone(), None, None), Err(TypeSafeError::MissingApiKey)));
    assert!(matches!(
        Client::new(ClientConfig::default(), None, None),
        Err(TypeSafeError::MissingApiKey)
    ));
    // A blank configured key counts as absent: the environment's key is used.
    let from_env = Client::new(config, Some(" env-key ".to_string()), None).unwrap();
    assert_eq!(from_env.api_key(), "env-key");
    let blank_both = ClientConfig { api_key: Some(" ".to_string()), ..Default::default() };
    assert!(matches!(
        Client::new(blank_both, Some("\t".to_string()), None),
        Err(TypeSafeError::MissingApiKey)
    ));
    let configured = Client::new(config_with(" mine ", None), Some("theirs".into()), None).unwrap();
    assert_eq!(configured.api_key(), "mine");
    let from_env = Client::new(ClientConfig::default(), Some(" env-key ".to_string()), None).unwrap();
    assert_eq!(from_env.api_key(), "env-key");
}

#[test]
fn non_http_base_url_is_rejected() {
    let config = config_with("test-key", Some("api.typesafe.ai"));
    assert!(matches!(Client::new(config, None, None), Err(TypeSafeError::InvalidBaseUrl(_))));
}

#[test]
fn trailing_slash_is_trimmed_from_base_url() {
    let config = config_with("test-key", Some("https://api.typesafe.ai/"));
    let client = Client::new(config, None, None).unwrap();
    assert_eq!(client.base_url(), "https://api.typesafe.ai");
}

#[test]
fn base_url_falls_back_to_environment_then_default() {
    let c = Client::new(config_with("k", None), None, Some("http://localhost:8080//".into())).unwrap();
    assert_eq!(c.base_url(), "http://localhost:8080");
    let c = Client::new(config_with("k", None), None, None).unwrap();
    assert_eq!(c.base_url(), DEFAULT_BASE_URL);
    assert_eq!(c.default_model(), DEFAULT_MODEL);
    assert_eq!(c.timeout(), Duration::from_secs(30));
    let c = Client::new(config_with("k", Some("https://x/")), None, Some("ftp://y".into())).unwrap();
    assert_eq!(c.base_url(), "https://x");
}

#[test]
fn prepared_calls_use_the_request_model_or_the_default() {
    let c = client();
    let request = Request::new("s".into()).ask("q", Question::noul("?".into()));
    let call = c.prepare(&request).unwrap();
    assert_eq!(call.url, "https://api.typesafe.ai/v1/systemone");
    assert_eq!(call.model, "jev-latest");
    let call = c.prepare(&request.model("jev-1.13.0")).unwrap();
    assert_eq!(call.model, "jev-1.13.0");
    assert!(matches!(c.prepare(&Request::new("s".into())), Err(TypeSafeError::EmptyRequest)));
    assert_eq!(c.models_url(), "https://api.typesafe.ai/v1/models");
}

fn card(name: &str) -> ModelCard {
    ModelCard {
        name: name.to_string(),
        description: "Latest stable".to_string(),
        release_date: "2026-09-01".to_string(),
    }
}

#[test]
fn model_list_accepts_bare_and_wrapped_envelopes() {
    for list in [
        ModelList::Bare(vec![card("jev-latest")]),
        ModelList::Wrapped { data: vec![card("jev-latest")] },
        ModelList::Named { models: vec![card("jev-latest")] },
    ] {
        let cards = list.into_vec();
        assert_eq!(cards.len(), 1);
        assert_eq!(cards[0].name, "jev-latest");
    }
}

fn text(s: &str) -> Json {
    Json::Text(s.to_string())
}

fn object(members: Vec<(&str, Json)>, rendered: &str) -> Json {
    Json::Object {
        members: members.into_iter().map(|(k, v)| (k.to_string(), v)).collect(),
        rendered: rendered.to_string(),
    }
}

#[test]
fn error_details_are_pulled_from_common_shapes() {
    assert_eq!(
        typesafe::extract_detail(
            r#"{"detail":{"error_type":"authentication_error","message":"Must supply an API key!"}}"#
        )
        .as_deref(),
        Some("Must supply an API key!")
    );
    assert_eq!(
        typesafe::extract_detail(r#"{"error":{"message":"bad question"}}"#).as_deref(),
        Some("bad question")
    );
    assert_eq!(
        typesafe::extract_detail(r#"{"detail":"missing field"}"#).as_deref(),
        Some("missing field")
    );
    assert_eq!(typesafe::extract_detail(r#"{"message":"nope"}"#).as_deref(), Some("nope"));
    assert_eq!(
        typesafe::extract_detail("plain text failure").as_deref(),
        Some("plain text failure")
    );
    assert_eq!(typesafe::extract_detail("   "), None);
}

#[test]
fn details_are_found_in_a_given_document() {
    let body = r#"{"detail":{"error_type":"authentication_error","message":"Must supply an API key!"}}"#;
    let doc = object(
        vec![(
            "detail",
            object(
                vec![
                    ("error_type", text("authentication_error")),
                    ("message", text("Must supply an API key!")),
                ],
                r#"{"error_type":"authentication_error","message":"Must supply an API key!"}"#,
            ),
        )],
        body,
    );
    assert_eq!(
        typesafe::detail_from(body, Some(&doc)).as_deref(),
        Some("Must supply an API key!")
    );
    let body = r#"{"error":{"message":"bad question"}}"#;
    let doc = object(
        vec![("error", object(vec![("message", text("bad question"))], r#"{"message":"bad question"}"#))],
        body,
    );
    assert_eq!(typesafe::detail_from(body, Some(&doc)).as_deref(), Some("bad question"));
    let body = r#"{"detail":"missing field"}"#;
    let doc = object(vec![("detail", text("missing field"))], body);
    assert_eq!(typesafe::detail_from(body, Some(&doc)).as_deref(), Some("missing field"));
    assert_eq!(
        typesafe::detail_from("plain text failure", None).as_deref(),
        Some("plain text failure")
    );
    assert_eq!(typesafe::detail_from("   ", Some(&text("x"))), None);
}

#[test]
fn non_string_details_are_rendered_and_null_ones_skipped() {
    let body = r#"{"detail":null,"error":{"code":7}}"#;
    let doc = object(
        vec![
            ("detail", Json::Null),
            ("error", object(vec![("code", Json::Other { rendered: "7".into() })], r#"{"code":7}"#)),
        ],
        body,
    );
    assert_eq!(typesafe::detail_from(body, Some(&doc)).as_deref(), Some(r#"{"code":7}"#));
    assert_eq!(typesafe::extract_detail(body).as_deref(), Some(r#"{"code":7}"#));
    assert_eq!(typesafe::extract_detail(r#"{"error": [1, 2]}"#).as_deref(), Some("[1,2]"));
    let body = r#"{"status":"bad"}"#;
    let doc = object(vec![("status", text("bad"))], body);
    assert_eq!(typesafe::detail_from(body, Some(&doc)).as_deref(), Some(body));
    assert_eq!(typesafe::extract_detail("  {\"status\":\"bad\"}  ").as_deref(), Some(body));
    let long = "x".repeat(400);
    assert_eq!(typesafe::extract_detail(&long), Some(format!("{}...", "x".repeat(300))));
    assert_eq!(typesafe::detail_from(&long, None), Some(format!("{}...", "x".repeat(300))));
}

fn answered(status: u16, retry_after: Option<&str>, body: &str) -> Outcome {
    Outcome::Answered {
        status,
        retry_after: retry_after.map(|s| s.to_string()),
        body: Ok(body.to_string()),
    }
}

#[test]
fn outcomes_are_judged_by_status_and_policy() {
    let c = client();
    assert!(matches!(c.assess(answered(200, None, "{}")), Attempt::Done(ref b) if b == "{}"));
    match c.assess(answered(429, Some("3"), "slow")) {
        Attempt::Retry(TypeSafeError::RateLimit { retry_after, detail }, after) => {
            assert_eq!(retry_after, Some(Duration::from_secs(3)));
            assert_eq!(after, Some(Duration::from_secs(3)));
            assert_eq!(detail.as_deref(), Some("slow"));
        }
        other => panic!("unexpected: {other:?}"),
    }
    assert!(matches!(
        c.assess(answered(422, None, "")),
        Attempt::Fail(TypeSafeError::UnprocessableEntity(None))
    ));
    assert!(matches!(
        c.assess(answered(503, None, "down")),
        Attempt::Retry(TypeSafeError::InternalServer { status: 503, .. }, None)
    ));
    assert!(matches!(
        c.assess(Outcome::TimedOut),
        Attempt::Retry(TypeSafeError::Timeout(_), None)
    ));
    assert!(matches!(
        c.assess(Outcome::Unreachable("refused".into())),
        Attempt::Retry(TypeSafeError::Connection(_), None)
    ));
    assert!(matches!(
        c.assess(Outcome::Answered {
            status: 200,
            retry_after: None,
            body: Err("broken stream".into()),
        }),
        Attempt::Fail(TypeSafeError::Decode(_))
    ));
    let strict = Client::new(
        ClientConfig {
            api_key: Some("k".into()),
            retry: RetryPolicy {
                retry_on_timeout: false,
                retry_on_connection_error: false,
                ..RetryPolicy::default()
            },
            ..Default::default()
        },
        None,
        None,
    )
    .unwrap();
    assert!(matches!(strict.assess(Outcome::TimedOut), Attempt::Fail(TypeSafeError::Timeout(_))));
    assert!(matches!(
        strict.assess(Outcome::Unreachable("x".into())),
        Attempt::Fail(TypeSafeError::Connection(_))
    ));
}

#[test]
fn retries_stop_after_the_policy_limit() {
    let c = client();
    let retry = || Attempt::<u8>::Retry(TypeSafeError::Overloaded(None), None);
    assert!(matches!(c.next_step(0, retry()), Step::Wait { retries: 1, .. }));
    assert!(matches!(c.next_step(1, retry()), Step::Wait { retries: 2, .. }));
    assert!(matches!(c.next_step(2, retry()), Step::Finished(Err(TypeSafeError::Overloaded(None)))));
    assert!(matches!(c.next_step(0, Attempt::Done(5u8)), Step::Finished(Ok(5))));
    assert!(matches!(
        c.next_step(0, Attempt::<u8>::Fail(TypeSafeError::EmptyRequest)),
        Step::Finished(Err(TypeSafeError::EmptyRequest))
    ));
    match c.next_step(0, Attempt::<u8>::Retry(TypeSafeError::Overloaded(None), Some(Duration::from_secs(9)))) {
        Step::Wait { retries, delay } => {
            assert_eq!(retries, 1);
            assert_eq!(delay, Duration::from_secs(9));
        }
        other => panic!("unexpected: {other:?}"),
    }
}

/// Steps a call through `outcomes` the way the transport loop does, and
/// reports how many attempts it made and how it ended.
fn run(c: &Client, outcomes: Vec<Attempt<u8>>) -> (usize, Result<u8, TypeSafeError>) {
    let mut retries = 0u32;
    let mut made = 0usize;
    for outcome in outcomes {
        made += 1;
        match c.next_step(retries, outcome) {
            Step::Finished(result) => return (made, result),
            Step::Wait { retries: next, .. } => retries = next,
        }
    }
    panic!("the call outlived its outcomes")
}

#[test]
fn a_call_stops_at_the_first_final_attempt_or_the_limit() {
    let c = Client::new(
        ClientConfig {
            api_key: Some("k".into()),
            retry: RetryPolicy { backoff_jitter: 0, ..RetryPolicy::default() },
            ..Default::default()
        },
        None,
        None,
    )
    .unwrap();
    let retry = || Attempt::<u8>::Retry(TypeSafeError::Overloaded(None), None);
    let (made, result) = run(&c, vec![retry(), Attempt::Done(7), retry()]);
    assert_eq!(made, 2);
    assert!(matches!(result, Ok(7)));
    let (made, result) = run(&c, vec![retry(), Attempt::Fail(TypeSafeError::EmptyRequest), retry()]);
    assert_eq!(made, 2);
    assert!(matches!(result, Err(TypeSafeError::EmptyRequest)));
    let (made, result) = run(&c, vec![retry(), retry(), retry(), Attempt::Done(1)]);
    assert_eq!(made, 3);
    assert!(matches!(result, Err(TypeSafeError::Overloaded(None))));
}

#[test]
fn undecodable_success_bodies_are_reported_with_the_body() {
    match decode_failure("expected value", "  not json  ") {
        TypeSafeError::Decode(m) => assert_eq!(m, "expected value (body: not json)"),
        other => panic!("unexpected: {other:?}"),
    }
}

#[test]
fn no_retries_finish_after_one_attempt_even_for_huge_backoffs() {
    let policy = RetryPolicy {
        max_retries: 0,
        backoff_initial: Duration::max_value(),
        backoff_max: Duration::max_value(),
        ..RetryPolicy::default()
    };
    assert!(!policy.jitter_bounded(1));
    let c = Client::new(
        ClientConfig { api_key: Some("k".into()), retry: policy, ..Default::default() },
        None,
        None,
    )
    .unwrap();
    assert!(matches!(
        c.next_step(0, Attempt::<u8>::Retry(TypeSafeError::Overloaded(None), None)),
        Step::Finished(Err(TypeSafeError::Overloaded(None)))
    ));
}
