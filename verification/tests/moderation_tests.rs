use fieri::moderation::{
    interpret_response, Categories, CategoryScores, Moderation, ModerationParam,
    ModerationParamBuilder, Score,
};

fn chars(s: &str) -> Vec<char> {
    s.chars().collect()
}

#[test]
fn test_create_moderation() {
    let param: ModerationParam = ModerationParam::from_json(
        r#"
            {
                "input": "I want to kill them."
              }
            "#,
    )
    .unwrap();

    let resp: Moderation = Moderation::from_json(
        r#"
            {
                "id": "modr-5MWoLO",
                "model": "text-moderation-001",
                "results": [
                  {
                    "categories": {
                      "hate": false,
                      "hate/threatening": true,
                      "self-harm": false,
                      "sexual": false,
                      "sexual/minors": false,
                      "violence": true,
                      "violence/graphic": false
                    },
                    "category_scores": {
                      "hate": 0.22714105248451233,
                      "hate/threatening": 0.4132447838783264,
                      "self-harm": 0.005232391878962517,
                      "sexual": 0.01407341007143259,
                      "sexual/minors": 0.0038522258400917053,
                      "violence": 0.9223177433013916,
                      "violence/graphic": 0.036865197122097015
                    },
                    "flagged": true
                  }
                ]
              }
            "#,
    )
    .unwrap();

    assert_eq!(param.input, "I want to kill them.");
    assert_eq!(resp.id, "modr-5MWoLO");
    assert_eq!(resp.model, "text-moderation-001");
    assert_eq!(resp.results.len(), 1);
}

#[test]
fn example_response_maps_wire_keys() {
    let resp = Moderation::from_json(
        r#"{"id":"modr-5MWoLO","model":"text-moderation-001","results":[{"categories":{"hate":false,"hate/threatening":true,"self-harm":false,"sexual":false,"sexual/minors":false,"violence":true,"violence/graphic":false},"category_scores":{"hate":0.22714105248451233,"hate/threatening":0.4132447838783264,"self-harm":0.005232391878962517,"sexual":0.01407341007143259,"sexual/minors":0.0038522258400917053,"violence":0.9223177433013916,"violence/graphic":0.036865197122097015},"flagged":true}]}"#,
    )
    .unwrap();
    let cats = &resp.results[0].categories;
    assert!(cats.hate_threatening);
    assert!(!cats.hate);
    assert!(cats.violence);
    assert!(!cats.violence_graphic);
    let scores = &resp.results[0].category_scores;
    assert_eq!(scores.hate.text(), "0.22714105248451233");
    assert_eq!(scores.violence.text(), "0.9223177433013916");
    // the example carries no usage, and the flag is absent at the top level
    assert!(resp.token_usage.is_none());
    assert!(!resp.flagged);
}

#[test]
fn builder_without_input_fails() {
    let r = ModerationParamBuilder::default().build();
    assert!(r.is_err());
    let r = ModerationParamBuilder::default()
        .model(String::from("text-moderation-stable"))
        .build();
    assert!(r.is_err());
}

#[test]
fn builder_with_input_succeeds() {
    let param = ModerationParamBuilder::new(String::from("I want to kill them."))
        .model(String::from("text-moderation-stable"))
        .build()
        .unwrap();
    assert_eq!(param.input, "I want to kill them.");
    assert_eq!(param.model.as_deref(), Some("text-moderation-stable"));
    let param = ModerationParamBuilder::default()
        .input(String::from("hello"))
        .build()
        .unwrap();
    assert_eq!(param.input, "hello");
    assert!(param.model.is_none());
}

#[test]
fn unset_model_is_absent_not_null() {
    let param = ModerationParamBuilder::new(String::from("hi")).build().unwrap();
    let body = param.to_json();
    assert_eq!(body, r#"{"input":"hi"}"#);
    assert!(!body.contains("model"));
    assert!(!body.contains("null"));
}

#[test]
fn param_round_trips_through_json() {
    let param = ModerationParam {
        model: Some(String::from("text-moderation-stable")),
        input: String::from("quote \" backslash \\ newline \n tab \t bell \u{7} dot."),
    };
    let body = param.to_json();
    let back = ModerationParam::from_json(&body).unwrap();
    assert_eq!(back.input, param.input);
    assert_eq!(back.model, param.model);
}

#[test]
fn missing_category_fields_default_to_false() {
    let v = chars(r#"{"violence": true}"#);
    let (cats, end) = fieri::moderation::parse_categories_at(&v, 0).unwrap();
    assert_eq!(end, v.len());
    assert!(cats.violence);
    assert!(!cats.hate);
    assert!(!cats.hate_threatening);
    assert!(!cats.self_harm);
    assert!(!cats.sexual);
    assert!(!cats.sexual_minors);
    assert!(!cats.violence_graphic);

    let v = chars("{}");
    let (cats, _) = fieri::moderation::parse_categories_at(&v, 0).unwrap();
    assert_eq!(cats, Categories::default());
}

#[test]
fn missing_score_fields_default_to_zero() {
    let v = chars(r#"{"sexual": 0.25}"#);
    let (scores, end) = fieri::moderation::parse_scores_at(&v, 0).unwrap();
    assert_eq!(end, v.len());
    assert_eq!(scores.sexual.text(), "0.25");
    assert_eq!(scores.hate.text(), "0");
    assert_eq!(scores.violence.text(), "0");

    let v = chars("{}");
    let (scores, _) = fieri::moderation::parse_scores_at(&v, 0).unwrap();
    assert_eq!(scores.hate_threatening.text(), "0");
}

#[test]
fn missing_response_fields_default() {
    let m = Moderation::from_json("{}").unwrap();
    assert_eq!(m.id, "");
    assert_eq!(m.model, "");
    assert!(!m.flagged);
    assert!(m.results.is_empty());
    assert!(m.token_usage.is_none());
}

#[test]
fn categories_round_trip_both_directions() {
    let cats = Categories {
        hate: false,
        hate_threatening: true,
        self_harm: false,
        sexual: false,
        sexual_minors: false,
        violence: true,
        violence_graphic: false,
    };
    let text = cats.to_json();
    assert_eq!(
        text,
        r#"{"hate":false,"hate/threatening":true,"self-harm":false,"sexual":false,"sexual/minors":false,"violence":true,"violence/graphic":false}"#
    );
    let v: Vec<char> = text.chars().collect();
    let (back, end) = fieri::moderation::parse_categories_at(&v, 0).unwrap();
    assert_eq!(end, v.len());
    assert_eq!(back, cats);
}

#[test]
fn score_validation() {
    assert!(Score::new(String::from("0.5")).is_some());
    assert!(Score::new(String::from("-1.25e-3")).is_some());
    assert!(Score::new(String::from("0")).is_some());
    assert!(Score::new(String::from("01")).is_none());
    assert!(Score::new(String::from("1.")).is_none());
    assert!(Score::new(String::from("abc")).is_none());
    assert!(Score::new(String::from("")).is_none());
    let sc = Score::new(String::from("0.9223177433013916")).unwrap();
    assert_eq!(sc.text(), "0.9223177433013916");
    let f: f64 = sc.text().parse().unwrap();
    assert!((f - 0.9223177433013916).abs() < 1e-15);
}

#[test]
fn token_usage_parses() {
    let m = Moderation::from_json(
        r#"{"id":"x","token_usage":{"prompt_tokens":5,"completion_tokens":0,"total_tokens":5}}"#,
    )
    .unwrap();
    let u = m.token_usage.unwrap();
    assert_eq!(u.prompt_tokens, 5);
    assert_eq!(u.completion_tokens, 0);
    assert_eq!(u.total_tokens, 5);

    let m = Moderation::from_json(r#"{"token_usage":null}"#).unwrap();
    assert!(m.token_usage.is_none());
}

#[test]
fn string_escapes_decode() {
    let p = ModerationParam::from_json(r#"{"input":"a\"b\\c\nd\teAf\u00071"}"#).unwrap();
    assert_eq!(p.input, "a\"b\\c\nd\teAf\u{7}1");
}

#[test]
fn malformed_bodies_are_rejected() {
    assert!(Moderation::from_json("").is_none());
    assert!(Moderation::from_json("{").is_none());
    assert!(Moderation::from_json(r#"{"id":5}"#).is_none());
    assert!(Moderation::from_json(r#"{"unknown":1}"#).is_none());
    assert!(Moderation::from_json("{} trailing").is_none());
    assert!(ModerationParam::from_json("{}").is_none());
    assert!(ModerationParam::from_json(r#"{"model":"m"}"#).is_none());
}

#[test]
fn http_status_error_is_distinguishable() {
    let r = interpret_response(401, r#"{"error":{"message":"bad key"}}"#);
    let e = r.err().unwrap();
    assert!(e.is_http_status());
    assert!(!e.is_transport());
    match e {
        fieri::error::Error::HttpStatus(status, body) => {
            assert_eq!(status, 401);
            assert!(body.contains("bad key"));
        },
        _ => panic!("expected the HTTP-status kind"),
    }

    let transport = fieri::error::Error::Transport(String::from("connection refused"));
    assert!(transport.is_transport());
    assert!(!transport.is_http_status());
}

#[test]
fn success_status_decodes_body() {
    let ok = interpret_response(200, r#"{"id":"modr-1","flagged":true}"#).unwrap();
    assert_eq!(ok.id, "modr-1");
    assert!(ok.flagged);

    let bad = interpret_response(299, "not json");
    match bad {
        Err(fieri::error::Error::Deserialization) => {},
        _ => panic!("expected a deserialization error"),
    }

    assert!(fieri::is_success_status(200));
    assert!(fieri::is_success_status(299));
    assert!(!fieri::is_success_status(300));
    assert!(!fieri::is_success_status(199));
}

#[test]
fn result_to_json_is_exact() {
    let r = fieri::moderation::ModerationResult::default();
    let text = r.to_json();
    let expected = String::from(
        r#"{"categories":{"hate":false,"hate/threatening":false,"self-harm":false,"sexual":false,"sexual/minors":false,"violence":false,"violence/graphic":false},"category_scores":{"hate":0,"hate/threatening":0,"self-harm":0,"sexual":0,"sexual/minors":0,"violence":0,"violence/graphic":0}}"#,
    );
    assert_eq!(text, expected);
    let s = fieri::moderation::CategoryScores::default().to_json();
    assert!(s.starts_with(r#"{"hate":0,"#));
}
