//! Tests driving the verified phase functions on concrete values.
use token_refresher::exchange::HttpOutcome;
use token_refresher::exchange::plan_refresh;
use token_refresher::exchange::interpret_refresh_response;
use token_refresher::orchestrator::ResolveOutcome;
use token_refresher::orchestrator::ingest_resolutions;
use token_refresher::orchestrator::plan_writes;
use token_refresher::orchestrator::summarize;
use token_refresher::params::prefixed_parameter_name;
use token_refresher::secrets::bearer_header;
use token_refresher::secrets::interpret_write_response;
use token_refresher::secrets::secret_update_body;
use token_refresher::secrets::write_url;
use token_refresher::EventBridgePayload;
use token_refresher::ParameterMap;
use token_refresher::RefreshError;
use token_refresher::Secret;
use token_refresher::Token;
use token_refresher::WriteCall;

fn sample_token() -> Token {
    Token {
        access_token: String::from("A"),
        refresh_token: String::from("R"),
        id_token: String::from("I"),
    }
}

fn sample_request() -> EventBridgePayload {
    EventBridgePayload {
        cid_path: String::from("cid"),
        scope_path: String::from("scope"),
        r_tok_path: String::from("rtok"),
        update_paths: vec![String::from("access_token"), String::from("id_token")],
        ssm_retrieval_paths: vec![
            String::from("cid"),
            String::from("scope"),
            String::from("rtok"),
            String::from("secrets-environment"),
            String::from("secrets-workspace"),
            String::from("secrets-rw"),
        ],
        secrets_endpoint: String::from("https://secrets.example/api/v1/secret/"),
        app_endpoint: String::from("https://login.example/token"),
        secrets_path: String::from("/"),
    }
}

fn resolved(key: &str, value: &str) -> (String, ResolveOutcome) {
    (String::from(key), ResolveOutcome::Resolved(String::from(value)))
}

fn sample_outcomes() -> Vec<(String, ResolveOutcome)> {
    vec![
        resolved("cid", "client-123"),
        resolved("scope", "read write"),
        resolved("rtok", "refresh-xyz"),
        resolved("secrets-environment", "prod"),
        resolved("secrets-workspace", "ws-1"),
        resolved("secrets-rw", "rw-credential-1"),
    ]
}

#[test]
fn field_lookup_is_case_insensitive() {
    let t = sample_token();
    assert_eq!(t.field_value("Access_Token"), Some(String::from("A")));
    assert_eq!(t.field_value("access_token"), Some(String::from("A")));
    assert_eq!(t.field_value("ACCESS_TOKEN"), Some(String::from("A")));
}

#[test]
fn field_lookup_finds_each_field() {
    let t = sample_token();
    assert_eq!(t.field_value("refresh_token"), Some(String::from("R")));
    assert_eq!(t.field_value("Id_Token"), Some(String::from("I")));
    assert_eq!(t.field_value("access_tokens"), None);
    assert_eq!(t.field_value(""), None);
}

#[test]
fn parameter_map_inserts_and_overwrites() {
    let mut m = ParameterMap::new();
    m.insert(String::from("k"), String::from("v1"));
    m.insert(String::from("other"), String::from("o"));
    m.insert(String::from("k"), String::from("v2"));
    assert_eq!(m.get("k"), Some(&String::from("v2")));
    assert_eq!(m.get("other"), Some(&String::from("o")));
    assert_eq!(m.get("missing"), None);
    assert!(m.contains("k"));
    assert!(!m.contains("missing"));
}

#[test]
fn ingest_collects_all_resolved_values() {
    let m = ingest_resolutions(&sample_outcomes()).unwrap();
    assert_eq!(m.get("cid"), Some(&String::from("client-123")));
    assert_eq!(m.get("secrets-rw"), Some(&String::from("rw-credential-1")));
}

#[test]
fn transport_failure_aborts_resolution() {
    let outcomes = vec![
        resolved("cid", "client-123"),
        (String::from("scope"), ResolveOutcome::TransportFailure),
        resolved("rtok", "refresh-xyz"),
    ];
    let r = ingest_resolutions(&outcomes);
    assert!(matches!(r, Err(RefreshError::Transport)));
}

#[test]
fn missing_parameter_aborts_resolution() {
    let outcomes = vec![
        resolved("cid", "client-123"),
        (String::from("scope"), ResolveOutcome::NotFound),
    ];
    match ingest_resolutions(&outcomes) {
        Err(RefreshError::NotFound(k)) => assert_eq!(k, "scope"),
        other => panic!("expected NotFound, got {:?}", other.map(|_| ())),
    }
}

#[test]
fn missing_dependency_key_is_a_config_error() {
    let outcomes = vec![
        resolved("scope", "read"),
        resolved("rtok", "refresh-xyz"),
    ];
    let m = ingest_resolutions(&outcomes).unwrap();
    match plan_refresh(&sample_request(), &m) {
        Err(RefreshError::Config(k)) => assert_eq!(k, "cid"),
        other => panic!("expected Config, got {:?}", other.map(|_| ())),
    }
}

#[test]
fn refresh_plan_reads_the_configured_keys() {
    let m = ingest_resolutions(&sample_outcomes()).unwrap();
    let call = plan_refresh(&sample_request(), &m).unwrap();
    assert_eq!(call.endpoint, "https://login.example/token");
    assert_eq!(call.client_id, "client-123");
    assert_eq!(call.scope, "read write");
    assert_eq!(call.refresh_token, "refresh-xyz");
    assert_eq!(
        call.body,
        "client_id=client-123&scope=read+write&refresh_token=refresh-xyz&grant_type=refresh_token"
    );
}

#[test]
fn refresh_form_percent_encodes_reserved_characters() {
    let mut m = ParameterMap::new();
    m.insert(String::from("cid"), String::from("my client&id"));
    m.insert(String::from("scope"), String::from("a=b"));
    m.insert(String::from("rtok"), String::from("t/ok"));
    let call = plan_refresh(&sample_request(), &m).unwrap();
    assert_eq!(
        call.body,
        "client_id=my+client%26id&scope=a%3Db&refresh_token=t%2Fok&grant_type=refresh_token"
    );
}

#[test]
fn well_formed_refresh_response_yields_the_token_set() {
    let body = String::from(
        "{\"access_token\":\"A\",\"refresh_token\":\"R\",\"id_token\":\"I\",\"expires_in\":3600}",
    );
    let t = interpret_refresh_response(HttpOutcome::Response(body)).unwrap();
    assert_eq!(t.access_token, "A");
    assert_eq!(t.refresh_token, "R");
    assert_eq!(t.id_token, "I");
}

#[test]
fn malformed_refresh_response_is_an_exchange_error() {
    let r = interpret_refresh_response(HttpOutcome::Response(String::from("not json")));
    assert!(matches!(r, Err(RefreshError::Exchange)));
    let r = interpret_refresh_response(HttpOutcome::Response(String::from(
        "{\"access_token\":\"A\"}",
    )));
    assert!(matches!(r, Err(RefreshError::Exchange)));
    let r = interpret_refresh_response(HttpOutcome::TransportFailure);
    assert!(matches!(r, Err(RefreshError::Exchange)));
}

#[test]
fn write_plan_resolves_fields_and_context() {
    let m = ingest_resolutions(&sample_outcomes()).unwrap();
    let calls = plan_writes(&sample_request(), &m, &sample_token()).unwrap();
    assert_eq!(calls.len(), 2);
    assert_eq!(calls[0].secret_key, "access_token");
    assert_eq!(calls[0].new_value, "A");
    assert_eq!(calls[1].secret_key, "id_token");
    assert_eq!(calls[1].new_value, "I");
    for c in &calls {
        assert_eq!(c.endpoint, "https://secrets.example/api/v1/secret/");
        assert_eq!(c.secret_path, "/");
        assert_eq!(c.environment, "prod");
        assert_eq!(c.workspace, "ws-1");
        assert_eq!(c.bearer, "rw-credential-1");
    }
}

#[test]
fn write_plan_fails_on_a_field_with_no_match() {
    let m = ingest_resolutions(&sample_outcomes()).unwrap();
    let mut request = sample_request();
    request.update_paths = vec![String::from("access_token"), String::from("session_token")];
    match plan_writes(&request, &m, &sample_token()) {
        Err(RefreshError::MissingField(k)) => assert_eq!(k, "session_token"),
        other => panic!("expected MissingField, got {:?}", other.map(|_| ())),
    }
}

#[test]
fn write_plan_fails_on_a_missing_context_key() {
    let outcomes = vec![
        resolved("cid", "c"),
        resolved("scope", "s"),
        resolved("rtok", "r"),
        resolved("secrets-environment", "prod"),
    ];
    let m = ingest_resolutions(&outcomes).unwrap();
    match plan_writes(&sample_request(), &m, &sample_token()) {
        Err(RefreshError::Config(k)) => assert_eq!(k, "secrets-workspace"),
        other => panic!("expected Config, got {:?}", other.map(|_| ())),
    }
}

#[test]
fn permuted_inputs_give_the_same_plans() {
    let mut outcomes = sample_outcomes();
    outcomes.reverse();
    let m1 = ingest_resolutions(&sample_outcomes()).unwrap();
    let m2 = ingest_resolutions(&outcomes).unwrap();
    let request = sample_request();
    let c1 = plan_refresh(&request, &m1).unwrap();
    let c2 = plan_refresh(&request, &m2).unwrap();
    assert_eq!(c1.client_id, c2.client_id);
    assert_eq!(c1.scope, c2.scope);
    assert_eq!(c1.refresh_token, c2.refresh_token);
    assert_eq!(c1.body, c2.body);

    let mut permuted = request.clone();
    permuted.update_paths = vec![String::from("id_token"), String::from("access_token")];
    let w1: Vec<WriteCall> = plan_writes(&request, &m1, &sample_token()).unwrap();
    let w2: Vec<WriteCall> = plan_writes(&permuted, &m2, &sample_token()).unwrap();
    assert_eq!(w1.len(), w2.len());
    for c in &w1 {
        assert!(w2.contains(c));
    }
    for c in &w2 {
        assert!(w1.contains(c));
    }
}

#[test]
fn end_to_end_scenario_two_writes_succeed() {
    let request = sample_request();
    let m = ingest_resolutions(&sample_outcomes()).unwrap();
    let refresh_call = plan_refresh(&request, &m).unwrap();
    assert_eq!(refresh_call.client_id, "client-123");
    let body = String::from("{\"access_token\":\"A\",\"refresh_token\":\"R\",\"id_token\":\"I\"}");
    let token = interpret_refresh_response(HttpOutcome::Response(body)).unwrap();
    let calls = plan_writes(&request, &m, &token).unwrap();
    assert_eq!(calls.len(), 2);
    assert_eq!(calls[0].secret_key, "access_token");
    assert_eq!(calls[0].new_value, "A");
    assert_eq!(calls[1].secret_key, "id_token");
    assert_eq!(calls[1].new_value, "I");
    let confirmation = String::from(
        "{\"secret\":{\"_id\":\"abc\",\"version\":2,\"workspace\":\"ws-1\",\"type\":\"shared\",\
         \"secretKey\":\"access_token\",\"secretValue\":\"A\",\"secretComment\":\"\"}}",
    );
    let results: Vec<Result<Secret, RefreshError>> = vec![
        interpret_write_response(HttpOutcome::Response(confirmation.clone())),
        interpret_write_response(HttpOutcome::Response(confirmation)),
    ];
    assert!(results.iter().all(|r| r.is_ok()));
    let response = summarize(String::from("req-1"), &results);
    assert_eq!(response.req_id, "req-1");
    assert!(response.successful);
}

#[test]
fn write_failures_turn_the_summary_unsuccessful() {
    let results: Vec<Result<Secret, RefreshError>> = vec![
        interpret_write_response(HttpOutcome::Response(String::from("oops"))),
    ];
    assert!(matches!(results[0], Err(RefreshError::Write)));
    let response = summarize(String::from("req-2"), &results);
    assert_eq!(response.req_id, "req-2");
    assert!(!response.successful);
    let none: Vec<Result<Secret, RefreshError>> = vec![];
    assert!(summarize(String::from("req-3"), &none).successful);
}

#[test]
fn write_response_parses_the_confirmation_record() {
    let body = String::from(
        "{\"secret\":{\"version\":7,\"workspace\":\"ws-1\",\"type\":\"shared\",\
         \"secretKey\":\"id_token\",\"secretValue\":\"I\",\"secretComment\":\"c\"}}",
    );
    let s = interpret_write_response(HttpOutcome::Response(body)).unwrap();
    assert_eq!(s.secret.id, None);
    assert_eq!(s.secret.version, 7);
    assert_eq!(s.secret.workspace, "ws-1");
    assert_eq!(s.secret.secret_type, "shared");
    assert_eq!(s.secret.secret_key, "id_token");
    assert_eq!(s.secret.secret_value, "I");
    assert_eq!(s.secret.secret_comment, "c");
    let r = interpret_write_response(HttpOutcome::TransportFailure);
    assert!(matches!(r, Err(RefreshError::Write)));
}

#[test]
fn secret_update_body_is_exact_json() {
    let body = secret_update_body("prod", "A", "ws-1", "/");
    assert_eq!(
        body.as_slice(),
        "{\"environment\":\"prod\",\"secretValue\":\"A\",\"workspaceId\":\"ws-1\",\
         \"secretPath\":\"/\"}"
            .as_bytes()
    );
}

#[test]
fn secret_update_body_escapes_values() {
    let body = secret_update_body("pr\"od", "A\\B\nC", "w", "/p");
    assert_eq!(
        body.as_slice(),
        "{\"environment\":\"pr\\\"od\",\"secretValue\":\"A\\\\B\\nC\",\"workspaceId\":\"w\",\
         \"secretPath\":\"/p\"}"
            .as_bytes()
    );
    let control = secret_update_body("e", "a\u{1}b", "w", "p");
    assert_eq!(
        control.as_slice(),
        "{\"environment\":\"e\",\"secretValue\":\"a\\u0001b\",\"workspaceId\":\"w\",\
         \"secretPath\":\"p\"}"
            .as_bytes()
    );
}

#[test]
fn url_header_and_prefix_concatenate() {
    assert_eq!(
        write_url("https://secrets.example/api/v1/secret/", "access_token"),
        "https://secrets.example/api/v1/secret/access_token"
    );
    assert_eq!(bearer_header("tok"), "Bearer tok");
    assert_eq!(prefixed_parameter_name("rtok"), "/onedrive-manager/rtok");
}
