use ore_pool::jito::{
    accept_reply, bundle_statuses_at, endpoint_url, get_bundle_statuses, is_confirmed,
    parse_failure, read_failure, read_reply, send_bundle_at, send_failure, send_jito_bundle, BundleStatus, Rejection, RpcRequest,
};

const URLS: [&str; 4] = [
    "https://mainnet.block-engine.jito.wtf/api/v1/bundles",
    "https://amsterdam.mainnet.block-engine.jito.wtf/api/v1/bundles",
    "https://ny.mainnet.block-engine.jito.wtf/api/v1/bundles",
    "https://tokyo.mainnet.block-engine.jito.wtf/api/v1/bundles",
];

fn status(confirmation: &str) -> BundleStatus {
    BundleStatus { bundle_id: "b".to_string(), confirmation_status: confirmation.to_string() }
}

fn expected(method: &str, param: &[&str]) -> RpcRequest {
    RpcRequest {
        jsonrpc: "2.0".to_string(),
        id: 1,
        method: method.to_string(),
        params: vec![param.iter().map(|p| p.to_string()).collect()],
    }
}

#[test]
fn endpoints_have_urls() {
    for i in 0..4 {
        assert_eq!(endpoint_url(i), URLS[i]);
    }
}

#[test]
fn bundle_is_sent_as_one_parameter() {
    let call = send_bundle_at(2, vec!["t1".to_string(), "t2".to_string()]);
    assert_eq!(call.url, URLS[2]);
    assert_eq!(call.timeout_secs, 5);
    assert_eq!(call.request, expected("sendBundle", &["t1", "t2"]));
}

#[test]
fn statuses_are_asked_for_one_bundle() {
    let call = bundle_statuses_at(0, "id".to_string());
    assert_eq!(call.url, URLS[0]);
    assert_eq!(call.timeout_secs, 3);
    assert_eq!(call.request, expected("getBundleStatuses", &["id"]));
}

#[test]
fn every_endpoint_is_used() {
    let mut sent = [false; 4];
    let mut asked = [false; 4];
    for _ in 0..1_000 {
        let call = send_jito_bundle(vec!["t".to_string()]);
        assert_eq!(call.request, expected("sendBundle", &["t"]));
        sent[URLS.iter().position(|u| *u == call.url).unwrap()] = true;
        let call = get_bundle_statuses("id".to_string());
        assert_eq!(call.request, expected("getBundleStatuses", &["id"]));
        asked[URLS.iter().position(|u| *u == call.url).unwrap()] = true;
    }
    assert_eq!(sent, [true; 4]);
    assert_eq!(asked, [true; 4]);
}

#[test]
fn only_success_is_accepted() {
    for code in [200, 201, 299] {
        assert_eq!(accept_reply(code, "x".to_string()), Ok("x".to_string()));
    }
    for code in [0, 100, 199, 300, 404, 500, u16::MAX] {
        assert_eq!(
            accept_reply(code, "x".to_string()),
            Err(Rejection { status: code, text: "x".to_string() })
        );
    }
}

#[test]
fn first_status_decides() {
    assert!(!is_confirmed(&vec![]));
    assert!(is_confirmed(&vec![status("confirmed")]));
    assert!(is_confirmed(&vec![status("confirmed"), status("processed")]));
    assert!(!is_confirmed(&vec![status("processed"), status("confirmed")]));
    assert!(!is_confirmed(&vec![status("finalized")]));
}

#[test]
fn refused_reply_is_reported_with_its_status() {
    let text = r#"{"jsonrpc":"2.0","result":"abc","id":1}"#;
    let expected =
        "Status code: 429 Too Many Requests, response: {\"jsonrpc\":\"2.0\",\"result\":\"abc\",\"id\":1}";
    let rejection = accept_reply(429, text.to_string()).unwrap_err();
    assert_eq!(rejection.message("429 Too Many Requests"), expected);
    assert_eq!(
        read_reply(429, "429 Too Many Requests", text.to_string()),
        Err(expected.to_string())
    );
    assert_eq!(read_reply(200, "200 OK", text.to_string()), Ok(text.to_string()));
    assert_eq!(
        read_reply(500, "500 Internal Server Error", String::new()),
        Err("Status code: 500 Internal Server Error, response: ".to_string())
    );
}

#[test]
fn other_failures_have_their_texts() {
    assert_eq!(send_failure("timed out"), "Failed to send request: timed out");
    assert_eq!(read_failure("cut off"), "Failed to read response content: cut off");
    assert_eq!(
        parse_failure("expected value", "<html>", "200 OK"),
        "Failed to deserialize response: expected value, response: <html>, status: 200 OK"
    );
}
