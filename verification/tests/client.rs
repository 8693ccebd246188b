use aptly::client::{AptosClient, ClientError, Method, DEFAULT_RPC_URL};
use aptly::json::Json;

fn object(members: Vec<(&str, Json)>) -> Json {
    Json::Object(members.into_iter().map(|(k, v)| (k.to_string(), v)).collect())
}

#[test]
fn endpoint_is_the_same_whatever_surrounds_the_base() {
    let plain = AptosClient::new("https://node.example/v1").unwrap();
    let expected = "https://node.example/v1/info";
    assert_eq!(plain.endpoint("info"), expected);
    for raw in [
        "https://node.example/v1/",
        "https://node.example/v1///",
        "  https://node.example/v1",
        "https://node.example/v1 \n",
        "\t https://node.example/v1// \u{a0}\u{3000}",
    ] {
        let client = AptosClient::new(raw).unwrap();
        assert_eq!(client.base_url(), "https://node.example/v1");
        assert_eq!(client.endpoint("info"), expected);
        assert_eq!(client.endpoint("/info"), expected);
        assert_eq!(client.endpoint("//info"), expected);
    }
}

#[test]
fn base_is_trimmed_as_std_trims() {
    for raw in ["  a/b// ", "\u{2003}x\u{2028}", "x /", "\u{85}y/\u{1680}", "/z/", "a\u{200b}"] {
        let expected = raw.trim().trim_end_matches('/');
        assert_eq!(AptosClient::new(raw).unwrap().base_url(), expected);
    }
}

#[test]
fn inner_whitespace_before_slashes_is_kept() {
    assert_eq!(AptosClient::new("a /").unwrap().base_url(), "a ");
}

#[test]
fn empty_base_is_a_configuration_error() {
    for raw in ["", " ", "\t\n  ", "/", "  /// ", "\u{3000}"] {
        assert_eq!(AptosClient::new(raw).err(), Some(ClientError::EmptyBaseUrl));
    }
    assert_eq!(ClientError::EmptyBaseUrl.message(), "rpc url cannot be empty");
}

#[test]
fn default_node_is_a_base() {
    let client = AptosClient::new(DEFAULT_RPC_URL).unwrap();
    assert_eq!(client.base_url(), "https://api.mainnet.aptoslabs.com/v1");
    assert_eq!(client.endpoint("/"), "https://api.mainnet.aptoslabs.com/v1/");
}

#[test]
fn get_and_post_requests() {
    let client = AptosClient::new("http://n/").unwrap();
    let get = client.get_json("/accounts/0x1");
    assert_eq!(get.method, Method::Get);
    assert_eq!(get.url, "http://n/accounts/0x1");
    assert_eq!(get.body, None);
    let post = client.post_json("view", Json::Bool(true));
    assert_eq!(post.method, Method::Post);
    assert_eq!(post.url, "http://n/view");
    assert_eq!(post.body, Some(Json::Bool(true)));
    assert_eq!(Method::Get.name(), "GET");
    assert_eq!(Method::Post.name(), "POST");
}

#[test]
fn success_returns_the_parsed_document() {
    let client = AptosClient::new("http://n").unwrap();
    let text = r#"{"b": [1, -2, 1.5, "x", null, true], "a": {"k": false}}"#;
    let expected = || object(vec![
        ("a", object(vec![("k", Json::Bool(false))])),
        (
            "b",
            Json::Array(vec![
                Json::Number("1".to_string()),
                Json::Number("-2".to_string()),
                Json::Number("1.5".to_string()),
                Json::String("x".to_string()),
                Json::Null,
                Json::Bool(true),
            ]),
        ),
    ]);
    let _ = &expected;
    for status in [200u16, 202] {
        assert_eq!(client.handle_response(status, text.to_string()), Ok(expected()));
    }
}

#[test]
fn other_statuses_are_api_errors_with_status_and_body() {
    let client = AptosClient::new("http://n").unwrap();
    for status in [0u16, 199, 201, 203, 204, 301, 400, 404, 500, 65535] {
        let body = "{\"message\": \"no such account\"} \n";
        let r = client.handle_response(status, body.to_string());
        assert_eq!(r, Err(ClientError::Api { status, body: body.to_string() }));
        let message = r.unwrap_err().message();
        assert_eq!(message, format!("API error (status {}): {}", status, body));
        assert!(message.contains(&status.to_string()));
        assert!(message.ends_with(body));
    }
}

#[test]
fn invalid_body_is_a_decode_error() {
    let client = AptosClient::new("http://n").unwrap();
    for text in ["", "not json", "{\"a\":", "1 2", "{'a': 1}"] {
        for status in [200u16, 202] {
            let r = client.handle_response(status, text.to_string());
            assert!(matches!(r, Err(ClientError::Decode { .. })));
            let message = r.unwrap_err().message();
            assert!(message.starts_with("failed to parse response JSON: "));
            assert!(message.len() > "failed to parse response JSON: ".len());
        }
    }
}

#[test]
fn decoded_passes_both_outcomes_on() {
    assert_eq!(aptly::client::decoded(Ok(Json::Null)), Ok(Json::Null));
    assert_eq!(
        aptly::client::decoded(Err("bad".to_string())),
        Err(ClientError::Decode { detail: "bad".to_string() })
    );
}

#[test]
fn transport_error_names_method_and_url() {
    let e = ClientError::Transport {
        method: Method::Post,
        url: "http://n/view".to_string(),
        detail: "connection refused".to_string(),
    };
    assert_eq!(e.message(), "request failed: POST http://n/view: connection refused");
}
