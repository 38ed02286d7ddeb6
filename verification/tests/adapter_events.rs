use cockpit_tools::adapter::{
    adapter_endpoint_from_bootstrap, adapter_reply_result, adapter_retry_error, check_adapter_protocol,
    event_request_authorized, host_event_step, should_retry_adapter_call, AdapterBootstrap, AdapterRequestError,
    AdapterResponse, HostEventAction, HostEventInput,
};

fn refused(action: HostEventAction) -> (u16, String) {
    match action {
        HostEventAction::Respond(status, response) => {
            assert!(!response.ok);
            (status, response.error.expect("refusals carry a message"))
        },
        other => panic!("expected a refusal, got {:?}", other),
    }
}

fn headers(pairs: &[(&str, &str)]) -> Vec<(String, String)> {
    pairs.iter().map(|(a, b)| (a.to_string(), b.to_string())).collect()
}

#[test]
fn host_events_are_routed_and_authorized() {
    let wrong_path = host_event_step(
        HostEventInput::Request { is_post: true, url: "/other".to_string(), headers: Vec::new() },
        "tok",
    );
    assert_eq!(refused(wrong_path), (404, "platform adapter event route not found".to_string()));
    let wrong_method = host_event_step(
        HostEventInput::Request { is_post: false, url: "/platform-adapter-events".to_string(), headers: Vec::new() },
        "tok",
    );
    assert_eq!(refused(wrong_method).0, 404);
    let no_token = host_event_step(
        HostEventInput::Request {
            is_post: true,
            url: "/platform-adapter-events".to_string(),
            headers: headers(&[("Authorization", "Bearer other")]),
        },
        "tok",
    );
    assert_eq!(refused(no_token), (401, "platform adapter event token invalid".to_string()));
    let ok = host_event_step(
        HostEventInput::Request {
            is_post: true,
            url: "/platform-adapter-events".to_string(),
            headers: headers(&[("Accept", "x"), ("authorization", "Bearer tok")]),
        },
        "tok",
    );
    assert!(matches!(ok, HostEventAction::ReadBody));
    assert!(event_request_authorized(&headers(&[("AUTHORIZATION", "Bearer t")]), "t"));
    assert!(!event_request_authorized(&headers(&[("Authorization", "bearer t")]), "t"));
}

#[test]
fn host_event_bodies_and_forwarding() {
    assert_eq!(
        refused(host_event_step(HostEventInput::BodyRead(Err("eof".to_string())), "t")),
        (400, "read platform adapter event failed: eof".to_string())
    );
    match host_event_step(HostEventInput::BodyRead(Ok("{}".to_string())), "t") {
        HostEventAction::ParseBody(b) => assert_eq!(b, "{}"),
        other => panic!("unexpected {:?}", other),
    }
    assert_eq!(
        refused(host_event_step(HostEventInput::BodyParsed(Err("bad".to_string())), "t")),
        (400, "parse platform adapter event failed: bad".to_string())
    );
    assert_eq!(
        refused(host_event_step(HostEventInput::BodyParsed(Ok("  ".to_string())), "t")),
        (400, "platform adapter event name is empty".to_string())
    );
    match host_event_step(HostEventInput::BodyParsed(Ok(" zed:changed ".to_string())), "t") {
        HostEventAction::Emit(name) => assert_eq!(name, "zed:changed"),
        other => panic!("unexpected {:?}", other),
    }
    assert_eq!(refused(host_event_step(HostEventInput::AppMissing, "t")), (503, "host app handle not ready".to_string()));
    assert_eq!(
        refused(host_event_step(HostEventInput::Emitted(Err("closed".to_string())), "t")),
        (500, "emit platform adapter event failed: closed".to_string())
    );
    match host_event_step(HostEventInput::Emitted(Ok(())), "t") {
        HostEventAction::Respond(200, response) => {
            assert!(response.ok);
            assert!(response.error.is_none());
        },
        other => panic!("unexpected {:?}", other),
    }
}

fn bootstrap(ok: bool, protocol: &str, host: &str, token: &str) -> AdapterBootstrap {
    AdapterBootstrap { ok, protocol: protocol.to_string(), host: host.to_string(), port: 4567, token: token.to_string() }
}

#[test]
fn adapter_handshakes() {
    assert!(check_adapter_protocol("http-json-v1").is_ok());
    assert_eq!(check_adapter_protocol("grpc").unwrap_err(), "平台 adapter 协议不支持: grpc");
    let endpoint = adapter_endpoint_from_bootstrap(bootstrap(true, "http-json-v1", "127.0.0.1", "secret"), "http-json-v1")
        .unwrap();
    assert_eq!(endpoint.url, "http://127.0.0.1:4567/rpc");
    assert_eq!(endpoint.token, "secret");
    assert_eq!(
        adapter_endpoint_from_bootstrap(bootstrap(false, "http-json-v1", "127.0.0.1", "s"), "http-json-v1").unwrap_err(),
        "平台 adapter 启动握手失败"
    );
    assert_eq!(
        adapter_endpoint_from_bootstrap(bootstrap(true, "v2", "127.0.0.1", "s"), "http-json-v1").unwrap_err(),
        "平台 adapter 启动握手失败"
    );
    assert_eq!(
        adapter_endpoint_from_bootstrap(bootstrap(true, "http-json-v1", "0.0.0.0", "s"), "http-json-v1").unwrap_err(),
        "平台 adapter 启动握手地址或 token 非法"
    );
    assert_eq!(
        adapter_endpoint_from_bootstrap(bootstrap(true, "http-json-v1", "127.0.0.1", "  "), "http-json-v1").unwrap_err(),
        "平台 adapter 启动握手地址或 token 非法"
    );
}

#[test]
fn adapter_replies_and_retries() {
    match adapter_reply_result(false, "502 Bad Gateway", Err("x".to_string())) {
        Err(AdapterRequestError::Protocol(m)) => assert_eq!(m, "平台 adapter 返回 HTTP 502 Bad Gateway"),
        _ => panic!("a failed status is a protocol error"),
    }
    match adapter_reply_result(true, "200 OK", Err("eof".to_string())) {
        Err(AdapterRequestError::Protocol(m)) => assert_eq!(m, "解析平台 adapter 响应失败: eof"),
        _ => panic!("an unreadable reply is a protocol error"),
    }
    let data = adapter_reply_result(true, "200 OK", Ok(AdapterResponse { ok: true, data: None, error_message: None }));
    assert_eq!(data.ok().unwrap(), "null");
    let data = adapter_reply_result(
        true,
        "200 OK",
        Ok(AdapterResponse { ok: true, data: Some("{\"a\":1}".to_string()), error_message: None }),
    );
    assert_eq!(data.ok().unwrap(), "{\"a\":1}");
    match adapter_reply_result(true, "200 OK", Ok(AdapterResponse { ok: false, data: None, error_message: None })) {
        Err(AdapterRequestError::Protocol(m)) => assert_eq!(m, "平台 adapter 调用失败"),
        _ => panic!("a failed call is a protocol error"),
    }
    assert!(should_retry_adapter_call(&AdapterRequestError::Transport("t".to_string())));
    assert!(!should_retry_adapter_call(&AdapterRequestError::Protocol("p".to_string())));
    assert_eq!(
        adapter_retry_error("first", &AdapterRequestError::Transport("second".to_string())),
        "first；重启平台 adapter 后重试仍失败: second"
    );
}
