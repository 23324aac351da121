use dsh_pet::json::JsonValue;
use dsh_pet::rpc::{
    check_reply, read_reply, reply_is_ok, dsh_url, http_status_error, next_rpc_id, normalize_url, rpc_url, set_dsh_url,
    DshUrlCache, RequestIds, RpcReply, DEFAULT_DSH_URL,
};

#[test]
fn set_dsh_url_normalizes() {
    let mut c = DshUrlCache::new();
    set_dsh_url(&mut c, " http://127.0.0.1:4000// ".to_string());
    assert_eq!(c.discovered.as_deref(), Some("http://127.0.0.1:4000"));
}

#[test]
fn dsh_url_prefers_discovered_then_env_then_default() {
    let mut c = DshUrlCache::new();
    assert_eq!(dsh_url(&c, None), DEFAULT_DSH_URL);
    assert_eq!(dsh_url(&c, Some(" http://e:1/ ".to_string())), "http://e:1");
    assert_eq!(dsh_url(&c, Some("  ".to_string())), DEFAULT_DSH_URL);
    set_dsh_url(&mut c, "http://d:2".to_string());
    assert_eq!(dsh_url(&c, Some("http://e:1".to_string())), "http://d:2");
    c.discovered = Some(String::new());
    assert_eq!(dsh_url(&c, None), DEFAULT_DSH_URL);
}

#[test]
fn urls_and_ids() {
    assert_eq!(rpc_url("http://h", "session.list"), "http://h/api/session.list");
    assert_eq!(normalize_url("\thttp://x/\n"), "http://x");
    let mut ids = RequestIds::new();
    assert_eq!(next_rpc_id(&mut ids, 12), "pet-12-0");
    assert_eq!(next_rpc_id(&mut ids, 12), "pet-12-1");
    ids.seq = u64::MAX;
    assert_eq!(next_rpc_id(&mut ids, 0), "pet-0-ffffffffffffffff");
    assert_eq!(ids.seq, 0);
}

#[test]
fn replies_are_judged() {
    assert!(check_reply(&RpcReply { ok: Some(true), error_message: None }).is_ok());
    assert_eq!(
        check_reply(&RpcReply { ok: Some(false), error_message: Some("nope".to_string()) }),
        Err("nope".to_string())
    );
    assert_eq!(check_reply(&RpcReply { ok: None, error_message: None }), Err("rpc error".to_string()));
    assert_eq!(http_status_error("404 Not Found"), "HTTP 404 Not Found");
}

#[test]
fn ids_in_one_millisecond_do_not_repeat() {
    let mut ids = RequestIds::new();
    let mut seen = std::collections::HashSet::new();
    for _ in 0..300 {
        assert!(seen.insert(next_rpc_id(&mut ids, 1_700_000_000_000)));
    }
}

#[test]
fn replies_are_read_from_json() {
    let v = read_reply(br#"{"result":{"ok":true,"value":{"items":[]}}}"#).unwrap();
    assert!(matches!(v, JsonValue::Object(m) if m.len() == 1 && m[0].0 == "items"));
    assert!(matches!(read_reply(br#"{"result":{"ok":true}}"#), Ok(JsonValue::Null)));
    assert!(matches!(read_reply(br#"{"result":{"ok":false,"error":{"message":"boom"}}}"#), Err(e) if e == "boom"));
    assert!(matches!(read_reply(b"{}"), Err(e) if e == "rpc error"));
    assert!(matches!(read_reply(b"<html>"), Err(e) if e == "invalid JSON: error decoding response body"));
    assert!(reply_is_ok(br#"{"result":{"ok":true}}"#));
    assert!(!reply_is_ok(br#"{"result":{"ok":"yes"}}"#));
    assert!(!reply_is_ok(b"nope"));
    assert!(matches!(read_reply(br#"{"result":{"ok":false}}"#), Err(e) if e == "rpc error"));
    assert!(matches!(read_reply(b"\xff"), Err(e) if e == "invalid JSON: error decoding response body"));
}
