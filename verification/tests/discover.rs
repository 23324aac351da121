use dsh_pet::discover::{
    env_candidate, next_discover_id, parse_listening_ports, port_url, probe_accepts, DEFAULT_CANDIDATE,
};
use dsh_pet::rpc::RequestIds;

#[test]
fn parses_netstat_listening_ports() {
    let out = "\r\nActive Connections\r\n\r\n  Proto  Local Address          Foreign Address        State           PID\r\n  TCP    127.0.0.1:59040        0.0.0.0:0              LISTENING       19592\r\n  TCP    0.0.0.0:135            0.0.0.0:0              LISTENING       1200\r\n  tcp    127.0.0.1:3080         0.0.0.0:0              listening       42\r\n  TCP    127.0.0.1:59040        0.0.0.0:0              LISTENING       19592\r\n  TCP    127.0.0.1:5000         127.0.0.1:6000         ESTABLISHED     1\r\n  UDP    127.0.0.1:7000         *:*                                    5\r\n  TCP    127.0.0.1:0            0.0.0.0:0              LISTENING       9\r\n  TCP    127.0.0.1:+81          0.0.0.0:0              LISTENING       9\r\n  TCP    127.0.0.1:70000        0.0.0.0:0              LISTENING       9\r\n";
    assert_eq!(parse_listening_ports(out), vec![81, 3080, 59040]);
}

#[test]
fn parses_nothing_from_empty_output() {
    assert!(parse_listening_ports("").is_empty());
    assert!(parse_listening_ports("TCP 127.0.0.1:80").is_empty());
}

#[test]
fn env_candidate_is_normalized() {
    assert_eq!(env_candidate(Some("  http://h:1/// ".to_string())).as_deref(), Some("http://h:1"));
    assert_eq!(env_candidate(Some(" / ".to_string())), None);
    assert_eq!(env_candidate(None), None);
}

#[test]
fn candidate_urls() {
    assert_eq!(port_url(59040), "http://127.0.0.1:59040");
    assert_eq!(DEFAULT_CANDIDATE, "http://127.0.0.1:3080");
}

#[test]
fn probe_needs_success_and_ok() {
    assert!(probe_accepts(true, Some(true)));
    assert!(!probe_accepts(true, Some(false)));
    assert!(!probe_accepts(true, None));
    assert!(!probe_accepts(false, Some(true)));
}

#[test]
fn discover_ids_count_in_hex() {
    let mut ids = RequestIds::new();
    ids.seq = 254;
    assert_eq!(next_discover_id(&mut ids, 1700000000000), "discover-1700000000000-fe");
    assert_eq!(next_discover_id(&mut ids, 5), "discover-5-ff");
    assert_eq!(ids.seq, 256);
}
