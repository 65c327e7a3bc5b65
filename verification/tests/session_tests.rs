use server_session::blob::decode_state;
use server_session::kvmap::StrMap;
use server_session::blob::encode_state;
use server_session::server_session::on_request;
use server_session::server_session::on_response;
use server_session::server_session::ServerSession;
use server_session::server_session_inner::CookieSessionError;
use server_session::server_session_inner::SameSitePolicy;
use server_session::server_session_state::ServerSessionState;
use server_session::server_session_state::State;
use server_session::session::Session;
use server_session::session::SessionStatus;

const KEY: [u8; 64] = [7u8; 64];
const NOW: u64 = 1_600_000_000_000;

fn cookie_value(header: &str) -> String {
    let first = header.split(';').next().unwrap();
    let eq = first.find('=').unwrap();
    first[eq + 1..].to_string()
}

#[test]
fn new_client_gets_exactly_one_cookie() {
    let cfg = ServerSession::signed(&KEY);
    let mut store = ServerSessionState::new();
    let (is_new, id, mut session) = on_request(cfg.codec(), &store, None, NOW);
    assert!(is_new);
    assert_eq!(id.len(), 32);
    session.set("counter", "1".to_string());
    let headers = on_response(cfg.codec(), &mut store, &mut session, is_new, &id, NOW).unwrap();
    assert_eq!(headers.len(), 1);
    assert!(headers[0].starts_with("actix-session="));
    let st = store.get_state(&id).expect("store gained the entry");
    assert_eq!(st.timeout(), 1_800_000);
}

#[test]
fn cookie_value_is_sealed_not_plain() {
    let cfg = ServerSession::signed(&KEY);
    let mut store = ServerSessionState::new();
    let (is_new, id, mut session) = on_request(cfg.codec(), &store, None, NOW);
    let headers = on_response(cfg.codec(), &mut store, &mut session, is_new, &id, NOW).unwrap();
    let sealed = cookie_value(&headers[0]);
    assert_ne!(sealed, id);
    assert!(sealed.len() > id.len());
}

#[test]
fn round_trip_counter_over_three_requests() {
    let cfg = ServerSession::signed(&KEY);
    let mut store = ServerSessionState::new();

    let (new_a, id_a, mut s_a) = on_request(cfg.codec(), &store, None, NOW);
    s_a.set("counter", "1".to_string());
    let headers = on_response(cfg.codec(), &mut store, &mut s_a, new_a, &id_a, NOW).unwrap();
    let cookie = cookie_value(&headers[0]);

    let (new_b, id_b, mut s_b) = on_request(cfg.codec(), &store, Some(&cookie), NOW + 1000);
    assert!(!new_b);
    assert_eq!(id_b, id_a);
    assert_eq!(s_b.get("counter").unwrap(), "1");
    s_b.set("counter", "2".to_string());
    on_response(cfg.codec(), &mut store, &mut s_b, new_b, &id_b, NOW + 1000).unwrap();

    let (new_c, _id_c, s_c) = on_request(cfg.codec(), &store, Some(&cookie), NOW + 2000);
    assert!(!new_c);
    assert_eq!(s_c.get("counter").unwrap(), "2");
}

#[test]
fn private_mode_round_trip() {
    let cfg = ServerSession::private(&KEY);
    let mut store = ServerSessionState::new();
    let (new_a, id_a, mut s_a) = on_request(cfg.codec(), &store, None, NOW);
    s_a.set("who", "ada".to_string());
    let headers = on_response(cfg.codec(), &mut store, &mut s_a, new_a, &id_a, NOW).unwrap();
    let cookie = cookie_value(&headers[0]);
    assert_ne!(cookie, id_a);

    let (new_b, id_b, s_b) = on_request(cfg.codec(), &store, Some(&cookie), NOW + 5);
    assert!(!new_b);
    assert_eq!(id_b, id_a);
    assert_eq!(s_b.get("who").unwrap(), "ada");
}

#[test]
fn tampered_signed_cookie_is_sessionless() {
    let cfg = ServerSession::signed(&KEY);
    let mut store = ServerSessionState::new();
    let (new_a, id_a, mut s_a) = on_request(cfg.codec(), &store, None, NOW);
    s_a.set("k", "v".to_string());
    let headers = on_response(cfg.codec(), &mut store, &mut s_a, new_a, &id_a, NOW).unwrap();
    let cookie = cookie_value(&headers[0]);

    let mut bytes = cookie.into_bytes();
    bytes[0] = if bytes[0] == b'A' { b'B' } else { b'A' };
    let forged = String::from_utf8(bytes).unwrap();
    let (is_new, id, _) = on_request(cfg.codec(), &store, Some(&forged), NOW + 1);
    assert!(is_new);
    assert_ne!(id, id_a);
}

#[test]
fn tampered_private_cookie_is_sessionless() {
    let cfg = ServerSession::private(&KEY);
    let mut store = ServerSessionState::new();
    let (new_a, id_a, mut s_a) = on_request(cfg.codec(), &store, None, NOW);
    s_a.set("k", "v".to_string());
    let headers = on_response(cfg.codec(), &mut store, &mut s_a, new_a, &id_a, NOW).unwrap();
    let cookie = cookie_value(&headers[0]);

    let mut bytes = cookie.into_bytes();
    let mid = bytes.len() / 2;
    bytes[mid] = if bytes[mid] == b'A' { b'B' } else { b'A' };
    let forged = String::from_utf8(bytes).unwrap();
    let (is_new, _, _) = on_request(cfg.codec(), &store, Some(&forged), NOW + 1);
    assert!(is_new);
}

#[test]
fn garbage_cookie_is_sessionless() {
    let cfg = ServerSession::signed(&KEY);
    let store = ServerSessionState::new();
    let junk = "not a sealed value at all".to_string();
    let (is_new, id, _) = on_request(cfg.codec(), &store, Some(&junk), NOW);
    assert!(is_new);
    assert_eq!(id.len(), 32);
}

#[test]
fn purge_is_absorbing_and_deletes() {
    let cfg = ServerSession::signed(&KEY);
    let mut store = ServerSessionState::new();
    let (new_a, id_a, mut s_a) = on_request(cfg.codec(), &store, None, NOW);
    s_a.set("k", "v".to_string());
    let headers = on_response(cfg.codec(), &mut store, &mut s_a, new_a, &id_a, NOW).unwrap();
    let cookie = cookie_value(&headers[0]);

    let (new_b, id_b, mut s_b) = on_request(cfg.codec(), &store, Some(&cookie), NOW + 1);
    s_b.purge();
    s_b.set("k", "again".to_string());
    assert!(s_b.get("k").is_none());
    s_b.update_timeout(5);
    s_b.renew();
    let headers = on_response(cfg.codec(), &mut store, &mut s_b, new_b, &id_b, NOW + 1).unwrap();
    assert_eq!(headers.len(), 1);
    let deletion = &headers[0];
    assert!(deletion.contains("Max-Age=0"));
    assert!(deletion.contains("Expires=Thu, 01 Jan 1970 00:00:00 GMT"));
    assert!(store.get_state(&id_b).is_none());
}

#[test]
fn purged_status_is_reported() {
    let mut s = Session::new(10_000, NOW);
    s.purge();
    s.renew();
    s.clear();
    let (status, state) = s.get_changes();
    assert_eq!(status, SessionStatus::Purged);
    assert!(state.get("anything").is_none());
}

#[test]
fn session_status_transitions() {
    let mut s = Session::new(10_000, NOW);
    assert_eq!(s.get_changes().0, SessionStatus::Unchanged);
    let mut s = Session::new(10_000, NOW);
    s.set("a", "1".to_string());
    assert_eq!(s.get_changes().0, SessionStatus::Changed);
    let mut s = Session::new(10_000, NOW);
    s.renew();
    assert_eq!(s.get_changes().0, SessionStatus::Renewed);
    let mut s = Session::new(10_000, NOW);
    s.remove("a");
    assert_eq!(s.get_changes().0, SessionStatus::Changed);
}

#[test]
fn session_mutators_work() {
    let mut s = Session::new(10_000, NOW);
    s.set("a", "1".to_string());
    s.set("b", "2".to_string());
    assert_eq!(s.get("a").unwrap(), "1");
    s.set("a", "3".to_string());
    assert_eq!(s.get("a").unwrap(), "3");
    s.remove("a");
    assert!(s.get("a").is_none());
    assert_eq!(s.get("b").unwrap(), "2");
    s.clear();
    assert!(s.get("b").is_none());
}

#[test]
fn update_timeout_in_minutes() {
    let mut s = Session::new(10_000, NOW);
    s.update_timeout(5);
    let (_, state) = s.get_changes();
    assert_eq!(state.timeout(), 300_000);
}

#[test]
fn expiry_is_strictly_after_timeout() {
    let st = State::new(1000, NOW);
    assert!(!st.is_expired(NOW));
    assert!(!st.is_expired(NOW + 1000));
    assert!(st.is_expired(NOW + 1001));
}

#[test]
fn reaper_sweep_drops_only_expired() {
    let mut store = ServerSessionState::new();
    let fresh = State::new(10_000, NOW);
    let stale = State::new(1_000, NOW - 5_000);
    store.set_state("LIVEID", &fresh);
    store.set_state("OLDID", &stale);
    store.sweep(NOW);
    assert!(store.get_state("LIVEID").is_some());
    assert!(store.get_state("OLDID").is_none());
}

#[test]
fn expired_session_is_treated_as_new() {
    let cfg = ServerSession::signed(&KEY).set_timeout(1);
    let mut store = ServerSessionState::new();
    store.set_timeout(cfg.timeout_minutes().unwrap());
    let (new_a, id_a, mut s_a) = on_request(cfg.codec(), &store, None, NOW);
    s_a.set("k", "v".to_string());
    let headers = on_response(cfg.codec(), &mut store, &mut s_a, new_a, &id_a, NOW).unwrap();
    let cookie = cookie_value(&headers[0]);

    // one minute of inactivity plus a millisecond: the reaper removes it
    store.sweep(NOW + 60_001);
    assert!(store.get_state(&id_a).is_none());
    let (is_new, id, _) = on_request(cfg.codec(), &store, Some(&cookie), NOW + 60_001);
    assert!(is_new);
    assert_ne!(id, id_a);
}

#[test]
fn sliding_expiration_refreshes_last_use() {
    let mut store = ServerSessionState::new();
    store.set_timeout(1);
    let cfg = ServerSession::signed(&KEY);
    let (new_a, id_a, mut s_a) = on_request(cfg.codec(), &store, None, NOW);
    let headers = on_response(cfg.codec(), &mut store, &mut s_a, new_a, &id_a, NOW).unwrap();
    let cookie = cookie_value(&headers[0]);

    // an untouched request 50 seconds in refreshes the entry
    let (new_b, id_b, mut s_b) = on_request(cfg.codec(), &store, Some(&cookie), NOW + 50_000);
    assert!(!new_b);
    on_response(cfg.codec(), &mut store, &mut s_b, new_b, &id_b, NOW + 50_000).unwrap();

    // 70 seconds after the first request, but only 20 after the second
    store.sweep(NOW + 70_000);
    assert!(store.get_state(&id_a).is_some());
}

#[test]
fn oversize_cookie_value_overflows() {
    let cfg = ServerSession::signed(&KEY);
    let big = "x".repeat(4065);
    let r = cfg.codec().build_set_cookie(&big, None);
    assert!(matches!(r, Err(CookieSessionError::Overflow)));
    let ok = cfg.codec().build_set_cookie("small", None);
    assert!(ok.is_ok());
}

#[test]
fn overflow_message_text() {
    let e = CookieSessionError::Overflow;
    assert_eq!(e.message(), "the encoded cookie value exceeds 4064 bytes");
    let e = CookieSessionError::Serialize("bad value".to_string());
    assert_eq!(e.message(), "bad value");
}

#[test]
fn cookie_attributes_are_rendered() {
    let key = [9u8; 32];
    let cfg = ServerSession::signed(&key)
        .name("sid")
        .path("/app")
        .domain("example.com")
        .secure(true)
        .http_only(true)
        .same_site(SameSitePolicy::Lax)
        .max_age(77)
        .expires_in(3600);
    let mut store = ServerSessionState::new();
    let (is_new, id, mut session) = on_request(cfg.codec(), &store, None, NOW);
    let headers = on_response(cfg.codec(), &mut store, &mut session, is_new, &id, NOW).unwrap();
    let h = &headers[0];
    assert!(h.starts_with("sid="));
    assert!(h.contains("; Path=/app"));
    assert!(h.contains("; Domain=example.com"));
    assert!(h.contains("; Secure"));
    assert!(h.contains("; HttpOnly"));
    assert!(h.contains("; SameSite=Lax"));
    assert!(h.contains("; Max-Age=77"));
    // RFC 2822 rendering of a moment in September 2020
    assert!(h.contains("; Expires="));
    assert!(h.contains("2020"));
}

#[test]
fn renamed_cookie_round_trips() {
    let cfg = ServerSession::private(&KEY).name("sid");
    let mut store = ServerSessionState::new();
    let (new_a, id_a, mut s_a) = on_request(cfg.codec(), &store, None, NOW);
    let headers = on_response(cfg.codec(), &mut store, &mut s_a, new_a, &id_a, NOW).unwrap();
    assert!(headers[0].starts_with("sid="));
    let cookie = cookie_value(&headers[0]);
    let (new_b, id_b, _) = on_request(cfg.codec(), &store, Some(&cookie), NOW + 1);
    assert!(!new_b);
    assert_eq!(id_b, id_a);
}

#[test]
fn generated_ids_are_well_formed_and_vary() {
    let cfg = ServerSession::signed(&KEY);
    let a = cfg.codec().generate_id();
    let b = cfg.codec().generate_id();
    assert_eq!(a.len(), 32);
    assert!(a.chars().all(|c| c.is_ascii_uppercase() || c.is_ascii_digit()));
    assert_ne!(a, b);
}

#[test]
fn state_blob_round_trips() {
    let mut st = State::new(5000, NOW);
    st.set("alpha", "1".to_string());
    st.set("beta", "two".to_string());
    let blob = encode_state(&st);
    let back = decode_state(&blob).expect("its own encoding decodes");
    assert_eq!(back.timeout(), 5000);
    assert_eq!(back.get("alpha").unwrap(), "1");
    assert_eq!(back.get("beta").unwrap(), "two");
    assert!(back.get("gamma").is_none());
}

#[test]
fn corrupt_blob_is_rejected() {
    assert!(decode_state("").is_none());
    assert!(decode_state("short").is_none());
    assert!(decode_state(&"z".repeat(80)).is_none());
    let mut st = State::new(5000, NOW);
    st.set("k", "v".to_string());
    let mut blob = encode_state(&st);
    blob.pop();
    assert!(decode_state(&blob).is_none());
}

#[test]
fn store_start_is_idempotent() {
    let mut store = ServerSessionState::new();
    assert!(store.start());
    assert!(!store.start());
    assert!(!store.start());
}

#[test]
fn remove_state_tolerates_absence() {
    let mut store = ServerSessionState::new();
    store.remove_state("NOSUCHID");
    let st = State::new(1000, NOW);
    store.set_state("SOMEID", &st);
    store.remove_state("SOMEID");
    assert!(store.get_state("SOMEID").is_none());
}

#[test]
fn state_extend_overwrites_equal_keys() {
    let mut a = State::new(1000, NOW);
    a.set("x", "old".to_string());
    a.set("y", "kept".to_string());
    let mut b = State::new(2000, NOW);
    b.set("x", "new".to_string());
    a.extend(b);
    assert_eq!(a.get("x").unwrap(), "new");
    assert_eq!(a.get("y").unwrap(), "kept");
    assert_eq!(a.timeout(), 1000);
}

#[test]
fn set_session_takes_timeout_and_values() {
    let mut loaded = State::new(42_000, NOW);
    loaded.set("k", "v".to_string());
    let mut s = Session::new(10_000, NOW);
    s.set_session(loaded);
    assert_eq!(s.get("k").unwrap(), "v");
    let (status, state) = s.get_changes();
    assert_eq!(status, SessionStatus::Unchanged);
    assert_eq!(state.timeout(), 42_000);
}

#[test]
fn lazy_mode_suppresses_empty_cookie() {
    let cfg = ServerSession::signed(&KEY).lazy(true);
    let r = cfg.codec().set_cookie("", NOW).unwrap();
    assert!(r.is_none());
    let r = cfg.codec().set_cookie("SOMETHING", NOW).unwrap();
    assert!(r.is_some());
}

#[test]
fn purged_new_client_gets_cookie_then_deletion() {
    let cfg = ServerSession::signed(&KEY);
    let mut store = ServerSessionState::new();
    let (is_new, id, mut session) = on_request(cfg.codec(), &store, None, NOW);
    session.set("k", "v".to_string());
    session.purge();
    let headers = on_response(cfg.codec(), &mut store, &mut session, is_new, &id, NOW).unwrap();
    assert_eq!(headers.len(), 2);
    assert!(headers[0].starts_with("actix-session="));
    assert!(headers[1].contains("Max-Age=0"));
    assert!(store.get_state(&id).is_none());
}

#[test]
fn renewed_session_is_persisted() {
    let cfg = ServerSession::signed(&KEY);
    let mut store = ServerSessionState::new();
    let (new_a, id_a, mut s_a) = on_request(cfg.codec(), &store, None, NOW);
    s_a.set("k", "v".to_string());
    let headers = on_response(cfg.codec(), &mut store, &mut s_a, new_a, &id_a, NOW).unwrap();
    let cookie = cookie_value(&headers[0]);

    let (new_b, id_b, mut s_b) = on_request(cfg.codec(), &store, Some(&cookie), NOW + 1);
    s_b.renew();
    assert_eq!(s_b.get("k").unwrap(), "v");
    on_response(cfg.codec(), &mut store, &mut s_b, new_b, &id_b, NOW + 1).unwrap();
    assert!(store.get_state(&id_b).is_some());
}

#[test]
fn update_last_use_time_postpones_expiry() {
    let mut st = State::new(1000, NOW);
    assert!(st.is_expired(NOW + 2000));
    st.update_last_use_time(NOW + 2000);
    assert!(!st.is_expired(NOW + 2000));
    assert_eq!(st.timeout(), 1000);
}

#[test]
fn str_map_basics() {
    let mut m = StrMap::new();
    assert!(!m.contains_key("a"));
    m.insert("a".to_string(), "1".to_string());
    m.insert("b".to_string(), "2".to_string());
    m.insert("a".to_string(), "3".to_string());
    assert_eq!(m.get("a").unwrap(), "3");
    assert_eq!(m.get("b").unwrap(), "2");
    assert_eq!(m.num_pairs(), 2);
    m.remove("a");
    assert!(m.get("a").is_none());
    m.clear();
    assert!(m.get("b").is_none());
}

#[test]
fn expires_beyond_date_range_is_omitted() {
    let key = [9u8; 32];
    let cfg = ServerSession::signed(&key).expires_in(300_000_000_000);
    let mut store = ServerSessionState::new();
    let (is_new, id, mut session) = on_request(cfg.codec(), &store, None, NOW);
    let headers = on_response(cfg.codec(), &mut store, &mut session, is_new, &id, NOW).unwrap();
    assert!(!headers[0].contains("; Expires="));
    assert!(headers[0].starts_with("actix-session="));
}
