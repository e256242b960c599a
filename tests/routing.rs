use babysdcs::json::entry_json;
use babysdcs::partition::owner_for_key;
use babysdcs::remote::Verb;
use babysdcs::router::{forward_response, handle_health, route, Dispatch, Response};
use babysdcs::store::Cache;

const ME: &str = "127.0.0.1:8001";
const OTHER: &str = "127.0.0.1:8002";

fn solo() -> Vec<String> {
    vec![ME.to_string()]
}

/// Two peers, and a key that `OTHER` owns.
fn pair_with_remote_key() -> (Vec<String>, String) {
    let peers = vec![ME.to_string(), OTHER.to_string()];
    let key = (0..100)
        .map(|i| format!("k{}", i))
        .find(|k| owner_for_key(k, &peers) == 1)
        .unwrap();
    (peers, key)
}

fn respond(d: Dispatch) -> Response {
    match d {
        Dispatch::Respond(r) => r,
        Dispatch::Forward(f) => panic!("unexpected forward to {}", f.url),
    }
}

#[test]
fn post_then_get_on_owner() {
    let mut store = Cache::new();
    let peers = solo();
    let posted = respond(route("POST", "/", "{\"a\": 1}", ME, &peers, &mut store));
    assert_eq!(posted.status, 200);
    assert_eq!(posted.body.as_deref(), Some("{\"a\":1}"));
    let read = respond(route("GET", "/a", "", ME, &peers, &mut store));
    assert_eq!(read.status, 200);
    assert_eq!(read.body.as_deref(), Some("{\"a\":1}"));
}

#[test]
fn post_overwrites_and_echoes_structured_value() {
    let mut store = Cache::new();
    let peers = solo();
    respond(route("POST", "/", "{\"a\": 1}", ME, &peers, &mut store));
    let posted = respond(route("POST", "/", "{\"a\": {\"b\": [1, 2]}}", ME, &peers, &mut store));
    assert_eq!(posted.body.as_deref(), Some("{\"a\":{\"b\":[1,2]}}"));
    let read = respond(route("GET", "/a", "", ME, &peers, &mut store));
    assert_eq!(read.body.as_deref(), Some("{\"a\":{\"b\":[1,2]}}"));
}

#[test]
fn post_two_keys_is_bad_request() {
    let mut store = Cache::new();
    let r = respond(route("POST", "/", "{\"a\":1,\"b\":2}", ME, &solo(), &mut store));
    assert_eq!(r.status, 400);
    assert_eq!(r.body, None);
    assert_eq!(store.get("a"), None);
}

#[test]
fn post_malformed_bodies_are_bad_requests() {
    let mut store = Cache::new();
    for body in ["", "not json", "[1,2]", "1", "{}", "{\"a\":"] {
        let r = respond(route("POST", "/", body, ME, &solo(), &mut store));
        assert_eq!(r.status, 400, "body {:?}", body);
        assert_eq!(r.body, None);
    }
}

#[test]
fn get_missing_is_not_found() {
    let mut store = Cache::new();
    let r = respond(route("GET", "/missing", "", ME, &solo(), &mut store));
    assert_eq!(r.status, 404);
    assert_eq!(r.body, None);
}

#[test]
fn delete_twice_counts_one_then_zero() {
    let mut store = Cache::new();
    let peers = solo();
    respond(route("POST", "/", "{\"a\": 1}", ME, &peers, &mut store));
    let first = respond(route("DELETE", "/a", "", ME, &peers, &mut store));
    assert_eq!(first.status, 200);
    assert_eq!(first.body.as_deref(), Some("1"));
    let second = respond(route("DELETE", "/a", "", ME, &peers, &mut store));
    assert_eq!(second.status, 200);
    assert_eq!(second.body.as_deref(), Some("0"));
    let read = respond(route("GET", "/a", "", ME, &peers, &mut store));
    assert_eq!(read.status, 404);
}

#[test]
fn health_is_ok_regardless_of_state() {
    let expected = "{\"status\": \"ok\"}\n";
    let direct = handle_health();
    assert_eq!(direct.status, 200);
    assert_eq!(direct.body.as_deref(), Some(expected));
    let mut store = Cache::new();
    store.set("health".to_string(), "5".to_string());
    let (peers, _) = pair_with_remote_key();
    let r = respond(route("GET", "/health", "", ME, &peers, &mut store));
    assert_eq!(r.status, 200);
    assert_eq!(r.body.as_deref(), Some(expected));
    assert_eq!(store.get("health"), Some("5".to_string()));
}

#[test]
fn unreachable_owner_read_is_not_found_write_is_gateway_error() {
    let (peers, key) = pair_with_remote_key();
    let mut store = Cache::new();

    match route("GET", &format!("/{}", key), "", ME, &peers, &mut store) {
        Dispatch::Forward(f) => {
            assert_eq!(f.verb, Verb::Get);
            assert_eq!(f.url, format!("http://{}/{}", OTHER, key));
            assert_eq!(f.body, "");
        }
        Dispatch::Respond(_) => panic!("the key is remote"),
    }
    let r = forward_response(Verb::Get, None);
    assert_eq!(r.status, 404);
    assert_eq!(r.body, None);

    let body = format!("{{\"{}\": 7}}", key);
    match route("POST", "/", &body, ME, &peers, &mut store) {
        Dispatch::Forward(f) => {
            assert_eq!(f.verb, Verb::Post);
            assert_eq!(f.url, format!("http://{}/", OTHER));
            assert_eq!(f.body, body);
        }
        Dispatch::Respond(_) => panic!("the key is remote"),
    }
    assert_eq!(store.get(&key), None);
    assert_eq!(forward_response(Verb::Post, None).status, 502);

    match route("DELETE", &format!("/{}", key), "", ME, &peers, &mut store) {
        Dispatch::Forward(f) => {
            assert_eq!(f.verb, Verb::Delete);
            assert_eq!(f.url, format!("http://{}/{}", OTHER, key));
        }
        Dispatch::Respond(_) => panic!("the key is remote"),
    }
    let r = forward_response(Verb::Delete, None);
    assert_eq!(r.status, 502);
    assert_eq!(r.body, None);
}

#[test]
fn forwarded_answers_are_mapped_by_verb() {
    let ok = forward_response(Verb::Get, Some((200, "{\"a\":1}".to_string())));
    assert_eq!(ok.status, 200);
    assert_eq!(ok.body.as_deref(), Some("{\"a\":1}"));
    let missing = forward_response(Verb::Get, Some((404, "".to_string())));
    assert_eq!(missing.status, 404);
    assert_eq!(missing.body, None);
    let bad = forward_response(Verb::Get, Some((400, "".to_string())));
    assert_eq!(bad.status, 404);

    let relayed = forward_response(Verb::Post, Some((400, "".to_string())));
    assert_eq!(relayed.status, 400);
    let relayed = forward_response(Verb::Delete, Some((200, "1".to_string())));
    assert_eq!(relayed.status, 200);
    assert_eq!(relayed.body.as_deref(), Some("1"));
}

#[test]
fn empty_key_is_bad_request() {
    let mut store = Cache::new();
    let (peers, _) = pair_with_remote_key();
    for method in ["GET", "DELETE"] {
        for path in ["/", "//", ""] {
            let r = respond(route(method, path, "", ME, &peers, &mut store));
            assert_eq!(r.status, 400, "{} {:?}", method, path);
        }
    }
}

#[test]
fn leading_slashes_are_trimmed() {
    let mut store = Cache::new();
    let peers = solo();
    respond(route("POST", "/", "{\"a\": true}", ME, &peers, &mut store));
    let r = respond(route("GET", "///a", "", ME, &peers, &mut store));
    assert_eq!(r.status, 200);
    assert_eq!(r.body.as_deref(), Some("{\"a\":true}"));
}

#[test]
fn other_methods_and_paths_not_allowed() {
    let mut store = Cache::new();
    let peers = solo();
    for (method, path) in [("PUT", "/a"), ("POST", "/a"), ("PATCH", "/"), ("HEAD", "/health")] {
        let r = respond(route(method, path, "{\"a\":1}", ME, &peers, &mut store));
        assert_eq!(r.status, 405, "{} {}", method, path);
        assert_eq!(r.body, None);
    }
    assert_eq!(store.get("a"), None);
}

#[test]
fn entry_json_quotes_and_escapes_key() {
    assert_eq!(entry_json("a", "1"), "{\"a\":1}");
    assert_eq!(entry_json("q\"k", "null"), "{\"q\\\"k\":null}");
    assert_eq!(entry_json("", "[1]"), "{\"\":[1]}");
}
