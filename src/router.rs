//! Per-request routing. Each request is parsed, its key is placed on its
//! owner, and it is either answered from the local store or turned into a
//! call to forward to the owning peer; the answer of a forwarded call is
//! then mapped to the response, by the policy of its verb.
use vstd::prelude::*;
use vstd::string::*;

use crate::json::{entry_body, entry_json, json_object_members, members_view, parse_object};
use crate::partition::{owner_for_key, owner_of};
use crate::remote::{next_step, AttemptView, RetryPolicy, StepView, Verb};
use crate::store::Cache;

verus! {

/// An HTTP response: a status and, for JSON answers, a body (sent with the
/// `application/json; charset=utf-8` content type). No body means empty.
pub struct Response {
    pub status: u16,
    pub body: Option<String>,
}

/// A response, with its body as characters.
pub ghost struct ResponseView {
    pub status: u16,
    pub body: Option<Seq<char>>,
}

impl View for Response {
    type V = ResponseView;

    open spec fn view(&self) -> ResponseView {
        ResponseView {
            status: self.status,
            body: match self.body {
                Some(b) => Some(b@),
                None => None,
            },
        }
    }
}

/// A call to make on the owning peer.
pub struct Forward {
    pub verb: Verb,
    pub url: String,
    pub body: String,
}

/// What the node does with a request.
pub enum Dispatch {
    /// Answer it directly.
    Respond(Response),
    /// Forward it to the owning peer.
    Forward(Forward),
}

/// A dispatch decision, with its texts as characters.
pub ghost enum DispatchView {
    Respond(ResponseView),
    Forward { verb: Verb, url: Seq<char>, body: Seq<char> },
}

impl View for Dispatch {
    type V = DispatchView;

    open spec fn view(&self) -> DispatchView {
        match self {
            Dispatch::Respond(r) => DispatchView::Respond(r@),
            Dispatch::Forward(f) => DispatchView::Forward { verb: f.verb, url: f.url@, body: f.body@ },
        }
    }
}

/// The peer addresses as character sequences.
pub open spec fn addrs(peers: Seq<String>) -> Seq<Seq<char>> {
    peers.map_values(|p: String| p@)
}

/// The address of the peer that owns `key`.
pub open spec fn owner_addr(key: Seq<char>, peers: Seq<Seq<char>>) -> Seq<char> {
    peers[owner_of(key, peers.len()) as int]
}

/// The URL of `path` (without its leading slash) on the peer at `addr`.
pub open spec fn peer_url(addr: Seq<char>, path: Seq<char>) -> Seq<char> {
    "http://"@ + addr + "/"@ + path
}

/// A response with `status` and an empty body.
pub open spec fn empty_response(status: u16) -> ResponseView {
    ResponseView { status, body: None }
}

/// A response with `status` and the JSON `body`.
pub open spec fn json_response(status: u16, body: Seq<char>) -> ResponseView {
    ResponseView { status, body: Some(body) }
}

/// The body of the liveness answer.
pub open spec fn health_body() -> Seq<char> {
    "{\"status\": \"ok\"}\n"@
}

/// `POST /`: the response, and the store afterwards.
pub open spec fn post_result(
    body: Seq<char>,
    me: Seq<char>,
    peers: Seq<Seq<char>>,
    store: Map<Seq<char>, Seq<char>>,
) -> (DispatchView, Map<Seq<char>, Seq<char>>) {
    match json_object_members(body) {
        Some(members) if members.len() == 1 => {
            let key = members[0].0;
            let value = members[0].1;
            let owner = owner_addr(key, peers);
            if owner == me {
                (DispatchView::Respond(json_response(200, entry_body(key, value))), store.insert(key, value))
            } else {
                (
                    DispatchView::Forward { verb: Verb::Post, url: peer_url(owner, Seq::empty()), body },
                    store,
                )
            }
        },
        _ => (DispatchView::Respond(empty_response(400)), store),
    }
}

/// `GET /{key}`: the response (the store is left as it is).
pub open spec fn get_result(
    key: Seq<char>,
    me: Seq<char>,
    peers: Seq<Seq<char>>,
    store: Map<Seq<char>, Seq<char>>,
) -> DispatchView {
    if key.len() == 0 {
        DispatchView::Respond(empty_response(400))
    } else if owner_addr(key, peers) == me {
        if store.contains_key(key) {
            DispatchView::Respond(json_response(200, entry_body(key, store[key])))
        } else {
            DispatchView::Respond(empty_response(404))
        }
    } else {
        DispatchView::Forward {
            verb: Verb::Get,
            url: peer_url(owner_addr(key, peers), key),
            body: Seq::empty(),
        }
    }
}

/// `DELETE /{key}`: the response, and the store afterwards.
pub open spec fn delete_result(
    key: Seq<char>,
    me: Seq<char>,
    peers: Seq<Seq<char>>,
    store: Map<Seq<char>, Seq<char>>,
) -> (DispatchView, Map<Seq<char>, Seq<char>>) {
    if key.len() == 0 {
        (DispatchView::Respond(empty_response(400)), store)
    } else if owner_addr(key, peers) == me {
        let count = if store.contains_key(key) { "1"@ } else { "0"@ };
        (DispatchView::Respond(json_response(200, count)), store.remove(key))
    } else {
        (
            DispatchView::Forward {
                verb: Verb::Delete,
                url: peer_url(owner_addr(key, peers), key),
                body: Seq::empty(),
            },
            store,
        )
    }
}

/// `path` without its leading slashes.
pub open spec fn trim_slashes(path: Seq<char>) -> Seq<char>
    decreases path.len(),
{
    if path.len() > 0 && path[0] == '/' {
        trim_slashes(path.drop_first())
    } else {
        path
    }
}

/// Any request: the response, and the store afterwards.
pub open spec fn route_result(
    method: Seq<char>,
    path: Seq<char>,
    body: Seq<char>,
    me: Seq<char>,
    peers: Seq<Seq<char>>,
    store: Map<Seq<char>, Seq<char>>,
) -> (DispatchView, Map<Seq<char>, Seq<char>>) {
    if method == "POST"@ && path == "/"@ {
        post_result(body, me, peers, store)
    } else if method == "GET"@ && path == "/health"@ {
        (DispatchView::Respond(json_response(200, health_body())), store)
    } else if method == "GET"@ {
        (get_result(trim_slashes(path), me, peers, store), store)
    } else if method == "DELETE"@ {
        delete_result(trim_slashes(path), me, peers, store)
    } else {
        (DispatchView::Respond(empty_response(405)), store)
    }
}

/// The response to the original request once a forwarded call has ended:
/// `Some` with the owner's definitive status and body, `None` when the
/// attempts ran out. A read shows only a 200 answer and turns everything
/// else into "not found"; a write or delete relays the owner's answer and
/// reports running out as a gateway error.
pub open spec fn forward_result(verb: Verb, outcome: Option<(u16, Seq<char>)>) -> ResponseView {
    match verb {
        Verb::Get => match outcome {
            Some((200, body)) => json_response(200, body),
            _ => empty_response(404),
        },
        _ => match outcome {
            Some((status, body)) => json_response(status, body),
            None => empty_response(502),
        },
    }
}

/// A response with an empty body.
fn empty(status: u16) -> (r: Response)
    ensures
        r@ == empty_response(status),
{
    Response { status, body: None }
}

/// `http://{addr}/{path}`.
fn url_on(addr: &String, path: &str) -> (r: String)
    ensures
        r@ == peer_url(addr@, path@),
{
    let mut url = String::from_str("http://");
    url.append(addr.as_str());
    url.append("/");
    url.append(path);
    url
}

/// Whether the owner of `key` is this node, and the owner's address.
fn owner_is_me<'a>(key: &str, self_addr: &str, peers: &'a [String]) -> (r: (bool, &'a String))
    requires
        peers@.len() > 0,
    ensures
        r.1@ == owner_addr(key@, addrs(peers@)),
        r.0 == (owner_addr(key@, addrs(peers@)) == self_addr@),
{
    let idx = owner_for_key(key, peers);
    let owner = &peers[idx];
    let me = String::from_str(self_addr);
    (*owner == me, owner)
}

/// Answers `POST /` with a body that must be a JSON object of one member.
pub fn handle_post(body: &str, self_addr: &str, peers: &[String], store: &mut Cache) -> (r:
    Dispatch)
    requires
        peers@.len() > 0,
        old(store).wf(),
    ensures
        final(store).wf(),
        (r@, final(store)@) == post_result(body@, self_addr@, addrs(peers@), old(store)@),
{
    let members = match parse_object(body) {
        Some(m) => m,
        None => {
            return Dispatch::Respond(empty(400));
        },
    };
    if members.len() != 1 {
        assert(members_view(members@).len() == members@.len());
        return Dispatch::Respond(empty(400));
    }
    assert(members_view(members@)[0] == (members@[0].0@, members@[0].1@));
    let key = &members[0].0;
    let value = &members[0].1;
    let (mine, owner) = owner_is_me(key.as_str(), self_addr, peers);
    if mine {
        let answer = entry_json(key.as_str(), value.as_str());
        store.set(key.clone(), value.clone());
        Dispatch::Respond(Response { status: 200, body: Some(answer) })
    } else {
        let url = url_on(owner, "");
        proof {
            reveal_strlit("");
            assert(""@ =~= Seq::<char>::empty());
        }
        Dispatch::Forward(Forward { verb: Verb::Post, url, body: String::from_str(body) })
    }
}

/// Answers `GET /{key}`.
pub fn handle_get(key: &str, self_addr: &str, peers: &[String], store: &Cache) -> (r: Dispatch)
    requires
        peers@.len() > 0,
        store.wf(),
    ensures
        r@ == get_result(key@, self_addr@, addrs(peers@), store@),
{
    if key.is_empty() {
        return Dispatch::Respond(empty(400));
    }
    let (mine, owner) = owner_is_me(key, self_addr, peers);
    if mine {
        match store.get(key) {
            Some(value) => Dispatch::Respond(
                Response { status: 200, body: Some(entry_json(key, value.as_str())) },
            ),
            None => Dispatch::Respond(empty(404)),
        }
    } else {
        Dispatch::Forward(Forward { verb: Verb::Get, url: url_on(owner, key), body: String::new() })
    }
}

/// Answers `DELETE /{key}`.
pub fn handle_delete(key: &str, self_addr: &str, peers: &[String], store: &mut Cache) -> (r:
    Dispatch)
    requires
        peers@.len() > 0,
        old(store).wf(),
    ensures
        final(store).wf(),
        (r@, final(store)@) == delete_result(key@, self_addr@, addrs(peers@), old(store)@),
{
    if key.is_empty() {
        return Dispatch::Respond(empty(400));
    }
    let (mine, owner) = owner_is_me(key, self_addr, peers);
    if mine {
        let removed = store.delete(key);
        let count = if removed == 1 {
            String::from_str("1")
        } else {
            String::from_str("0")
        };
        Dispatch::Respond(Response { status: 200, body: Some(count) })
    } else {
        Dispatch::Forward(
            Forward { verb: Verb::Delete, url: url_on(owner, key), body: String::new() },
        )
    }
}

/// Answers `GET /health`: the node is up, whatever its store or its peers.
pub fn handle_health() -> (r: Response)
    ensures
        r@ == json_response(200, health_body()),
{
    Response { status: 200, body: Some(String::from_str("{\"status\": \"ok\"}\n")) }
}

/// Whether two strings hold the same characters.
fn same_text(a: &str, b: &str) -> (r: bool)
    ensures
        r == (a@ == b@),
{
    String::from_str(a) == String::from_str(b)
}

/// `path` without its leading slashes.
fn strip_slashes(path: &str) -> (r: &str)
    ensures
        r@ == trim_slashes(path@),
{
    let n = path.unicode_len();
    let mut i: usize = 0;
    assert(path@.subrange(0, n as int) =~= path@);
    while i < n && path.get_char(i) == '/'
        invariant
            n == path@.len(),
            i <= n,
            trim_slashes(path@) == trim_slashes(path@.subrange(i as int, n as int)),
        decreases n - i,
    {
        assert(path@.subrange(i as int, n as int).drop_first() =~= path@.subrange(
            i + 1,
            n as int,
        ));
        i = i + 1;
    }
    path.substring_char(i, n)
}

/// Routes one request by its method and path to the handler for it.
pub fn route(
    method: &str,
    path: &str,
    body: &str,
    self_addr: &str,
    peers: &[String],
    store: &mut Cache,
) -> (r: Dispatch)
    requires
        peers@.len() > 0,
        old(store).wf(),
    ensures
        final(store).wf(),
        (r@, final(store)@) == route_result(
            method@,
            path@,
            body@,
            self_addr@,
            addrs(peers@),
            old(store)@,
        ),
{
    if same_text(method, "POST") && same_text(path, "/") {
        handle_post(body, self_addr, peers, store)
    } else if same_text(method, "GET") && same_text(path, "/health") {
        Dispatch::Respond(handle_health())
    } else if same_text(method, "GET") {
        handle_get(strip_slashes(path), self_addr, peers, store)
    } else if same_text(method, "DELETE") {
        handle_delete(strip_slashes(path), self_addr, peers, store)
    } else {
        Dispatch::Respond(empty(405))
    }
}

/// The response to the original request once the forwarded call of `verb`
/// has ended with `outcome` (`None`: the attempts ran out).
pub fn forward_response(verb: Verb, outcome: Option<(u16, String)>) -> (r: Response)
    ensures
        r@ == forward_result(
            verb,
            match outcome {
                Some((s, b)) => Some((s, b@)),
                None => None,
            },
        ),
{
    match verb {
        Verb::Get => match outcome {
            Some((status, body)) => {
                if status == 200 {
                    Response { status: 200, body: Some(body) }
                } else {
                    empty(404)
                }
            },
            None => empty(404),
        },
        _ => match outcome {
            Some((status, body)) => Response { status, body: Some(body) },
            None => empty(502),
        },
    }
}

/// The methods routed on differ from one another.
proof fn lemma_methods_differ()
    ensures
        "GET"@ != "POST"@,
        "GET"@ != "DELETE"@,
        "POST"@ != "DELETE"@,
{
    reveal_strlit("GET");
    reveal_strlit("POST");
    reveal_strlit("DELETE");
    assert("GET"@.len() == 3);
    assert("POST"@.len() == 4);
    assert("DELETE"@.len() == 6);
}

/// The path `/{key}` of a key that does not itself start with a slash
/// routes to that key; it is not the path `/`, and it is the health path
/// only for the key `health`.
pub proof fn lemma_key_path(key: Seq<char>)
    requires
        key.len() > 0,
        key[0] != '/',
    ensures
        trim_slashes("/"@ + key) == key,
        "/"@ + key != "/"@,
        "/"@ + key == "/health"@ ==> key == "health"@,
{
    reveal_strlit("/");
    reveal_strlit("/health");
    reveal_strlit("health");
    let p = "/"@ + key;
    assert("/"@.len() == 1);
    assert(p[0] == '/');
    assert(p.drop_first() =~= key);
    assert(trim_slashes(key) == key);
    assert(p.len() > 1);
    if p == "/health"@ {
        assert(key =~= "health"@) by {
            assert forall|i: int| 0 <= i < key.len() implies key[i] == "health"@[i] by {
                assert(key[i] == p[i + 1]);
            }
        }
    }
}

/// A value written with `POST /` on the node that owns its key is read back
/// by `GET /{key}` on that node: both answer 200 with the same `{key: value}`.
/// (The key `health` is read by its own path, which always reports liveness.)
pub proof fn lemma_post_then_get(
    body: Seq<char>,
    me: Seq<char>,
    peers: Seq<Seq<char>>,
    store: Map<Seq<char>, Seq<char>>,
)
    requires
        peers.len() > 0,
        json_object_members(body) is Some,
        json_object_members(body)->0.len() == 1,
        json_object_members(body)->0[0].0.len() > 0,
        json_object_members(body)->0[0].0[0] != '/',
        json_object_members(body)->0[0].0 != "health"@,
        owner_addr(json_object_members(body)->0[0].0, peers) == me,
    ensures
        ({
            let key = json_object_members(body)->0[0].0;
            let value = json_object_members(body)->0[0].1;
            let (posted, after) = route_result("POST"@, "/"@, body, me, peers, store);
            let (read, _) = route_result("GET"@, "/"@ + key, Seq::empty(), me, peers, after);
            &&& posted == DispatchView::Respond(json_response(200, entry_body(key, value)))
            &&& read == DispatchView::Respond(json_response(200, entry_body(key, value)))
        }),
{
    lemma_key_path(json_object_members(body)->0[0].0);
    lemma_methods_differ();
}

/// A delete on the owning node after a value was set answers `1`; a second
/// delete right after it answers `0`.
pub proof fn lemma_delete_twice(
    key: Seq<char>,
    value: Seq<char>,
    me: Seq<char>,
    peers: Seq<Seq<char>>,
    store: Map<Seq<char>, Seq<char>>,
)
    requires
        peers.len() > 0,
        key.len() > 0,
        key[0] != '/',
        owner_addr(key, peers) == me,
    ensures
        ({
            let (first, after) = route_result(
                "DELETE"@,
                "/"@ + key,
                Seq::empty(),
                me,
                peers,
                store.insert(key, value),
            );
            let (second, _) = route_result("DELETE"@, "/"@ + key, Seq::empty(), me, peers, after);
            &&& first == DispatchView::Respond(json_response(200, "1"@))
            &&& second == DispatchView::Respond(json_response(200, "0"@))
        }),
{
    lemma_key_path(key);
    lemma_methods_differ();
    assert(store.insert(key, value).remove(key).contains_key(key) == false);
}

/// `GET /health` answers 200 with the fixed status body, whatever the store
/// holds and whichever peers are reachable, and leaves the store as it is.
pub proof fn lemma_health_always_ok(
    body: Seq<char>,
    me: Seq<char>,
    peers: Seq<Seq<char>>,
    store: Map<Seq<char>, Seq<char>>,
)
    ensures
        route_result("GET"@, "/health"@, body, me, peers, store) == (
            DispatchView::Respond(json_response(200, health_body())),
            store,
        ),
{
    lemma_methods_differ();
}

/// When the owner of a key is another peer and no attempt reaches it, every
/// attempt but the last is retried, the last ends the call, and the request
/// is answered 404 for a read and 502 for a write or a delete.
pub proof fn lemma_unreachable_owner(
    policy: RetryPolicy,
    key: Seq<char>,
    body: Seq<char>,
    me: Seq<char>,
    peers: Seq<Seq<char>>,
    store: Map<Seq<char>, Seq<char>>,
)
    requires
        policy.max_attempts > 0,
        peers.len() > 0,
        key.len() > 0,
        owner_addr(key, peers) != me,
        json_object_members(body) == Some(seq![(key, json_object_members(body)->0[0].1)]),
    ensures
        forall|made: nat|
            1 <= made < policy.max_attempts ==> next_step(policy, made, AttemptView::Unreachable)
                == StepView::RetryAfter(policy.delay_ms),
        next_step(policy, policy.max_attempts as nat, AttemptView::Unreachable) == StepView::Exhausted,
        get_result(key, me, peers, store) is Forward,
        forward_result(Verb::Get, None) == empty_response(404),
        post_result(body, me, peers, store).0 is Forward,
        forward_result(Verb::Post, None) == empty_response(502),
        delete_result(key, me, peers, store).0 is Forward,
        forward_result(Verb::Delete, None) == empty_response(502),
{
}

} // verus!
