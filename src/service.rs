//! The request logic of the service: configuration, routing, and the reply
//! to each route.
use vstd::prelude::*;
use crate::template::{joined, process_template, push_all, rendered};
use crate::text::{chars_of, decimal, parse_u32, parsed_u32, string_of};
use crate::urls::{
    base_parses, craft_polling_url, param_of, parse_query_params, polling_url, request_query,
    same_text, BaseUrl,
};

verus! {

/// Relies on `rand::random::<u32>`, drawn from the thread-local generator:
/// nothing is known of the value.
#[verifier::external_body]
fn random_session_id() -> (r: u32) {
    rand::random::<u32>()
}

/// Why a configuration is refused.
#[derive(Debug, Clone, Copy, PartialEq, Eq, Structural)]
pub enum ConfigError {
    /// The polling and callback hosts are the same text.
    SameHosts,
    /// The polling host does not parse as an absolute URL.
    BadPollingHost,
    /// The callback host does not parse as an absolute URL.
    BadCallbackHost,
}

/// The read-only settings shared by every request.
pub struct Config {
    /// Base of the polling probe URLs.
    pub polling_host: BaseUrl,
    /// Base of the callback URLs.
    pub callback_host: BaseUrl,
    /// The payload template, with its callback and token markers.
    pub template: String,
    /// The candidate characters, in probe order.
    pub charset: String,
}

impl Config {
    /// Checks and assembles a configuration: the hosts must differ and
    /// both parse as absolute URLs.
    pub fn new(polling_host: &str, callback_host: &str, template: &str, charset: &str) -> (r: Result<
        Config,
        ConfigError,
    >)
        ensures
            polling_host@ == callback_host@ ==> r == Err::<Config, ConfigError>(ConfigError::SameHosts),
            polling_host@ != callback_host@ && !base_parses(polling_host@) ==> r == Err::<
                Config,
                ConfigError,
            >(ConfigError::BadPollingHost),
            polling_host@ != callback_host@ && base_parses(polling_host@) && !base_parses(
                callback_host@,
            ) ==> r == Err::<Config, ConfigError>(ConfigError::BadCallbackHost),
            polling_host@ != callback_host@ && base_parses(polling_host@) && base_parses(
                callback_host@,
            ) ==> (r matches Ok(c) && c.polling_host@ == polling_host@ && c.callback_host@
                == callback_host@ && c.template@ == template@ && c.charset@ == charset@),
    {
        if same_text(polling_host, callback_host) {
            return Err(ConfigError::SameHosts);
        }
        let polling = match BaseUrl::parse(polling_host) {
            Some(b) => b,
            None => {
                return Err(ConfigError::BadPollingHost);
            },
        };
        let callback = match BaseUrl::parse(callback_host) {
            Some(b) => b,
            None => {
                return Err(ConfigError::BadCallbackHost);
            },
        };
        Ok(
            Config {
                polling_host: polling,
                callback_host: callback,
                template: String::from_str(template),
                charset: String::from_str(charset),
            },
        )
    }
}

/// A reply: an HTTP status code and a plain-text body.
#[derive(Debug)]
pub struct Reply {
    pub status: u16,
    pub body: String,
}

/// The routes that the service answers.
#[derive(Debug, Clone, Copy, PartialEq, Eq, Structural)]
pub enum Route {
    Staging,
    Polling,
    Callback,
    NotFound,
}

/// The route of a request by its method and path.
pub open spec fn route_of(method: Seq<char>, path: Seq<char>) -> Route {
    if method != "GET"@ {
        Route::NotFound
    } else if path == "/staging"@ {
        Route::Staging
    } else if path == "/polling"@ {
        Route::Polling
    } else if path == "/callback"@ {
        Route::Callback
    } else {
        Route::NotFound
    }
}

/// Picks the route of a request.
pub fn route(method: &str, path: &str) -> (r: Route)
    ensures
        r == route_of(method@, path@),
{
    if !same_text(method, "GET") {
        Route::NotFound
    } else if same_text(path, "/staging") {
        Route::Staging
    } else if same_text(path, "/polling") {
        Route::Polling
    } else if same_text(path, "/callback") {
        Route::Callback
    } else {
        Route::NotFound
    }
}

/// What a request asks of the service.
#[derive(Debug)]
pub enum Action {
    /// Answer at once.
    Reply(Reply),
    /// Long-poll until the token of `id` has `len` characters.
    Poll { id: String, len: u32 },
    /// Store `token` for `id` and wake every parked poller.
    Record { id: String, token: String },
}

/// The text value of query parameter `key` of a request target.
pub open spec fn query_param(target: Seq<char>, key: Seq<char>) -> Option<Seq<char>> {
    match request_query(target) {
        Some(q) => param_of(q, key),
        None => None,
    }
}

/// The numeric value of query parameter `key` of a request target.
pub open spec fn query_u32(target: Seq<char>, key: Seq<char>) -> Option<u32> {
    match query_param(target, key) {
        Some(v) => parsed_u32(v),
        None => None,
    }
}

/// One line of a staging payload: an import of the probe with index `i`.
pub open spec fn staging_line(host: Seq<char>, id: Seq<char>, i: nat) -> Seq<char> {
    "@import url("@ + polling_url(host, id, i) + ");\n"@
}

/// The staging payload: the imports of probes `0` to `len - 1`, in order.
pub open spec fn staging_body(host: Seq<char>, id: Seq<char>, len: nat) -> Seq<char> {
    joined(Seq::new(len, |i: int| staging_line(host, id, i as nat)))
}

/// The body of the reply to a staging request without a valid `len`.
pub open spec fn missing_len_text() -> Seq<char> {
    "Missing <b>len</b> parameter on staging."@
}

/// The body of the reply to a recorded callback.
pub open spec fn recorded_text() -> Seq<char> {
    "Successfully added new token state"@
}

/// The body of the reply to a polling or callback request that lacks a
/// parameter.
pub open spec fn bad_request_text() -> Seq<char> {
    "Missing or malformed query parameter."@
}

fn text_reply(status: u16, body: &str) -> (r: Reply)
    ensures
        r.status == status,
        r.body@ == body@,
{
    Reply { status, body: String::from_str(body) }
}

/// The staging payload for session `id` with `len` probes.
pub fn staging_reply(host: &BaseUrl, id: u32, len: u32) -> (r: Reply)
    ensures
        r.status == 200,
        r.body@ == staging_body(host@, decimal(id as nat), len as nat),
{
    let id_text = string_of(&crate::text::decimal_of(id));
    let ghost lines = Seq::new(len as nat, |i: int| staging_line(host@, id_text@, i as nat));
    let open = chars_of("@import url(");
    let close = chars_of(");\n");
    let mut out: Vec<char> = Vec::new();
    let mut i: u32 = 0;
    assert(lines.take(0) =~= Seq::<Seq<char>>::empty());
    while i < len
        invariant
            i <= len,
            open@ == "@import url("@,
            close@ == ");\n"@,
            lines == Seq::new(len as nat, |i: int| staging_line(host@, id_text@, i as nat)),
            out@ == joined(lines.take(i as int)),
        decreases len - i,
    {
        let url = craft_polling_url(host, id_text.as_str(), i);
        let url_chars = chars_of(url.as_str());
        push_all(&mut out, &open);
        push_all(&mut out, &url_chars);
        push_all(&mut out, &close);
        i = i + 1;
        assert(lines.take(i as int).drop_last() =~= lines.take(i - 1));
        assert(out@ =~= joined(lines.take(i as int)));
    }
    assert(lines.take(len as int) =~= lines);
    Reply { status: 200, body: string_of(&out) }
}

/// The reply to a poller that resolved with `token`: the rendered payload.
pub fn resolved_reply(config: &Config, id: &str, token: &str) -> (r: Reply)
    ensures
        r.status == 200,
        r.body@ == rendered(config.template@, config.callback_host@, id@, config.charset@, token@),
{
    let body = process_template(
        config.template.as_str(),
        &config.callback_host,
        id,
        config.charset.as_str(),
        token,
    );
    Reply { status: 200, body }
}

/// The reply to a recorded callback.
pub fn recorded_reply() -> (r: Reply)
    ensures
        r.status == 200,
        r.body@ == recorded_text(),
{
    text_reply(200, "Successfully added new token state")
}

fn param_text(target: &str, key: &str) -> (r: Option<String>)
    ensures
        r.deep_view() == query_param(target@, key@),
{
    match parse_query_params(target) {
        Some(q) => q.get(key),
        None => None,
    }
}

fn param_u32(target: &str, key: &str) -> (r: Option<u32>)
    ensures
        r == query_u32(target@, key@),
{
    match param_text(target, key) {
        Some(v) => parse_u32(v.as_str()),
        None => None,
    }
}

/// Decides what a request asks, by its method, path and target (path and
/// query). A staging request with a valid `len` draws a random session
/// identifier; a polling request needs `id` and `len`, a callback `id` and
/// `token`, else it gets status 400; any other request gets 404 with an
/// empty body.
pub fn decide(config: &Config, method: &str, path: &str, target: &str) -> (r: Action)
    ensures
        route_of(method@, path@) == Route::NotFound ==> (r matches Action::Reply(rep)
            && rep.status == 404 && rep.body@ == Seq::<char>::empty()),
        route_of(method@, path@) == Route::Staging ==> match query_u32(target@, "len"@) {
            None => r matches Action::Reply(rep) && rep.status == 500 && rep.body@
                == missing_len_text(),
            Some(n) => r matches Action::Reply(rep) && rep.status == 200 && exists|id: u32|
                rep.body@ == staging_body(config.polling_host@, decimal(id as nat), n as nat),
        },
        route_of(method@, path@) == Route::Polling ==> match (
            query_param(target@, "id"@),
            query_u32(target@, "len"@),
        ) {
            (Some(i), Some(n)) => r matches Action::Poll { id, len } && id@ == i && len == n,
            _ => r matches Action::Reply(rep) && rep.status == 400 && rep.body@
                == bad_request_text(),
        },
        route_of(method@, path@) == Route::Callback ==> match (
            query_param(target@, "id"@),
            query_param(target@, "token"@),
        ) {
            (Some(i), Some(t)) => r matches Action::Record { id, token } && id@ == i && token@ == t,
            _ => r matches Action::Reply(rep) && rep.status == 400 && rep.body@
                == bad_request_text(),
        },
{
    match route(method, path) {
        Route::Staging => match param_u32(target, "len") {
            Some(n) => {
                let id = random_session_id();
                Action::Reply(staging_reply(&config.polling_host, id, n))
            },
            None => Action::Reply(text_reply(500, "Missing <b>len</b> parameter on staging.")),
        },
        Route::Polling => {
            let id = param_text(target, "id");
            let len = param_u32(target, "len");
            match (id, len) {
                (Some(id), Some(len)) => Action::Poll { id, len },
                _ => Action::Reply(text_reply(400, "Missing or malformed query parameter.")),
            }
        },
        Route::Callback => {
            let id = param_text(target, "id");
            let token = param_text(target, "token");
            match (id, token) {
                (Some(id), Some(token)) => Action::Record { id, token },
                _ => Action::Reply(text_reply(400, "Missing or malformed query parameter.")),
            }
        },
        Route::NotFound => Action::Reply(Reply { status: 404, body: String::new() }),
    }
}

} // verus!
