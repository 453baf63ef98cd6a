use sic::{
    craft_callback_url, craft_polling_url, decide, parse_query_params, process_template,
    recorded_reply, resolved_reply, route, staging_reply, Action, BaseUrl, Config, ConfigError,
    Engine, Route,
};

const TEMPLATE: &str = "[{{:token:}}]({{:callback:}})\n";

fn config(charset: &str) -> Config {
    Config::new("http://localhost:3000", "http://localhost:3001", TEMPLATE, charset).unwrap()
}

#[test]
fn config_refuses_bad_hosts() {
    assert_eq!(
        Config::new("http://a", "http://a", TEMPLATE, "ab").err(),
        Some(ConfigError::SameHosts)
    );
    assert_eq!(
        Config::new("not a url", "http://a", TEMPLATE, "ab").err(),
        Some(ConfigError::BadPollingHost)
    );
    assert_eq!(
        Config::new("http://a", "::", TEMPLATE, "ab").err(),
        Some(ConfigError::BadCallbackHost)
    );
}

#[test]
fn urls_carry_the_query_in_order() {
    let host = BaseUrl::parse("http://localhost:3001").unwrap();
    assert_eq!(
        craft_callback_url(&host, "7", "a b&"),
        "http://localhost:3001/callback?token=a+b%26&id=7"
    );
    let host = BaseUrl::parse("http://localhost:3000").unwrap();
    assert_eq!(craft_polling_url(&host, "7", 12), "http://localhost:3000/polling?len=12&id=7");
}

#[test]
fn query_parameters_last_one_wins() {
    let q = parse_query_params("/polling?id=1&len=2&id=3").unwrap();
    assert_eq!(q.get("id"), Some("3".to_string()));
    assert_eq!(q.get("len"), Some("2".to_string()));
    assert_eq!(q.get("token"), None);
    let q = parse_query_params("/callback?token=a%2Bb").unwrap();
    assert_eq!(q.get("token"), Some("a+b".to_string()));
}

#[test]
fn routes() {
    assert_eq!(route("GET", "/staging"), Route::Staging);
    assert_eq!(route("GET", "/polling"), Route::Polling);
    assert_eq!(route("GET", "/callback"), Route::Callback);
    assert_eq!(route("POST", "/staging"), Route::NotFound);
    assert_eq!(route("GET", "/other"), Route::NotFound);
}

#[test]
fn render_gives_one_fragment_per_character() {
    let c = config("ab");
    let out = process_template(&c.template, &c.callback_host, "9", &c.charset, "x.");
    assert_eq!(
        out,
        "[x\\.a](http://localhost:3001/callback?token=x.a&id=9)\n\
         [x\\.b](http://localhost:3001/callback?token=x.b&id=9)\n"
    );
    let again = process_template(&c.template, &c.callback_host, "9", &c.charset, "x.");
    assert_eq!(out, again);
    let empty = process_template(&c.template, &c.callback_host, "9", "", "x");
    assert_eq!(empty, "");
}

#[test]
fn staging_reply_lists_the_probes() {
    let c = config("ab");
    let r = staging_reply(&c.polling_host, 5, 2);
    assert_eq!(r.status, 200);
    assert_eq!(
        r.body,
        "@import url(http://localhost:3000/polling?len=0&id=5);\n\
         @import url(http://localhost:3000/polling?len=1&id=5);\n"
    );
    assert_eq!(staging_reply(&c.polling_host, 5, 0).body, "");
}

#[test]
fn staging_then_callback_then_poll() {
    let c = config("ab");
    let body = match decide(&c, "GET", "/staging", "/staging?len=3") {
        Action::Reply(r) => {
            assert_eq!(r.status, 200);
            r.body
        }
        other => panic!("unexpected {:?}", other),
    };
    let lines: Vec<&str> = body.lines().collect();
    assert_eq!(lines.len(), 3);
    let mut id = String::new();
    for (i, line) in lines.iter().enumerate() {
        let prefix = format!("@import url(http://localhost:3000/polling?len={}&id=", i);
        assert!(line.starts_with(&prefix));
        assert!(line.ends_with(");"));
        let this_id = &line[prefix.len()..line.len() - 2];
        if i == 0 {
            id = this_id.to_string();
        }
        assert_eq!(this_id, id);
    }
    let mut engine: Engine<u32> = Engine::new();
    let target = format!("/callback?id={}&token=a", id);
    match decide(&c, "GET", "/callback", &target) {
        Action::Record { id: rid, token } => {
            assert_eq!(rid, id);
            assert!(engine.record(&rid, &token).is_empty());
            assert_eq!(recorded_reply().status, 200);
        }
        other => panic!("unexpected {:?}", other),
    }
    let target = format!("/polling?id={}&len=1", id);
    match decide(&c, "GET", "/polling", &target) {
        Action::Poll { id: pid, len } => {
            let token = engine.check_or_park(&pid, len, 0).unwrap();
            assert_eq!(token, "a");
            let reply = resolved_reply(&c, &pid, &token);
            assert_eq!(reply.status, 200);
            let fragments: Vec<&str> = reply.body.lines().collect();
            assert_eq!(fragments.len(), 2);
            assert!(fragments[0].starts_with("[aa]("));
            assert!(fragments[1].starts_with("[ab]("));
        }
        other => panic!("unexpected {:?}", other),
    }
}

#[test]
fn staging_without_len_is_a_server_error() {
    let c = config("ab");
    for target in ["/staging", "/staging?len=x", "/staging?id=3"] {
        match decide(&c, "GET", "/staging", target) {
            Action::Reply(r) => {
                assert_eq!(r.status, 500);
                assert!(r.body.contains("len"));
            }
            other => panic!("unexpected {:?}", other),
        }
    }
}

#[test]
fn unknown_routes_are_not_found() {
    let c = config("ab");
    for (method, path) in [("GET", "/"), ("POST", "/staging"), ("GET", "/callbacks")] {
        match decide(&c, method, path, path) {
            Action::Reply(r) => {
                assert_eq!(r.status, 404);
                assert_eq!(r.body, "");
            }
            other => panic!("unexpected {:?}", other),
        }
    }
}

#[test]
fn polling_and_callback_without_parameters_are_client_errors() {
    let c = config("ab");
    for (path, target) in [
        ("/polling", "/polling?id=1"),
        ("/polling", "/polling?len=1"),
        ("/polling", "/polling?id=1&len=-1"),
        ("/callback", "/callback?id=1"),
        ("/callback", "/callback?token=a"),
    ] {
        match decide(&c, "GET", path, target) {
            Action::Reply(r) => assert_eq!(r.status, 400),
            other => panic!("unexpected {:?}", other),
        }
    }
}
