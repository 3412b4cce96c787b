use https_redirect::ports::Ports;
use https_redirect::rewrite::{assemble_parsed, make_https, respond, Response, RewriteError};

fn defaults() -> Ports {
    Ports { http: 7878, https: 3000 }
}

#[test]
fn port_is_substituted_in_the_authority() {
    let uri = make_https("example.com:7878", Some("/"), defaults()).unwrap();
    assert_eq!(uri.authority, "example.com:3000");
    assert_eq!(uri.path_and_query, "/");
    assert_eq!(uri.text, "https://example.com:3000/");
}

#[test]
fn host_without_port_keeps_its_authority() {
    let uri = make_https("example.com", Some("/"), defaults()).unwrap();
    assert_eq!(uri.authority, "example.com");
    assert!(uri.text.starts_with("https://"));
    assert_eq!(uri.text, "https://example.com/");
}

#[test]
fn path_and_query_are_preserved() {
    let uri = make_https("example.com:7878", Some("/a/b?x=1&y=2"), defaults()).unwrap();
    assert_eq!(uri.path_and_query, "/a/b?x=1&y=2");
    assert_eq!(uri.text, "https://example.com:3000/a/b?x=1&y=2");
}

#[test]
fn missing_target_defaults_to_root() {
    let uri = make_https("example.com:7878", None, defaults()).unwrap();
    assert_eq!(uri.path_and_query, "/");
    assert_eq!(uri.text, "https://example.com:3000/");
}

#[test]
fn empty_target_shows_root() {
    let uri = make_https("example.com:7878", Some(""), defaults()).unwrap();
    assert_eq!(uri.path_and_query, "/");
    assert_eq!(uri.text, "https://example.com:3000/");
}

#[test]
fn query_without_path_gets_a_root_path_in_the_text() {
    let uri = make_https("example.com", Some("?x=1"), defaults()).unwrap();
    assert_eq!(uri.path_and_query, "?x=1");
    assert_eq!(uri.text, "https://example.com/?x=1");
}

#[test]
fn fragment_is_dropped() {
    let uri = make_https("example.com", Some("/a?b#c d"), defaults()).unwrap();
    assert_eq!(uri.path_and_query, "/a?b");
    assert_eq!(uri.text, "https://example.com/a?b");
    let uri = make_https("example.com", Some("#top"), defaults()).unwrap();
    assert_eq!(uri.path_and_query, "/");
    assert_eq!(uri.text, "https://example.com/");
}

#[test]
fn star_target_is_kept() {
    let uri = make_https("example.com", Some("*"), defaults()).unwrap();
    assert_eq!(uri.path_and_query, "*");
    assert_eq!(uri.text, "https://example.com*");
}

#[test]
fn long_target_keeps_its_path_and_query() {
    let mut target = String::from("/");
    for _ in 0..70000 {
        target.push('a');
    }
    target.push_str("?q=1");
    let uri = make_https("example.com:7878", Some(&target), defaults()).unwrap();
    assert_eq!(uri.authority, "example.com:3000");
    assert_eq!(uri.path_and_query, target);
}

#[test]
fn target_at_the_stated_limit_has_the_plain_text() {
    let mut target = String::from("/");
    for _ in 0..65532 {
        target.push('a');
    }
    target.push('?');
    assert_eq!(target.len(), 65534);
    let uri = make_https("example.com", Some(&target), defaults()).unwrap();
    assert_eq!(uri.text, format!("https://example.com{}", target));
}

#[test]
fn whitespace_in_host_is_an_invalid_authority() {
    let outcome = make_https("exa mple.com:7878", Some("/"), defaults());
    assert!(matches!(outcome, Err(RewriteError::InvalidAuthority(_))));
    assert_eq!(respond(&outcome).status(), 400);
}

#[test]
fn empty_host_is_an_invalid_authority() {
    let outcome = make_https("", Some("/"), defaults());
    assert!(matches!(outcome, Err(RewriteError::InvalidAuthority(_))));
}

#[test]
fn host_with_a_path_is_an_invalid_authority() {
    let outcome = make_https("example.com/x", None, defaults());
    assert!(matches!(outcome, Err(RewriteError::InvalidAuthority(_))));
}

#[test]
fn two_ports_are_an_invalid_authority() {
    let outcome = make_https("localhost:7878:3030", None, defaults());
    assert!(matches!(outcome, Err(RewriteError::InvalidAuthority(_))));
}

#[test]
fn substitution_reaches_inside_an_address() {
    let ports = Ports { http: 1, https: 2 };
    assert!(make_https("[::2]:80", None, ports).is_ok());
    let uri = make_https("[::1]:81", None, ports).unwrap();
    assert_eq!(uri.authority, "[::2]:82");
}

#[test]
fn invalid_authority_comes_before_a_bad_target() {
    let outcome = make_https("exa mple.com", Some("/a b"), defaults());
    assert!(matches!(outcome, Err(RewriteError::InvalidAuthority(_))));
}

#[test]
fn target_with_whitespace_fails_assembly() {
    let outcome = make_https("example.com:7878", Some("/a b"), defaults());
    assert!(matches!(outcome, Err(RewriteError::UriAssembly(_))));
    assert_eq!(respond(&outcome).status(), 400);
}

#[test]
fn success_is_answered_with_a_permanent_redirect() {
    let outcome = make_https("127.0.0.1:7878", Some("/"), defaults());
    let response = respond(&outcome);
    assert_eq!(response.status(), 301);
    match response {
        Response::PermanentRedirect { location } => {
            assert_eq!(location, "https://127.0.0.1:3000/")
        }
        Response::BadRequest => panic!("a valid request was refused"),
    }
}

#[test]
fn failure_is_answered_with_a_bad_request() {
    let outcome = make_https("bad host", None, defaults());
    let response = respond(&outcome);
    assert!(matches!(response, Response::BadRequest));
    assert_eq!(response.status(), 400);
}

#[test]
fn rewritten_uri_rewrites_to_itself() {
    let ports = defaults();
    let first = make_https("example.com:7878", Some("/p?q"), ports).unwrap();
    let second = make_https(&first.authority, Some(&first.path_and_query), ports).unwrap();
    assert_eq!(first.authority, second.authority);
    assert_eq!(first.path_and_query, second.path_and_query);
    assert_eq!(first.text, second.text);
}

#[test]
fn text_agrees_with_the_uri_type() {
    let uri = make_https("user@example.com:7878", Some("/x?y=z"), defaults()).unwrap();
    let parsed: http::Uri = uri.text.parse().unwrap();
    assert_eq!(parsed.scheme_str(), Some("https"));
    assert_eq!(parsed.authority().unwrap().as_str(), "user@example.com:3000");
    assert_eq!(parsed.path_and_query().unwrap().as_str(), "/x?y=z");
}

#[test]
fn refused_authority_is_not_assembled() {
    let cause = "a b".parse::<http::uri::Authority>().unwrap_err();
    let outcome = assemble_parsed(Err(cause), "/");
    assert!(matches!(outcome, Err(RewriteError::InvalidAuthority(_))));
}

#[test]
fn parsed_authority_is_assembled_with_the_target() {
    let uri = assemble_parsed(Ok(String::from("example.com:3000")), "/x?y").unwrap();
    assert_eq!(uri.authority, "example.com:3000");
    assert_eq!(uri.path_and_query, "/x?y");
    assert_eq!(uri.text, "https://example.com:3000/x?y");
}

#[test]
fn authority_that_the_builder_refuses_fails_assembly() {
    let outcome = assemble_parsed(Ok(String::from("bad host")), "/");
    assert!(matches!(outcome, Err(RewriteError::UriAssembly(_))));
}

fn target_with_query_at(index: usize, tail: &str) -> String {
    let mut target = String::from("/");
    while target.len() < index {
        target.push('a');
    }
    target.push('?');
    target.push_str(tail);
    target
}

#[test]
fn query_at_the_sixteen_bit_limit_keeps_scheme_and_authority() {
    let target = target_with_query_at(65535, "#x");
    assert_eq!(target.find('?'), Some(65535));
    let uri = make_https("example.com:7878", Some(&target), defaults()).unwrap();
    assert_eq!(uri.authority, "example.com:3000");
    assert!(uri.text.starts_with("https://example.com:3000/"));
    assert!(uri.path_and_query.starts_with(&target[..65536]));
}

#[test]
fn query_at_the_sixteen_bit_limit_without_fragment_is_preserved() {
    let target = target_with_query_at(65535, "x=1");
    let uri = make_https("example.com:7878", Some(&target), defaults()).unwrap();
    assert_eq!(uri.path_and_query, target);
    assert!(uri.text.starts_with("https://example.com:3000/"));
}

#[test]
fn query_beyond_the_sixteen_bit_limit_without_fragment_is_preserved() {
    let target = target_with_query_at(70000, "x=1&y=2");
    let uri = make_https("example.com", Some(&target), defaults()).unwrap();
    assert_eq!(uri.authority, "example.com");
    assert_eq!(uri.path_and_query, target);
    assert!(uri.text.starts_with("https://example.com/"));
}

#[test]
fn last_target_with_a_stated_text_drops_its_fragment() {
    let target = target_with_query_at(65531, "#x");
    assert_eq!(target.len(), 65534);
    let uri = make_https("example.com", Some(&target), defaults()).unwrap();
    assert_eq!(uri.path_and_query, &target[..65532]);
    assert_eq!(uri.text, format!("https://example.com{}", &target[..65532]));
}

#[test]
fn every_rewritten_uri_rewrites_to_itself() {
    let ports = defaults();
    let long_cut = target_with_query_at(70000, "x#y");
    let long_kept = target_with_query_at(65535, "#x y");
    let targets = [
        "",
        "/",
        "*",
        "?q",
        "#only",
        "/a/b?c=d#e",
        "rel/path",
        long_cut.as_str(),
        long_kept.as_str(),
    ];
    for host in ["example.com:7878", "example.com", "[::1]:7878", "user@h:7878"] {
        for target in targets {
            let first = make_https(host, Some(target), ports).unwrap();
            assert!(!first.authority.contains("7878"));
            let second =
                make_https(&first.authority, Some(&first.path_and_query), ports).unwrap();
            assert_eq!(second.authority, first.authority);
            assert_eq!(second.path_and_query, first.path_and_query);
            assert_eq!(second.text, first.text);
        }
    }
}

#[test]
fn scheme_is_https_whatever_the_target() {
    let long = target_with_query_at(131071, "z");
    for target in ["", "/", "/x?y", "?y", "*", "#f", long.as_str()] {
        let uri = make_https("example.com", Some(target), defaults()).unwrap();
        assert!(uri.text.starts_with("https://example.com"));
    }
}
