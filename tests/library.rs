use http::Method;
use http_router::{compile, is_valid_param_name, parse, push_wildcard, BuildError, Error, ParamError, Router};

#[test]
fn static_pattern_compiles_to_anchored_literal() {
    let c = compile("/foo/bar").unwrap();
    assert_eq!("^/?foo/bar$", c.source);
    assert_eq!(None, c.wildcard_group);
    let c = compile("foo").unwrap();
    assert_eq!("^/?foo$", c.source);
}

#[test]
fn static_pattern_escapes_meta_characters() {
    let c = compile("/a.b").unwrap();
    assert_eq!("^/?a\\.b$", c.source);
    let router = Router::builder().route_any("/a.b", 1).build().unwrap();
    assert_eq!(0, router.matches_path(Method::GET, "/axb").into_vec().len());
    assert_eq!(1, router.matches_path(Method::GET, "/a.b").into_vec().len());
}

#[test]
fn static_pattern_matches_only_itself() {
    let router = Router::builder().route_any("/foo", 1).build().unwrap();
    assert_eq!(1, router.matches_path(Method::GET, "/foo").into_vec().len());
    assert_eq!(1, router.matches_path(Method::GET, "foo").into_vec().len());
    assert_eq!(0, router.matches_path(Method::GET, "/foo/").into_vec().len());
    assert_eq!(0, router.matches_path(Method::GET, "/foob").into_vec().len());
    assert_eq!(0, router.matches_path(Method::GET, "/fo").into_vec().len());
    assert_eq!(0, router.matches_path(Method::GET, "//foo").into_vec().len());
}

#[test]
fn dynamic_and_wildcard_expressions() {
    let c = compile("/foo/:bar").unwrap();
    assert_eq!("^/?foo/(?P<bar>[^/]+)$", c.source);
    assert_eq!(None, c.wildcard_group);
    let c = compile("/foo/*").unwrap();
    assert_eq!("^/?foo/(.*)$", c.source);
    assert_eq!(Some(1), c.wildcard_group);
    let c = compile("/:a/:b/*/ignored").unwrap();
    assert_eq!("^/?(?P<a>[^/]+)/(?P<b>[^/]+)/(.*)$", c.source);
    assert_eq!(Some(3), c.wildcard_group);
    let c = compile("/files/*rest").unwrap();
    assert_eq!("^/?files/(?P<rest>.*)$", c.source);
    assert_eq!(None, c.wildcard_group);
}

#[test]
fn empty_segments_are_literal() {
    let c = compile("/foo//bar/").unwrap();
    assert_eq!("^/?foo//bar/$", c.source);
    let c = compile("").unwrap();
    assert_eq!("^/?$", c.source);
}

#[test]
fn invalid_param_names_are_refused() {
    assert!(matches!(compile("/:123"), Err(BuildError::InvalidParamName)));
    assert!(matches!(compile("/:"), Err(BuildError::InvalidParamName)));
    assert!(matches!(compile("/:a-b"), Err(BuildError::InvalidParamName)));
    assert!(matches!(compile("/*9"), Err(BuildError::InvalidParamName)));
    assert!(matches!(parse("/x/:1"), Err(BuildError::InvalidParamName)));
    assert!(compile("/:bar").is_ok());
    assert!(Router::builder().route(Method::GET, "/foo/:bar", ()).build().is_ok());
}

#[test]
fn param_name_validation() {
    assert!(is_valid_param_name("a"));
    assert!(is_valid_param_name("Bar9"));
    assert!(!is_valid_param_name(""));
    assert!(!is_valid_param_name("9a"));
    assert!(!is_valid_param_name("a_b"));
    assert!(!is_valid_param_name("é"));
}

#[test]
fn parse_keeps_the_expression() {
    let re = parse("/posts/:id").unwrap();
    assert_eq!("^/?posts/(?P<id>[^/]+)$", re.as_str());
}

#[test]
fn push_wildcard_appends_group() {
    let mut s = String::from("^/?");
    push_wildcard(&mut s);
    assert_eq!("^/?(.*)", s);
}

#[test]
fn first_build_error_is_kept() {
    let result = Router::builder()
        .route(Method::GET, "/:1", 1)
        .route(Method::GET, "/ok", 2)
        .route_any("/:2", 3)
        .build();
    assert!(matches!(result, Err(BuildError::InvalidParamName)));
}

#[test]
fn lookup_is_repeatable() {
    let router = Router::builder()
        .route(Method::GET, "/foo/*", 1)
        .route(Method::GET, "/foo/:bar", 2)
        .build()
        .unwrap();
    let first = router.matches_path(Method::GET, "/foo/abc").into_vec();
    let second = router.matches_path(Method::GET, "/foo/abc").into_vec();
    assert_eq!(first.len(), second.len());
    for (a, b) in first.iter().zip(second.iter()) {
        assert_eq!(a.handler(), b.handler());
        assert_eq!(a.params().wildcard(), b.params().wildcard());
        assert_eq!(a.params().get("bar").ok(), b.params().get("bar").ok());
    }
}

#[test]
fn missing_param_is_not_found() {
    let router = Router::builder().route(Method::GET, "/foo/:bar", ()).build().unwrap();
    let matches = router.matches_path(Method::GET, "/foo/abc").into_vec();
    assert!(matches!(matches[0].params().get("baz"), Err(ParamError::NotFound)));
    assert_eq!(None, matches[0].params().get_raw("baz"));
    assert_eq!(None, matches[0].params().wildcard());
}

#[test]
fn undecodable_param_is_a_decode_error() {
    let router = Router::builder().route(Method::GET, "/greet/:greeting", ()).build().unwrap();
    let matches = router.matches_path(Method::GET, "/greet/%FF%41").into_vec();
    assert_eq!(1, matches.len());
    assert_eq!(Some(vec![0xFF, 0x41]), matches[0].params().get_raw("greeting"));
    let err = matches[0].params().get("greeting").unwrap_err();
    assert!(matches!(err, ParamError::Decode(_)));
    assert_eq!("route param decode error", err.description());
}

#[test]
fn malformed_percent_sequences_are_kept() {
    let router = Router::builder().route_any("/:v", ()).build().unwrap();
    let matches = router.matches_path(Method::PUT, "/a%2xb%%41%4").into_vec();
    assert_eq!("a%2xb%A%4", matches[0].params().get("v").unwrap());
}

#[test]
fn wildcard_after_params_is_its_own_group() {
    let router = Router::builder().route(Method::GET, "/:a/*", ()).build().unwrap();
    let matches = router.matches_path(Method::GET, "/x/y/z").into_vec();
    assert_eq!(1, matches.len());
    assert_eq!(Some("y/z"), matches[0].params().wildcard());
    assert_eq!("x", matches[0].params().get("a").unwrap());
}

#[test]
fn named_wildcard_is_a_param() {
    let router = Router::builder().route(Method::GET, "/files/*rest", ()).build().unwrap();
    let matches = router.matches_path(Method::GET, "/files/a/b%20c").into_vec();
    assert_eq!("a/b c", matches[0].params().get("rest").unwrap());
    assert_eq!(None, matches[0].params().wildcard());
}

#[test]
fn any_method_route_and_order() {
    let router = Router::builder()
        .route(Method::POST, "/x", 1)
        .route_any("/x", 2)
        .route(Method::GET, "/x", 3)
        .route(Method::GET, "/x", 4)
        .build()
        .unwrap();
    let handlers: Vec<i32> = router
        .matches_path(Method::GET, "/x")
        .into_vec()
        .iter()
        .map(|m| *m.handler())
        .collect();
    assert_eq!(vec![2, 3, 4], handlers);
    let handlers: Vec<i32> = router
        .matches_path(Method::POST, "/x")
        .into_vec()
        .iter()
        .map(|m| *m.handler())
        .collect();
    assert_eq!(vec![1, 2], handlers);
}

#[test]
fn next_and_size_hint() {
    let router = Router::builder()
        .route(Method::GET, "/a", 1)
        .route(Method::POST, "/a", 2)
        .route(Method::GET, "/b", 3)
        .build()
        .unwrap();
    let mut matches = router.matches_path(Method::GET, "/a");
    assert_eq!((0, Some(2)), matches.size_hint());
    assert_eq!(1, *matches.next().unwrap().handler());
    assert!(matches.next().is_none());
    assert_eq!((0, Some(0)), matches.size_hint());
}

#[test]
fn error_texts() {
    let err = Error::from_err("x".parse::<u32>().unwrap_err());
    assert_eq!("router error: invalid digit found in string", err.to_string());
    assert_eq!("router error", err.description());
    assert_eq!("invalid param name", BuildError::InvalidParamName.to_string());
    assert_eq!("invalid param name", BuildError::InvalidParamName.description());
    assert_eq!("route param not found", ParamError::NotFound.to_string());
    assert_eq!("route param not found", ParamError::NotFound.description());
}

#[test]
fn lookup_by_uri_ignores_the_query() {
    let router = Router::builder().route(Method::GET, "/foo/:id", 1).build().unwrap();
    let with_query = router.matches(Method::GET, &"/foo/a%21?x=1".parse().unwrap()).into_vec();
    let without = router.matches(Method::GET, &"/foo/a%21".parse().unwrap()).into_vec();
    assert_eq!(1, with_query.len());
    assert_eq!(1, without.len());
    assert_eq!("a!", with_query[0].params().get("id").unwrap());
    assert_eq!(without[0].params().get("id").unwrap(), with_query[0].params().get("id").unwrap());
}

#[test]
fn size_hint_counts_path_matches_before_method_filter() {
    let router = Router::builder()
        .route(Method::POST, "/a", 1)
        .route(Method::POST, "/a", 2)
        .route(Method::GET, "/b", 3)
        .build()
        .unwrap();
    let mut matches = router.matches_path(Method::GET, "/a");
    assert_eq!((0, Some(2)), matches.size_hint());
    assert!(matches.next().is_none());
    assert_eq!((0, Some(0)), matches.size_hint());
}
