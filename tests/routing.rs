use path_router::{bind_params, CompileError, PathUtils, Router, VariableMap};

type Handler = fn(&http::Request<()>, &mut http::Response<String>);

fn hello(_request: &http::Request<()>, response: &mut http::Response<String>) {
    *response.body_mut() = "hello from foo".to_string();
}

fn other(_request: &http::Request<()>, response: &mut http::Response<String>) {
    *response.body_mut() = "hello from other".to_string();
}

#[test]
fn creates_map_with_var_variable_infos() {
    let map = PathUtils::get_variable_info("foo/:uid/bar/:groupid");

    assert_eq!(map.len(), 2);
    assert_eq!(map.get("uid"), Some(0));
    assert_eq!(map.get("groupid"), Some(1));
}

#[test]
fn creates_regex_with_captures() {
    let regex = PathUtils::create_regex("foo/:uid/bar/:groupid").unwrap();
    assert_eq!(regex.is_match("foo/4711/bar/5490"), true);

    let caps = regex.captures("foo/4711/bar/5490").unwrap();

    assert_eq!(caps[1], Some("4711".to_string()));
    assert_eq!(caps[2], Some("5490".to_string()));
    assert_eq!(regex.is_match("foo/"), false);
}

#[test]
fn can_match_var_routes() {
    let route_store: &mut Router<Handler> = &mut Router::new();

    route_store.add_route("/foo/:userid".to_string(), hello as Handler).unwrap();
    route_store.add_route("/bar".to_string(), hello as Handler).unwrap();

    let route_result = route_store.match_route("/foo/4711".to_string()).unwrap();
    let route = route_result.route;

    assert_eq!(route_result.params.get("userid"), Some(&"4711".to_string()));

    // the route has identified the variable
    assert_eq!(route.variables.len(), 1);
    assert_eq!(route.variables.get("userid"), Some(0));

    let route_result = route_store.match_route("/bar/4711".to_string());
    let result = match route_result {
        Some(_) => true,
        None => false,
    };
    assert_eq!(result, false);

    let route_result = route_store.match_route("/foo".to_string());
    let result = match route_result {
        Some(_) => true,
        None => false,
    };
    assert_eq!(result, false);
}

#[test]
fn matched_handler_is_the_registered_one() {
    let mut router: Router<Handler> = Router::new();
    router.add_route("/foo/:userid".to_string(), hello as Handler).unwrap();
    router.add_route("/other".to_string(), other as Handler).unwrap();
    let found = router.match_route("/other".to_string()).unwrap();
    assert_eq!(found.index, 1);
    let request = http::Request::new(());
    let mut response = http::Response::new(String::new());
    (found.route.handler)(&request, &mut response);
    assert_eq!(response.body(), "hello from other");
}

#[test]
fn repeated_name_takes_last_position() {
    let map = PathUtils::get_variable_info("/:a/:b/:a");
    assert_eq!(map.len(), 2);
    assert_eq!(map.get("a"), Some(2));
    assert_eq!(map.get("b"), Some(1));
    assert_eq!(map.entry(0), ("a", 2));
    assert_eq!(map.entry(1), ("b", 1));
}

#[test]
fn variable_positions_count_all_tokens() {
    let map = PathUtils::get_variable_info("/:x/:y/:x/:z");
    assert_eq!(map.len(), 3);
    assert_eq!(map.get("x"), Some(2));
    assert_eq!(map.get("y"), Some(1));
    assert_eq!(map.get("z"), Some(3));
    assert_eq!(map.get("w"), None);
}

#[test]
fn pattern_without_variables_has_empty_index() {
    let map = PathUtils::get_variable_info("/plain/path");
    assert_eq!(map.len(), 0);
    let empty = PathUtils::get_variable_info("");
    assert_eq!(empty.len(), 0);
}

#[test]
fn lone_colon_is_literal() {
    let map = PathUtils::get_variable_info("/a:/b/:");
    assert_eq!(map.len(), 0);
    let re = PathUtils::create_regex("/a:/b/:").unwrap();
    assert_eq!(re.as_str(), "^/a:/b/:$");
    assert!(re.is_match("/a:/b/:"));
}

#[test]
fn name_stops_at_non_name_character() {
    let map = PathUtils::get_variable_info("/:user.json/:a_b-c9");
    assert_eq!(map.len(), 2);
    assert_eq!(map.get("user"), Some(0));
    assert_eq!(map.get("a_b-c9"), Some(1));
}

#[test]
fn regex_text_replaces_tokens_and_anchors() {
    let re = PathUtils::create_regex("foo/:uid/bar/:groupid").unwrap();
    assert_eq!(re.as_str(), "^foo/([a-zA-Z0-9_-]+)/bar/([a-zA-Z0-9_-]+)$");
    let plain = PathUtils::create_regex("/bar").unwrap();
    assert_eq!(plain.as_str(), "^/bar$");
}

#[test]
fn variable_segments_match_any_name_run() {
    let re = PathUtils::create_regex("/users/:id/posts/:post_id").unwrap();
    assert!(re.is_match("/users/x-1/posts/abc_9"));
    assert!(re.is_match("/users/A/posts/Z"));
    assert!(!re.is_match("/users//posts/abc"));
    assert!(!re.is_match("/users/a/b/posts/abc"));
    assert!(!re.is_match("/users/x/posts/abc/extra"));
    assert!(!re.is_match("/prefix/users/x/posts/abc"));
}

#[test]
fn captures_absent_where_no_match() {
    let re = PathUtils::create_regex("/foo/:id").unwrap();
    assert_eq!(re.captures("/bar/1"), None);
    let caps = re.captures("/foo/42").unwrap();
    assert_eq!(caps.len(), 2);
    assert_eq!(caps[0], Some("/foo/42".to_string()));
    assert_eq!(caps[1], Some("42".to_string()));
}

#[test]
fn malformed_pattern_is_rejected() {
    let err = PathUtils::create_regex("/foo(/:id").unwrap_err();
    assert_eq!(err, CompileError { pattern: "/foo(/:id".to_string() });

    let mut router: Router<Handler> = Router::new();
    router.add_route("/ok".to_string(), hello as Handler).unwrap();
    let result = router.add_route("/foo(/:id".to_string(), hello as Handler);
    assert_eq!(result, Err(CompileError { pattern: "/foo(/:id".to_string() }));
    assert_eq!(router.routes.len(), 1);
    assert_eq!(router.routes[0].path, "/ok");
}

#[test]
fn earlier_registration_wins() {
    let mut router: Router<Handler> = Router::new();
    router.add_route("/foo/:id".to_string(), hello as Handler).unwrap();
    router.add_route("/foo/:name".to_string(), other as Handler).unwrap();
    let found = router.match_route("/foo/7".to_string()).unwrap();
    assert_eq!(found.index, 0);
    assert_eq!(found.route.path, "/foo/:id");
    assert_eq!(found.params.get("id"), Some(&"7".to_string()));
    assert_eq!(found.params.get("name"), None);

    let mut reversed: Router<Handler> = Router::new();
    reversed.add_route("/foo/:name".to_string(), other as Handler).unwrap();
    reversed.add_route("/foo/:id".to_string(), hello as Handler).unwrap();
    let found = reversed.match_route("/foo/7".to_string()).unwrap();
    assert_eq!(found.index, 0);
    assert_eq!(found.params.get("name"), Some(&"7".to_string()));
}

#[test]
fn duplicate_patterns_are_kept() {
    let mut router: Router<Handler> = Router::new();
    router.add_route("/same".to_string(), hello as Handler).unwrap();
    router.add_route("/same".to_string(), other as Handler).unwrap();
    assert_eq!(router.routes.len(), 2);
    assert_eq!(router.match_route("/same".to_string()).unwrap().index, 0);
}

#[test]
fn empty_table_finds_nothing() {
    let router: Router<Handler> = Router::new();
    assert!(router.match_route("/".to_string()).is_none());
    assert!(router.match_route(String::new()).is_none());
    assert!(router.match_route("/foo/4711".to_string()).is_none());
}

#[test]
fn resolving_twice_gives_equal_results() {
    let mut router: Router<Handler> = Router::new();
    router.add_route("/a/:x/:y".to_string(), hello as Handler).unwrap();
    router.add_route("/b".to_string(), other as Handler).unwrap();
    let first = router.match_route("/a/1/2".to_string()).unwrap();
    let second = router.match_route("/a/1/2".to_string()).unwrap();
    assert_eq!(first.index, second.index);
    assert_eq!(first.route.path, second.route.path);
    assert_eq!(first.params, second.params);
    assert_eq!(first.params.get("x"), Some(&"1".to_string()));
    assert_eq!(first.params.get("y"), Some(&"2".to_string()));
    assert!(router.match_route("/c".to_string()).is_none());
    assert!(router.match_route("/c".to_string()).is_none());
}

#[test]
fn repeated_variable_binds_last_occurrence() {
    let mut router: Router<Handler> = Router::new();
    router.add_route("/:id/and/:id".to_string(), hello as Handler).unwrap();
    let found = router.match_route("/one/and/two".to_string()).unwrap();
    assert_eq!(found.params.len(), 1);
    assert_eq!(found.params.get("id"), Some(&"two".to_string()));
}

#[test]
fn no_variables_gives_empty_params() {
    let mut router: Router<Handler> = Router::new();
    router.add_route("/bar".to_string(), hello as Handler).unwrap();
    let found = router.match_route("/bar".to_string()).unwrap();
    assert!(found.params.is_empty());
}

#[test]
fn bind_params_without_groups_is_empty() {
    let vars = PathUtils::get_variable_info("/:a/:b");
    let params = bind_params(&vars, &None);
    assert_eq!(params.len(), 0);
}

#[test]
fn bind_params_uses_group_after_position() {
    let vars = PathUtils::get_variable_info("/:a/:b");
    let groups = Some(vec![Some("/x/y".to_string()), Some("x".to_string()), None]);
    let params = bind_params(&vars, &groups);
    assert_eq!(params.len(), 2);
    assert_eq!(params.get("a"), Some(&"x".to_string()));
    assert_eq!(params.get("b"), Some(&String::new()));
}

#[test]
fn bind_params_short_groups_give_empty_text() {
    let vars = PathUtils::get_variable_info("/:a/:b/:c");
    let groups = Some(vec![Some("/p/q/r".to_string()), Some("p".to_string())]);
    let params = bind_params(&vars, &groups);
    assert_eq!(params.get("a"), Some(&"p".to_string()));
    assert_eq!(params.get("b"), Some(&String::new()));
    assert_eq!(params.get("c"), Some(&String::new()));
}

#[test]
fn variable_map_assign_overwrites_in_place() {
    let mut map = VariableMap::new();
    map.assign("a".to_string(), 0);
    map.assign("b".to_string(), 1);
    map.assign("a".to_string(), 2);
    assert_eq!(map.len(), 2);
    assert_eq!(map.entry(0), ("a", 2));
    assert_eq!(map.entry(1), ("b", 1));
}
