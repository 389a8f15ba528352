use ten_graph::location::{
    classify_parsed_import, get_base_dir_of_uri, get_real_path_from_import_uri, join_paths,
    parent_of_path, plan_join, sanitize_windows_local_path, JoinPlan, ResolveError,
};
use ten_graph::path::normalize_path;
use ten_graph::text::{chars_of, contains_chars, decimal_string, replace_chars, string_of};
use ten_graph::location::decide_base_dir;
use ten_graph::urls::{UrlParts, MAX_URL_CHARS};

fn chars(s: &str) -> Vec<char> {
    s.chars().collect()
}

#[test]
fn normalize_drops_cur_dir_and_resolves_parent_dir() {
    assert_eq!(normalize_path("/a/./b/../c"), "/a/c");
    assert_eq!(normalize_path("a/b/../../c.json"), "c.json");
    assert_eq!(normalize_path("./a"), "a");
    assert_eq!(normalize_path("a//b/"), "a/b");
}

#[test]
fn normalize_parent_of_nothing_is_a_no_op() {
    assert_eq!(normalize_path("../a"), "a");
    assert_eq!(normalize_path("/../a"), "/a");
    assert_eq!(normalize_path("a/../.."), "");
    assert_eq!(normalize_path("/.."), "/");
}

#[test]
fn normalize_edge_cases() {
    assert_eq!(normalize_path(""), "");
    assert_eq!(normalize_path("/"), "/");
    assert_eq!(normalize_path("//a"), "/a");
    assert_eq!(normalize_path("..."), "...");
    assert_eq!(normalize_path("a/.b/..c"), "a/.b/..c");
}

#[test]
fn normalize_agrees_with_component_walk() {
    // The same walk written with the standard library's path components.
    fn by_components(p: &str) -> String {
        let mut out = std::path::PathBuf::new();
        for c in std::path::Path::new(p).components() {
            match c {
                std::path::Component::RootDir => out.push("/"),
                std::path::Component::Normal(s) => out.push(s),
                std::path::Component::ParentDir => {
                    out.pop();
                }
                _ => {}
            }
        }
        out.to_string_lossy().to_string()
    }
    for p in [
        "", "/", "a", "/a", "a/b", "a/../b", "/a/../../b", "./a/./b/.", "a//b///c/", "../..",
        "/a/b/c/../../d", "x/./y/../z.json", "//x", "a/.../b",
    ] {
        assert_eq!(normalize_path(p), by_components(p), "path {:?}", p);
    }
}

#[test]
fn text_round_trip_and_search() {
    assert_eq!(string_of(&chars_of("héllo/wörld")), "héllo/wörld");
    assert!(contains_chars(&chars("a${x}b"), &chars("${x}")));
    assert!(!contains_chars(&chars("a${x"), &chars("${x}")));
    assert!(contains_chars(&chars("abc"), &chars("")));
    assert_eq!(replace_chars(&chars("aXbXXc"), &chars("X"), &chars("--")), chars("a--b----c"));
    assert_eq!(replace_chars(&chars("aaa"), &chars("aa"), &chars("b")), chars("ba"));
}

#[test]
fn relative_reference_under_a_path() {
    assert_eq!(get_real_path_from_import_uri("b.json", Some("/a"), None).unwrap(), "/a/b.json");
    assert_eq!(
        get_real_path_from_import_uri("../b.json", Some("/a/c"), None).unwrap(),
        "/a/b.json"
    );
    assert_eq!(
        get_real_path_from_import_uri("./x/../b.json", Some("rel/dir/"), None).unwrap(),
        "rel/dir/b.json"
    );
}

#[test]
fn relative_reference_under_a_url() {
    assert_eq!(
        get_real_path_from_import_uri("../b.json", Some("file:///a/c/"), None).unwrap(),
        "file:///a/b.json"
    );
    assert_eq!(
        get_real_path_from_import_uri("../interface.json", Some("file:///home/user/tmp"), None)
            .unwrap(),
        "file:///home/user/interface.json"
    );
    assert_eq!(
        get_real_path_from_import_uri("interface.json", Some("http://localhost:8080/api/v1"), None)
            .unwrap(),
        "http://localhost:8080/api/v1/interface.json"
    );
}

#[test]
fn app_base_dir_token_is_substituted() {
    assert_eq!(
        get_real_path_from_import_uri("${app_base_dir}/x.json", None, Some("/root")).unwrap(),
        "file:///root/x.json"
    );
    assert_eq!(
        get_real_path_from_import_uri("${app_base_dir}/a/../x.json", Some("/ignored"), Some("/root"))
            .unwrap(),
        "file:///root/x.json"
    );
    assert_eq!(
        get_real_path_from_import_uri("${app_base_dir}/${app_base_dir}", None, Some("/r")).unwrap(),
        "file:///r/r"
    );
}

#[test]
fn absolute_path_without_scheme_is_refused() {
    assert!(matches!(
        get_real_path_from_import_uri("/a/b.json", Some("/base"), None),
        Err(ResolveError::AbsolutePathNotSupported)
    ));
}

#[test]
fn token_errors() {
    assert!(matches!(
        get_real_path_from_import_uri("${app_base_dir}/x.json", Some("/base"), None),
        Err(ResolveError::AppBaseDirRequired)
    ));
    assert!(matches!(
        get_real_path_from_import_uri("x/${app_base_dir}/y.json", Some("/base"), Some("/root")),
        Err(ResolveError::AppBaseDirNotAtStart)
    ));
    // Without the token nothing else excuses a rooted path.
    assert!(matches!(
        get_real_path_from_import_uri("/${app_base_di}/y.json", None, Some("/root")),
        Err(ResolveError::AbsolutePathNotSupported)
    ));
}

#[test]
fn urls_are_returned_as_they_stand() {
    assert_eq!(
        get_real_path_from_import_uri("http://example.com/a/../b.json", None, None).unwrap(),
        "http://example.com/a/../b.json"
    );
    assert_eq!(
        get_real_path_from_import_uri("https://example.com", Some("/ignored"), None).unwrap(),
        "https://example.com"
    );
    // The scheme is read in lower case.
    assert_eq!(
        get_real_path_from_import_uri("HTTP://example.com/x", None, None).unwrap(),
        "HTTP://example.com/x"
    );
    assert_eq!(
        get_real_path_from_import_uri("file:///a/b.json", None, None).unwrap(),
        "file:///a/b.json"
    );
}

#[test]
fn other_schemes_are_refused() {
    match get_real_path_from_import_uri("ftp://example.com/a.json", Some("/base"), None) {
        Err(ResolveError::UnsupportedScheme { scheme }) => assert_eq!(scheme, "ftp"),
        other => panic!("unexpected outcome {:?}", other.is_ok()),
    }
}

#[test]
fn base_dir_is_required_for_relative_references() {
    assert!(matches!(
        get_real_path_from_import_uri("b.json", None, None),
        Err(ResolveError::BaseDirRequired)
    ));
    assert!(matches!(
        get_real_path_from_import_uri("b.json", Some(""), None),
        Err(ResolveError::BaseDirRequired)
    ));
}

#[test]
fn drive_letters_are_paths() {
    assert_eq!(
        get_real_path_from_import_uri("C:/x/../y.json", None, None).unwrap(),
        "file://C:/y.json"
    );
    // Two characters are too short for a drive path; the letter is then a
    // scheme of one letter, and the text a relative path.
    assert_eq!(get_real_path_from_import_uri("c:", Some("/base"), None).unwrap(), "/base/c:");
}

#[test]
fn join_failure_is_reported() {
    match get_real_path_from_import_uri("http://[::1", Some("http://example.com/a/"), None) {
        Err(ResolveError::JoinFailed { reason }) => assert!(!reason.is_empty()),
        other => panic!("unexpected outcome {:?}", other.is_ok()),
    }
}

#[test]
fn classification_of_parsed_references() {
    let parts = |scheme: &str| UrlParts { scheme: scheme.to_string(), path: "/p".to_string() };
    let text = || "the text".to_string();
    assert_eq!(classify_parsed_import(text(), Some(parts("https"))), Some(Ok(text())));
    assert_eq!(classify_parsed_import(text(), Some(parts("file"))), Some(Ok(text())));
    assert_eq!(classify_parsed_import(text(), Some(parts("c"))), None);
    assert_eq!(classify_parsed_import(text(), None), None);
    assert_eq!(
        classify_parsed_import(text(), Some(parts("ws"))),
        Some(Err(ResolveError::UnsupportedScheme { scheme: "ws".to_string() }))
    );
    // A digit is no drive letter, and neither are two letters.
    assert_eq!(
        classify_parsed_import(text(), Some(parts("1"))),
        Some(Err(ResolveError::UnsupportedScheme { scheme: "1".to_string() }))
    );
    assert_eq!(
        classify_parsed_import(text(), Some(parts("cd"))),
        Some(Err(ResolveError::UnsupportedScheme { scheme: "cd".to_string() }))
    );
}

#[test]
fn join_plans() {
    let parts =
        |scheme: &str, path: &str| UrlParts { scheme: scheme.to_string(), path: path.to_string() };
    assert!(matches!(plan_join("x", None), JoinPlan::AsPath));
    assert!(matches!(plan_join("c:/d", Some(parts("c", "/d"))), JoinPlan::AsPath));
    assert!(matches!(plan_join("http://h/d/", Some(parts("http", "/d/"))), JoinPlan::AsUrl));
    match plan_join("http://h/d", Some(parts("http", "/d"))) {
        JoinPlan::AsUrlUnder { path } => assert_eq!(path, "/d/"),
        _ => panic!("the path must be extended"),
    }
    match plan_join("data:x", Some(parts("data", ""))) {
        JoinPlan::AsUrlUnder { path } => assert_eq!(path, "/"),
        _ => panic!("the path must be extended"),
    }
}

#[test]
fn joined_paths() {
    assert_eq!(join_paths(&chars("a"), &chars("b")), chars("a/b"));
    assert_eq!(join_paths(&chars("a/"), &chars("b")), chars("a/b"));
    assert_eq!(join_paths(&chars(""), &chars("b")), chars("b"));
    assert_eq!(join_paths(&chars("a"), &chars("/b")), chars("/b"));
}

#[test]
fn parents_of_paths() {
    let parent = |p: &str| parent_of_path(&chars(p)).map(|v| v.into_iter().collect::<String>());
    assert_eq!(parent("/a/b/c.json"), Some("/a/b".to_string()));
    assert_eq!(parent("a/b.json"), Some("a".to_string()));
    assert_eq!(parent("b.json"), Some("".to_string()));
    assert_eq!(parent("/b.json"), Some("/".to_string()));
    assert_eq!(parent("a//b/"), Some("a".to_string()));
    assert_eq!(parent("/"), None);
    assert_eq!(parent(""), None);
    // A `.` segment is passed over, unless it stands at the front.
    assert_eq!(parent("a/."), Some("".to_string()));
    assert_eq!(parent("a/./b"), Some("a".to_string()));
    assert_eq!(parent("./a"), Some(".".to_string()));
    assert_eq!(parent("."), Some("".to_string()));
    assert_eq!(parent("/."), None);
    assert_eq!(parent("a/b/.."), Some("a/b".to_string()));
}

#[test]
fn base_dirs_of_locations() {
    assert_eq!(get_base_dir_of_uri("file:///a/c/b.json").unwrap(), "file:///a/c");
    assert_eq!(
        get_base_dir_of_uri("http://example.com/api/v1/g.json?x=1").unwrap(),
        "http://example.com/api/v1?x=1"
    );
    assert_eq!(get_base_dir_of_uri("/a/b/c.json").unwrap(), "/a/b");
    assert_eq!(get_base_dir_of_uri("a/c.json").unwrap(), "a");
    assert!(matches!(
        get_base_dir_of_uri("ftp://example.com/a"),
        Err(ResolveError::UnsupportedScheme { .. })
    ));
    assert!(matches!(get_base_dir_of_uri("/"), Err(ResolveError::NoParentDirectory)));
}

#[test]
fn nested_documents_resolve_relative_to_their_own_location() {
    let outer = get_real_path_from_import_uri("sub/graph.json", Some("file:///app"), None).unwrap();
    assert_eq!(outer, "file:///app/sub/graph.json");
    let dir = get_base_dir_of_uri(&outer).unwrap();
    assert_eq!(
        get_real_path_from_import_uri("inner.json", Some(&dir), None).unwrap(),
        "file:///app/sub/inner.json"
    );
}

#[test]
fn path_resolution_examples() {
    assert_eq!(get_real_path_from_import_uri("b.json", Some("/a"), None).unwrap(), "/a/b.json");
    assert_eq!(
        get_real_path_from_import_uri("../b.json", Some("file:///a/c/"), None).unwrap(),
        "file:///a/b.json"
    );
    assert_eq!(
        get_real_path_from_import_uri("${app_base_dir}/x.json", None, Some("/root")).unwrap(),
        "file:///root/x.json"
    );
    assert_eq!(
        get_real_path_from_import_uri("/abs/x.json", None, None),
        Err(ResolveError::AbsolutePathNotSupported)
    );
}

#[test]
fn verbatim_prefixes_are_taken_off() {
    assert_eq!(sanitize_windows_local_path(None), None);
    assert_eq!(
        sanitize_windows_local_path(Some("\\\\?\\C:\\a\\b.json")),
        Some("C:/a/b.json".to_string())
    );
    assert_eq!(
        sanitize_windows_local_path(Some("\\\\?\\UNC\\server\\share\\x")),
        Some("//server/share/x".to_string())
    );
    assert_eq!(sanitize_windows_local_path(Some("a\\b/c")), Some("a/b/c".to_string()));
    assert_eq!(sanitize_windows_local_path(Some("")), Some("".to_string()));
}

#[test]
fn numbers_in_decimal() {
    assert_eq!(decimal_string(0), "0");
    assert_eq!(decimal_string(7), "7");
    assert_eq!(decimal_string(10), "10");
    assert_eq!(decimal_string(1234567890), "1234567890");
    assert_eq!(decimal_string(usize::MAX), usize::MAX.to_string());
}

#[test]
fn resolution_errors_in_words() {
    assert_eq!(
        ResolveError::UnsupportedScheme { scheme: "ftp".to_string() }.to_string(),
        "Unsupported URL scheme 'ftp'"
    );
    assert_eq!(
        ResolveError::JoinFailed { reason: "invalid IPv6 address".to_string() }.to_string(),
        "Failed to resolve relative path against base URL: invalid IPv6 address"
    );
    assert!(ResolveError::AbsolutePathNotSupported.to_string().contains("file:// URI"));
    assert!(ResolveError::BaseDirRequired.to_string().contains("base_dir"));
    assert!(ResolveError::AppBaseDirRequired.to_string().contains("app_base_dir"));
    assert!(ResolveError::AppBaseDirNotAtStart.to_string().contains("beginning"));
    assert!(ResolveError::TooLong.to_string().contains("too long"));
    assert!(ResolveError::NoParentDirectory.to_string().contains("parent"));
}

#[test]
fn parents_and_joins_agree_with_the_standard_library_on_normal_paths() {
    for p in [
        "/a/b/c.json", "a/b.json", "b.json", "/b.json", "x/y/z", "/x", "", "/", "//", "a/.",
        "a/./b", "./a", ".", "..", "a/..", "/.", "./.", "a/./", "a//b/", "/./a", "./", ".a",
        "./a/.", "a/b/./.", "/a/.", "//a", "a/.b", "../a", "..a/b", "/..", "x/./y/.//",
    ] {
        let expected = std::path::Path::new(p).parent().map(|q| q.to_string_lossy().to_string());
        let got = parent_of_path(&chars(p)).map(|v| v.into_iter().collect::<String>());
        assert_eq!(got, expected, "path {:?}", p);
    }
    for (base, rel) in [("a", "b"), ("a/", "b"), ("", "b"), ("/a/b", "../c"), ("a", "/b")] {
        let expected = std::path::Path::new(base).join(rel).to_string_lossy().to_string();
        let got: String = join_paths(&chars(base), &chars(rel)).into_iter().collect();
        assert_eq!(got, expected, "base {:?}, rel {:?}", base, rel);
    }
}

#[test]
fn normalization_is_idempotent_on_examples() {
    for p in ["", "/", "a/../b", "/a/./b/..", "../../x", "//a//b//", "a/b/c"] {
        let once = normalize_path(p);
        assert_eq!(normalize_path(&once), once, "path {:?}", p);
        assert!(once.split('/').all(|s| s != "." && s != ".."), "path {:?}", p);
    }
}

#[test]
fn overlong_base_urls_are_refused() {
    let parts =
        |scheme: &str, path: &str| UrlParts { scheme: scheme.to_string(), path: path.to_string() };
    let long = format!("http://h/{}", "a".repeat(MAX_URL_CHARS));
    assert_eq!(plan_join(&long, Some(parts("http", "/a"))), JoinPlan::TooLong);
    // A path that ends with a slash needs no rewriting.
    assert_eq!(plan_join(&long, Some(parts("http", "/a/"))), JoinPlan::AsUrl);
    assert_eq!(plan_join(&long, None), JoinPlan::AsPath);
    assert_eq!(decide_base_dir(&long, Some(parts("https", "/a"))), Some(Err(ResolveError::TooLong)));
    assert_eq!(decide_base_dir("http://h/a", Some(parts("https", "/a"))), None);
    assert_eq!(
        decide_base_dir("gopher://h/a", Some(parts("gopher", "/a"))),
        Some(Err(ResolveError::UnsupportedScheme { scheme: "gopher".to_string() }))
    );
    assert_eq!(decide_base_dir("a/b", None), Some(Ok("a".to_string())));
}
