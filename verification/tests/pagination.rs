use thrash::client::{paged_path, str_contains_char, str_eq, u64_to_dec, Authentication, Line, LinePage, Page, PageFetcher};

#[test]
fn pagination_completeness() {
    let mut fetcher: PageFetcher<String> = PageFetcher::new();
    let mut pages = vec![
        Page {
            size: 2,
            limit: 1000,
            is_last_page: false,
            values: vec!["a".to_string(), "b".to_string()],
            start: 0,
        },
        Page {
            size: 1,
            limit: 1000,
            is_last_page: true,
            values: vec!["c".to_string()],
            start: 2,
        },
    ]
    .into_iter();
    let mut requests = 0;
    let mut seen_paths: Vec<String> = Vec::new();
    while !fetcher.is_done() {
        seen_paths.push(fetcher.request_path("things"));
        requests += 1;
        fetcher.accept(pages.next().unwrap());
    }
    assert_eq!(requests, 2);
    assert_eq!(
        seen_paths,
        vec![
            "things?limit=1000&start=0".to_string(),
            "things?limit=1000&start=2".to_string()
        ]
    );
    assert_eq!(
        fetcher.into_values(),
        vec!["a".to_string(), "b".to_string(), "c".to_string()]
    );
}

#[test]
fn pagination_terminates_on_last_page_flag() {
    let mut fetcher: PageFetcher<String> = PageFetcher::new();
    let mut requests = 0;
    while !fetcher.is_done() {
        let _ = fetcher.request_path("things");
        requests += 1;
        fetcher.accept(Page {
            size: 0,
            limit: 1000,
            is_last_page: true,
            values: Vec::new(),
            start: 0,
        });
    }
    assert_eq!(requests, 1);
    assert!(fetcher.into_values().is_empty());
}

#[test]
fn pagination_polls_empty_non_last_page_again() {
    let mut fetcher: PageFetcher<u64> = PageFetcher::new();
    let mut requests = 0;
    fetcher.accept(Page {
        size: 0,
        limit: 1000,
        is_last_page: false,
        values: Vec::new(),
        start: 0,
    });
    requests += 1;
    assert!(!fetcher.is_done());
    fetcher.accept(Page {
        size: 0,
        limit: 1000,
        is_last_page: true,
        values: Vec::new(),
        start: 0,
    });
    requests += 1;
    assert!(fetcher.is_done());
    assert_eq!(requests, 2);
    assert!(fetcher.into_values().is_empty());
}

#[test]
fn paged_path_appends_query() {
    assert_eq!(paged_path("rest/api/1.0/projects", 0), "rest/api/1.0/projects?limit=1000&start=0");
    assert_eq!(paged_path("rest/api/1.0/projects", 2500), "rest/api/1.0/projects?limit=1000&start=2500");
}

#[test]
fn paged_path_continues_existing_query() {
    assert_eq!(paged_path("things?filter=x", 42), "things?filter=x&limit=1000&start=42");
}

#[test]
fn decimal_rendering() {
    assert_eq!(u64_to_dec(0), "0");
    assert_eq!(u64_to_dec(7), "7");
    assert_eq!(u64_to_dec(1000), "1000");
    assert_eq!(u64_to_dec(u64::MAX), "18446744073709551615");
}

#[test]
fn line_page_becomes_generic_page() {
    let page = LinePage {
        lines: vec![
            Line { text: "line1".to_string() },
            Line { text: "line2".to_string() },
        ],
        start: 0,
        size: 2,
        is_last_page: true,
    };
    let generic = page.into_page();
    assert_eq!(generic.values, vec!["line1".to_string(), "line2".to_string()]);
    assert!(generic.is_last_page);
    assert_eq!(generic.size, 2);
    assert_eq!(generic.start, 0);
}

#[test]
fn string_helpers() {
    assert!(str_eq("abc", "abc"));
    assert!(!str_eq("abc", "abd"));
    assert!(!str_eq("abc", "ab"));
    assert!(str_contains_char("a?b", '?'));
    assert!(!str_contains_char("ab", '?'));
}

#[test]
fn authentication_holds_credentials() {
    let auth = Authentication::new("user".to_string(), "password".to_string());
    assert_eq!(auth.username, "user");
    assert_eq!(auth.password, "password");
}
