use blueprint::blueprint::locator::Locator;
use blueprint::blueprint::resolver::{
    expand_ref, expand_refs, match_paths_to_glob, parse_reference, resolve_with, select_matching,
    Catalog, CatalogPack, PackListing, ParsedReference, ReferenceError,
};

fn catalog() -> Catalog {
    Catalog {
        packs: vec![
            CatalogPack {
                pack: "packA".to_string(),
                listing: PackListing::Listed(vec![
                    "a.png".to_string(),
                    "b.jpg".to_string(),
                    "c.png".to_string(),
                ]),
            },
            CatalogPack { pack: "down".to_string(), listing: PackListing::Unavailable },
        ],
    }
}

fn paths(locators: &[Locator]) -> Vec<String> {
    locators.iter().map(|locator| locator.path.clone()).collect()
}

#[test]
fn glob_reference_resolves_in_catalog_order() {
    let found = expand_ref("packA:*.png", &catalog()).unwrap();
    assert_eq!(paths(&found), vec!["a.png".to_string(), "c.png".to_string()]);
    assert!(found.iter().all(|locator| locator.pack.as_deref() == Some("packA")));
}

#[test]
fn plain_reference_names_one_asset() {
    let found = expand_ref("logo", &catalog()).unwrap();
    assert_eq!(found.len(), 1);
    assert_eq!(found[0].path, "logo");
    assert!(found[0].pack.is_none());
}

#[test]
fn unknown_pack_is_an_unknown_reference_kind() {
    assert_eq!(
        expand_ref("nowhere:*.png", &catalog()).unwrap_err(),
        ReferenceError::UnknownReferenceKind
    );
    assert_eq!(
        expand_ref(":*.png", &catalog()).unwrap_err(),
        ReferenceError::UnknownReferenceKind
    );
}

#[test]
fn broken_pattern_is_an_invalid_glob() {
    assert_eq!(expand_ref("packA:[a", &catalog()).unwrap_err(), ReferenceError::InvalidGlob);
    assert_eq!(expand_ref("down:[a", &catalog()).unwrap_err(), ReferenceError::InvalidGlob);
}

#[test]
fn unlisted_pack_is_catalog_unavailable() {
    assert_eq!(
        expand_ref("down:*.png", &catalog()).unwrap_err(),
        ReferenceError::CatalogUnavailable
    );
}

#[test]
fn pattern_without_match_gives_an_empty_list() {
    assert!(expand_ref("packA:*.gif", &catalog()).unwrap().is_empty());
}

#[test]
fn references_are_joined_in_order() {
    let references =
        vec!["packA:*.jpg".to_string(), "solo".to_string(), "packA:*.png".to_string()];
    let found = expand_refs(&references, &catalog()).unwrap();
    assert_eq!(
        paths(&found),
        vec!["b.jpg".to_string(), "solo".to_string(), "a.png".to_string(), "c.png".to_string()]
    );
    let failing = vec!["solo".to_string(), "gone:*".to_string(), "packA:[".to_string()];
    assert_eq!(
        expand_refs(&failing, &catalog()).unwrap_err(),
        ReferenceError::UnknownReferenceKind
    );
    assert!(expand_refs(&Vec::new(), &catalog()).unwrap().is_empty());
}

#[test]
fn references_split_at_the_first_colon() {
    match parse_reference("pack:a:b") {
        ParsedReference::Scoped { pack, glob } => {
            assert_eq!(pack, "pack");
            assert_eq!(glob, "a:b");
        }
        ParsedReference::Direct(_) => panic!("a reference with a colon is scoped"),
    }
    match parse_reference("plain") {
        ParsedReference::Direct(path) => assert_eq!(path, "plain"),
        ParsedReference::Scoped { .. } => panic!("a reference without a colon is direct"),
    }
    match parse_reference("tail:") {
        ParsedReference::Scoped { pack, glob } => {
            assert_eq!(pack, "tail");
            assert_eq!(glob, "");
        }
        ParsedReference::Direct(_) => panic!("a reference with a colon is scoped"),
    }
}

#[test]
fn verdicts_pick_the_paths() {
    let listing = vec!["x".to_string(), "y".to_string(), "z".to_string()];
    let chosen = select_matching("p", &listing, &vec![true, false, true]);
    assert_eq!(paths(&chosen), vec!["x".to_string(), "z".to_string()]);
    assert_eq!(chosen[0].pack.as_deref(), Some("p"));
    let verdicts = vec![false, true, false];
    let resolved = resolve_with("packA:anything", &catalog(), Some(&verdicts)).unwrap();
    assert_eq!(paths(&resolved), vec!["b.jpg".to_string()]);
    assert_eq!(
        resolve_with("packA:anything", &catalog(), None).unwrap_err(),
        ReferenceError::InvalidGlob
    );
}

#[test]
fn long_pattern_is_compiled() {
    let long = "a".repeat(5000);
    let listing = vec![long.clone(), "b".to_string()];
    let found = match_paths_to_glob("p", &long, &listing).unwrap();
    assert_eq!(found.len(), 1);
    assert_eq!(found[0].path, long);
    let braces = "[{]".repeat(300);
    let listing = vec!["{".repeat(300), "{".repeat(299)];
    let found = match_paths_to_glob("p", &braces, &listing).unwrap();
    assert_eq!(paths(&found), vec!["{".repeat(300)]);
}

fn nested(depth: usize) -> String {
    let mut pattern = String::new();
    for _ in 0..depth {
        pattern.push_str("{a,");
    }
    pattern.push('b');
    for _ in 0..depth {
        pattern.push('}');
    }
    pattern
}

#[test]
fn pattern_nested_beyond_the_compiler_is_an_invalid_glob() {
    let listing = vec!["a".to_string(), "b".to_string(), "c".to_string()];
    let found = match_paths_to_glob("p", &nested(100), &listing).unwrap();
    assert_eq!(paths(&found), vec!["a".to_string(), "b".to_string()]);
    for depth in [150, 250, 251, 1000, 5000, 50_000, 400_000] {
        assert_eq!(
            match_paths_to_glob("p", &nested(depth), &listing).unwrap_err(),
            ReferenceError::InvalidGlob
        );
    }
    let three = format!("{}{}", "{a,b".repeat(100), "}".repeat(100));
    assert_eq!(
        match_paths_to_glob("p", &three, &listing).unwrap_err(),
        ReferenceError::InvalidGlob
    );
    assert!(blueprint::blueprint::resolver::is_askable(&nested(250)));
    assert!(!blueprint::blueprint::resolver::is_askable(&nested(251)));
    assert!(blueprint::blueprint::resolver::is_askable(&"{}".repeat(1000)));
    assert!(blueprint::blueprint::resolver::is_askable(&"[{]".repeat(1000)));
    assert!(blueprint::blueprint::resolver::is_askable(&"[!{]".repeat(1000)));
    assert!(blueprint::blueprint::resolver::is_askable(&"[]{]".repeat(1000)));
    assert!(!blueprint::blueprint::resolver::is_askable(&"[]]{".repeat(251)));
}

#[test]
fn backslash_patterns_are_asked_too() {
    let listing = vec!["a*".to_string(), "ab".to_string(), "a".to_string()];
    let found = match_paths_to_glob("p", "a\\*", &listing).unwrap();
    assert!(!found.is_empty());
    assert!(found.iter().any(|locator| locator.path == "a*"));
    assert!(found.iter().all(|locator| locator.pack.as_deref() == Some("p")));
}

#[test]
fn glob_matching_uses_the_pattern() {
    let listing = vec!["dir/a.png".to_string(), "b.png".to_string(), "c.txt".to_string()];
    let found = match_paths_to_glob("p", "*.png", &listing).unwrap();
    assert_eq!(paths(&found), vec!["dir/a.png".to_string(), "b.png".to_string()]);
    let found = match_paths_to_glob("p", "c.*", &listing).unwrap();
    assert_eq!(paths(&found), vec!["c.txt".to_string()]);
    assert_eq!(
        match_paths_to_glob("p", "{a,b", &listing).unwrap_err(),
        ReferenceError::InvalidGlob
    );
}

#[test]
fn long_pattern_accepts_what_a_short_one_would() {
    let stem = "a".repeat(6000);
    let pattern = format!("{stem}*.png");
    let listing = vec![
        format!("{stem}.png"),
        format!("{stem}.jpg"),
        format!("{stem}/deep/x.png"),
        "a.png".to_string(),
    ];
    let found = match_paths_to_glob("p", &pattern, &listing).unwrap();
    assert_eq!(paths(&found), vec![format!("{stem}.png"), format!("{stem}/deep/x.png")]);
    assert!(found.iter().all(|locator| locator.pack.as_deref() == Some("p")));
}

#[test]
fn empty_alternatives_nested_too_deep_are_refused_by_the_library() {
    let listing = vec!["a".to_string()];
    let deep = format!("{}{}", "{".repeat(251), "}".repeat(251));
    assert!(!blueprint::blueprint::resolver::is_askable(&deep));
    assert_eq!(
        match_paths_to_glob("p", &deep, &listing).unwrap_err(),
        ReferenceError::InvalidGlob
    );
    let bearable = format!("{}{}", "{".repeat(250), "}".repeat(250));
    assert!(blueprint::blueprint::resolver::is_askable(&bearable));
}
