use blueprint::blueprint::bindings::{iter_alias_binds, Alias, Binding, BindingEnumerator};
use blueprint::blueprint::locator::Locator;

fn alias(name: &str, paths: &[&str]) -> Alias {
    Alias {
        name: name.to_string(),
        candidates: paths.iter().map(|path| Locator::packed("pack", path)).collect(),
    }
}

fn drain(enumerator: &mut BindingEnumerator) -> Vec<Binding> {
    let mut all = Vec::new();
    while let Some(binding) = enumerator.next_binding() {
        all.push(binding);
    }
    all
}

fn paths(binding: &Binding) -> Vec<(String, String)> {
    binding.entries.iter().map(|(name, locator)| (name.clone(), locator.path.clone())).collect()
}

#[test]
fn product_of_two_and_three_has_six_bindings() {
    let mut enumerator = iter_alias_binds(vec![
        alias("bg", &["b0", "b1"]),
        alias("fg", &["f0", "f1", "f2"]),
    ]);
    let all = drain(&mut enumerator);
    assert_eq!(all.len(), 6);
    let seen: Vec<Vec<(String, String)>> = all.iter().map(paths).collect();
    let pair = |b: &str, f: &str| {
        vec![("bg".to_string(), b.to_string()), ("fg".to_string(), f.to_string())]
    };
    assert_eq!(
        seen,
        vec![
            pair("b0", "f0"),
            pair("b0", "f1"),
            pair("b0", "f2"),
            pair("b1", "f0"),
            pair("b1", "f1"),
            pair("b1", "f2"),
        ]
    );
}

#[test]
fn bindings_have_no_duplicates() {
    let mut enumerator = iter_alias_binds(vec![
        alias("a", &["1", "2", "3"]),
        alias("b", &["x", "y"]),
        alias("c", &["p", "q"]),
    ]);
    let all: Vec<Vec<(String, String)>> = drain(&mut enumerator).iter().map(paths).collect();
    assert_eq!(all.len(), 12);
    for i in 0..all.len() {
        for j in 0..i {
            assert_ne!(all[i], all[j]);
        }
    }
}

#[test]
fn empty_candidate_list_gives_no_binding() {
    let mut enumerator = iter_alias_binds(vec![
        alias("bg", &["b0", "b1"]),
        alias("none", &[]),
        alias("fg", &["f0"]),
    ]);
    assert!(enumerator.next_binding().is_none());
    assert!(enumerator.next_binding().is_none());
}

#[test]
fn no_alias_gives_no_binding() {
    let mut enumerator = iter_alias_binds(Vec::new());
    assert!(enumerator.next_binding().is_none());
}

#[test]
fn enumerator_stays_finished_and_starts_over() {
    let mut enumerator = iter_alias_binds(vec![alias("bg", &["b0", "b1"])]);
    assert_eq!(drain(&mut enumerator).len(), 2);
    assert!(enumerator.next_binding().is_none());
    assert!(enumerator.next_binding().is_none());
    enumerator.restart();
    let again: Vec<Vec<(String, String)>> = drain(&mut enumerator).iter().map(paths).collect();
    assert_eq!(
        again,
        vec![
            vec![("bg".to_string(), "b0".to_string())],
            vec![("bg".to_string(), "b1".to_string())],
        ]
    );
}

#[test]
fn keys_follow_the_aliases() {
    let enumerator = iter_alias_binds(vec![alias("bg", &["b0"]), alias("fg", &["f0"])]);
    assert_eq!(enumerator.keys(), vec!["bg".to_string(), "fg".to_string()]);
}

#[test]
fn binding_lookup_finds_the_first_entry() {
    let binding = Binding {
        entries: vec![
            ("bg".to_string(), Locator::packed("p", "one")),
            ("fg".to_string(), Locator::asset("two")),
            ("bg".to_string(), Locator::packed("p", "three")),
        ],
    };
    assert_eq!(binding.get("bg").unwrap().path, "one");
    assert_eq!(binding.get("fg").unwrap().path, "two");
    assert!(binding.get("fg").unwrap().pack.is_none());
    assert!(binding.get("missing").is_none());
}

#[test]
fn locator_container_names() {
    assert_eq!(Locator::packed("trees", "oak.png").container(), "pack-trees");
    assert_eq!(Locator::asset("oak").container(), "assets");
    assert!(Locator::packed("a", "b").same(&Locator::packed("a", "b")));
    assert!(!Locator::packed("a", "b").same(&Locator::asset("b")));
    assert!(!Locator::packed("a", "b").same(&Locator::packed("a", "c")));
    assert_eq!(
        Locator::packed("trees", "oak.png").cache_key(),
        ("pack-trees".to_string(), "oak.png".to_string())
    );
    assert_eq!(Locator::asset("oak").cache_key(), ("assets".to_string(), "oak".to_string()));
    assert_ne!(Locator::packed("a", "b").cache_key(), Locator::asset("b").cache_key());
}
