use brim::models::BrewPackage;
use brim::utilities::brew_recipe_lock::{
    canonical_recipe_json, digest_hex, join_path, lock_file_content, lockfile_path, parse_lock,
    recipe_content_hash, recipe_identity, update_lock, verify_or_update_lock, LockError,
};
use brim::utilities::name_order::sort_packages_by_name;

fn pkg(name: &str) -> BrewPackage {
    BrewPackage {
        name: name.to_string(),
        category: None,
        url: None,
        cask: None,
        version: None,
    }
}

fn same(sources: &[String]) -> Vec<String> {
    sources.to_vec()
}

#[test]
fn canonical_json_is_deterministic() {
    let a = BrewPackage {
        name: "foo".to_string(),
        category: Some("dev".to_string()),
        url: None,
        cask: Some(false),
        version: None,
    };
    let b = BrewPackage {
        name: "bar".to_string(),
        category: None,
        url: None,
        cask: None,
        version: Some("1.0".to_string()),
    };
    let packages = vec![a, b];
    let j1 = canonical_recipe_json(&packages);
    let j2 = canonical_recipe_json(&packages);
    assert_eq!(j1, j2);
}

#[test]
fn canonical_json_has_sorted_keys_and_escapes() {
    let a = BrewPackage {
        name: "fo\"o".to_string(),
        category: Some("dev".to_string()),
        url: None,
        cask: Some(false),
        version: None,
    };
    assert_eq!(
        canonical_recipe_json(&vec![a, pkg("bar")]),
        "[{\"cask\":false,\"category\":\"dev\",\"name\":\"fo\\\"o\",\"url\":null,\"version\":null},{\"cask\":null,\"category\":null,\"name\":\"bar\",\"url\":null,\"version\":null}]"
    );
    assert_eq!(canonical_recipe_json(&vec![]), "[]");
}

#[test]
fn hash_is_stable() {
    let packages = vec![pkg("test")];
    let sources = vec!["https://example.com/recipe.json".to_string()];
    let h1 = recipe_content_hash(&packages, &sources, &same(&sources)).ok().unwrap();
    let h2 = recipe_content_hash(&packages, &sources, &same(&sources)).ok().unwrap();
    assert_eq!(h1, h2);
}

#[test]
fn hash_differs_for_same_content_different_source() {
    let packages = vec![pkg("test")];
    let file = vec!["/path/to/recipe.json".to_string()];
    let url = vec!["https://example.com/recipe.json".to_string()];
    let h_file = recipe_content_hash(&packages, &file, &same(&file)).ok().unwrap();
    let h_url = recipe_content_hash(&packages, &url, &same(&url)).ok().unwrap();
    assert_ne!(h_file, h_url, "file vs url should produce different hashes");
}

#[test]
fn hash_has_known_value() {
    let packages = vec![pkg("test")];
    let url = vec!["https://example.com/recipe.json".to_string()];
    assert_eq!(
        recipe_content_hash(&packages, &url, &same(&url)).ok().unwrap(),
        "cc1c7aff6026025174303e0d45023c63cadb0bb3936d4d8b7c365c29dba3c26c"
    );
    assert_eq!(
        digest_hex("abc"),
        "ba7816bf8f01cfea414140de5dae2223b00361a396177a9cb410ff61f20015ad"
    );
}

#[test]
fn hash_ignores_package_order() {
    let sources = vec!["https://example.com/recipe.json".to_string()];
    let a = vec![pkg("wget"), pkg("curl"), pkg("jq")];
    let b = vec![pkg("jq"), pkg("wget"), pkg("curl")];
    assert_eq!(
        recipe_content_hash(&a, &sources, &same(&sources)).ok().unwrap(),
        recipe_content_hash(&b, &sources, &same(&sources)).ok().unwrap()
    );
}

#[test]
fn sort_is_stable_by_name() {
    let a = BrewPackage {
        category: Some("first".to_string()),
        ..pkg("b")
    };
    let b = BrewPackage {
        category: Some("second".to_string()),
        ..pkg("b")
    };
    let sorted = sort_packages_by_name(&vec![a, pkg("c"), b, pkg("a")]);
    let names: Vec<&str> = sorted.iter().map(|p| p.name.as_str()).collect();
    assert_eq!(names, vec!["a", "b", "b", "c"]);
    assert_eq!(sorted[1].category, Some("first".to_string()));
    assert_eq!(sorted[2].category, Some("second".to_string()));
}

#[test]
fn identity_lines() {
    let sources = vec!["https://x/r.json".to_string(), "local.json".to_string()];
    let resolved = vec![String::new(), "/home/u/local.json".to_string()];
    assert_eq!(
        recipe_identity(&sources, &resolved),
        "url:https://x/r.json\nfile:/home/u/local.json"
    );
}

#[test]
fn lockfile_location() {
    let url = vec!["https://example.com/recipe.json".to_string()];
    let p = lockfile_path("/opt/brim", &url, &same(&url)).ok().unwrap();
    assert_eq!(
        p,
        "/opt/brim/recipe-5abf78fa85d5e00156075d20ffd2ba4ccff0095d5b072ccefb498b6c15fee7f1.lock"
    );
    assert_eq!(join_path("/opt/", "x"), "/opt/x");
    assert_eq!(join_path("", "x"), "x");
}

#[test]
fn write_and_read_lock_roundtrip() {
    let hash = "deadbeefcafe1234";
    let content = lock_file_content(hash);
    let stored = parse_lock(&content, "/tmp/brim_test_lock_roundtrip.lock").ok();
    assert_eq!(stored, Some(hash.to_string()));
}

#[test]
fn lock_parsing_edge_cases() {
    assert_eq!(
        parse_lock("# comment\r\nsha256:sha256: abc \r\n", "p").ok(),
        Some("abc".to_string())
    );
    match parse_lock("nothing here", "/x/y.lock") {
        Err(LockError::Parse(m)) => assert_eq!(m, "Invalid lockfile format: /x/y.lock"),
        _ => panic!(),
    }
}

#[test]
fn verify_then_mismatch() {
    let sources = vec!["https://example.com/recipe.json".to_string()];
    let packages = vec![pkg("wget")];
    let h = update_lock(&packages, &sources, &same(&sources)).ok().unwrap();
    let stored = parse_lock(&lock_file_content(&h), "p").ok();
    assert_eq!(
        verify_or_update_lock(&packages, &sources, &same(&sources), stored).ok(),
        Some(h.clone())
    );
    assert!(verify_or_update_lock(&packages, &sources, &same(&sources), None).is_ok());
    let changed = vec![pkg("wget"), pkg("jq")];
    match verify_or_update_lock(&changed, &sources, &same(&sources), Some(h.clone())) {
        Err(LockError::IntegrityMismatch { expected, got }) => {
            assert_eq!(expected, h);
            assert_ne!(got, h);
        }
        _ => panic!("expected a mismatch"),
    }
}

#[test]
fn canonical_json_escapes_control_characters() {
    let a = BrewPackage {
        name: "a\tb\u{1}c\\é".to_string(),
        category: None,
        url: None,
        cask: None,
        version: None,
    };
    assert_eq!(
        canonical_recipe_json(&vec![a]),
        "[{\"cask\":null,\"category\":null,\"name\":\"a\\tb\\u0001c\\\\é\",\"url\":null,\"version\":null}]"
    );
}
