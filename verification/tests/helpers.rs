use site_compiler::helpers::{crate_link, EmbedCache};

#[test]
fn a_link_without_version_names_the_latest() {
    assert_eq!(
        crate_link("serde", None),
        "[serde](https://docs.rs/serde/latest) ![](/static/crate-small.svg)"
    );
}

#[test]
fn a_link_with_a_version_names_it() {
    assert_eq!(
        crate_link("serde", Some("1.0.200")),
        "[serde](https://docs.rs/serde/1.0.200) ![](/static/crate-small.svg)"
    );
    assert_eq!(
        crate_link("tokio-util", Some("latest")),
        "[tokio-util](https://docs.rs/tokio-util/latest) ![](/static/crate-small.svg)"
    );
}

#[test]
fn a_link_takes_the_name_as_it_is() {
    assert_eq!(crate_link("", Some("")), "[](https://docs.rs//) ![](/static/crate-small.svg)");
}

#[test]
fn a_new_cache_holds_nothing() {
    let cache = EmbedCache::new();
    assert_eq!(cache.lookup("p"), None);
    assert_eq!(cache.lookup(""), None);
}

#[test]
fn a_stored_text_is_found_under_its_path() {
    let mut cache = EmbedCache::new();
    assert_eq!(cache.store("p", "text of p".to_string()), "text of p");
    assert_eq!(cache.lookup("p"), Some("text of p".to_string()));
    assert_eq!(cache.lookup("p"), Some("text of p".to_string()));
}

#[test]
fn the_cache_goes_by_the_letters_of_the_path() {
    let mut cache = EmbedCache::new();
    cache.store("snippets/a.md", "a".to_string());
    assert_eq!(cache.lookup("./snippets/a.md"), None);
    assert_eq!(cache.lookup("snippets//a.md"), None);
    assert_eq!(cache.lookup("snippets/a.md/"), None);
    assert_eq!(cache.lookup("Snippets/a.md"), None);
    assert_eq!(cache.lookup("snippets/a.md"), Some("a".to_string()));
}

#[test]
fn the_first_text_under_a_path_stays() {
    let mut cache = EmbedCache::new();
    assert_eq!(cache.store("p", "first".to_string()), "first");
    assert_eq!(cache.store("p", "second".to_string()), "first");
    assert_eq!(cache.lookup("p"), Some("first".to_string()));
}

#[test]
fn storing_under_one_path_touches_no_other() {
    let mut cache = EmbedCache::new();
    cache.store("p", "text of p".to_string());
    cache.store("q", "text of q".to_string());
    assert_eq!(cache.lookup("p"), Some("text of p".to_string()));
    assert_eq!(cache.lookup("q"), Some("text of q".to_string()));
    assert_eq!(cache.lookup("r"), None);
}
