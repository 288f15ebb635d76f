use path_compactor::Compactor;
use std::path::{Path, PathBuf, MAIN_SEPARATOR};

#[test]
fn test_path() {
    let p = Path::new("/home/example/projects/my-demo-project").to_path_buf();
    let expected = vec!["", "home", "exa", "pro", "mdp"];
    let expected = expected.join(&MAIN_SEPARATOR.to_string());
    let compacted = Compactor::new().compact_path(p);
    assert_eq!(compacted, expected);
}

#[test]
fn test_frag_kebab() {
    assert_eq!(Compactor::new().compact_fragment("some-cool-word"), "scw");
}

#[test]
fn test_frag_snake() {
    assert_eq!(Compactor::new().compact_fragment("some_cool_word"), "scw");
}

#[test]
fn test_frag_camel() {
    assert_eq!(Compactor::new().compact_fragment("someCoolWord"), "sCW");
}

#[test]
fn test_threshold_single() {
    let input = "abcdefghijklmnopqrstuvwxyz";
    assert_eq!(
        Compactor::new()
            .with_threshold(10)
            .compact_fragment(input),
        "abc",
    );
    assert_eq!(
        Compactor::new()
            .with_threshold(100)
            .compact_fragment(input),
        input,
    );
}

#[test]
fn test_threshold_words() {
    let input = "a few words here";
    assert_eq!(
        Compactor::new()
            .with_threshold(10)
            .compact_fragment(input),
            "afw",
    );
}

#[test]
fn test_size_single() {
    let input = "abcdefghijklmnopqrstuvwxyz";
    assert_eq!(
        Compactor::new()
            .with_limit(1)
            .compact_fragment(input),
        "a",
    );
    assert_eq!(
        Compactor::new()
            .with_limit(5)
            .compact_fragment(input),
        "abcde",
    );
}

#[test]
fn test_size_words() {
    let input = "a few words here";
    assert_eq!(
        Compactor::new()
            .with_threshold(1)
            .with_limit(2)
            .compact_fragment(input),
        "af",
    );
    assert_eq!(
        Compactor::new()
            .with_threshold(1)
            .with_limit(10)
            .compact_fragment(input),
        "afwh",
    );
}

#[test]
fn test_delimiter() {
    assert_eq!(
        Compactor::new()
            .with_separator("+")
            .compact_path(PathBuf::from("one/two/three")),
        "one+two+thr",
    );
}
