use path_compactor::segment::{home_segments, join, starts_with};
use path_compactor::{get_home, Compactor, Segment};
use std::path::PathBuf;

fn segments(path: &str) -> Vec<Segment> {
    let mut found = Vec::new();
    if path.starts_with('/') {
        found.push(Segment::Root);
    }
    for (at, piece) in path.split('/').enumerate() {
        match piece {
            "" => {}
            "." if at == 0 => found.push(Segment::Current),
            "." => {}
            ".." => found.push(Segment::Parent),
            other => found.push(Segment::Name(other.to_string())),
        }
    }
    found
}

fn name(text: &str) -> Segment {
    Segment::Name(text.to_string())
}

#[test]
fn home_gives_way_to_the_symbol() {
    let path = segments("/home/example/projects/my-demo-project");
    let home = segments("/home/example");
    let short = Compactor::new().with_separator("/").compact_segments(&path, &home);
    assert_eq!(short, "~/pro/mdp");
}

#[test]
fn home_written_by_hand() {
    let path = vec![Segment::Root, name("home"), name("example"), name("projects"), name("my-demo-project")];
    let home = vec![Segment::Root, name("home"), name("example")];
    let c = Compactor::new().with_separator("/");
    assert_eq!(c.compact_segments(&path, &home), "~/pro/mdp");
    assert_eq!(c.compact_segments(&home, &home), "~");
}

#[test]
fn other_separator_and_no_home() {
    let path = segments("one/two/three");
    let home = segments("/home/example");
    let short = Compactor::new().with_separator("+").compact_segments(&path, &home);
    assert_eq!(short, "one+two+thr");
}

#[test]
fn absolute_keeps_the_home() {
    let path = segments("/home/example/projects/my-demo-project");
    let home = segments("/home/example");
    let c = Compactor::new().with_separator("/").with_absolute(true);
    assert_eq!(c.compact_segments(&path, &home), "/home/exa/pro/mdp");
    assert_eq!(
        c.compact_path(PathBuf::from("/home/example/projects/my-demo-project")),
        "/home/exa/pro/mdp"
    );
}

#[test]
fn home_must_match_whole_segments() {
    let path = segments("/home/example-two/projects");
    let home = segments("/home/example");
    let short = Compactor::new().with_separator("/").compact_segments(&path, &home);
    assert_eq!(short, "/home/et/pro");
}

#[test]
fn path_shorter_than_home() {
    let path = segments("/home");
    let home = segments("/home/example");
    let short = Compactor::new().with_separator("/").compact_segments(&path, &home);
    assert_eq!(short, "/home");
}

#[test]
fn symbol_is_compacted_too() {
    let path = segments("/home/example/projects");
    let home = segments("/home/example");
    let c = Compactor::new().with_separator("/").with_symbol("my-home-dir".to_string());
    assert_eq!(c.compact_segments(&path, &home), "mhd/pro");
    let c = Compactor::new().with_separator("/").with_symbol("HOME".to_string());
    assert_eq!(c.compact_segments(&path, &home), "HOME/pro");
}

#[test]
fn unknown_home() {
    let c = Compactor::new().with_separator("/");
    let none: Vec<Segment> = Vec::new();
    assert_eq!(c.compact_segments(&segments("one/two/three"), &none), "~/one/two/thr");
    assert_eq!(c.compact_segments(&segments("/usr/local/lib"), &none), "/usr/loc/lib");
    assert_eq!(c.compact_segments(&none, &none), "~");
}

#[test]
fn empty_path_gives_empty_text() {
    let home = segments("/home/example");
    let none: Vec<Segment> = Vec::new();
    assert_eq!(Compactor::new().compact_segments(&none, &home), "");
    assert_eq!(Compactor::new().with_absolute(true).compact_path(PathBuf::new()), "");
}

#[test]
fn root_alone() {
    let home = segments("/home/example");
    let c = Compactor::new().with_separator("/");
    assert_eq!(c.compact_segments(&segments("/"), &home), "");
    assert_eq!(c.compact_segments(&segments("/usr"), &home), "/usr");
}

#[test]
fn dots_are_segments() {
    let home = segments("/home/example");
    let c = Compactor::new().with_separator("/");
    assert_eq!(c.compact_segments(&segments("../some-cool-word"), &home), "../scw");
    assert_eq!(c.compact_segments(&segments("./some-cool-word/."), &home), "./scw");
}

#[test]
fn long_separator() {
    let home = segments("/home/example");
    let c = Compactor::new().with_separator(" > ").with_threshold(1).with_limit(1);
    assert_eq!(c.compact_segments(&segments("/home/example/projects/some-cool-word"), &home), "~ > p > s");
    let c = Compactor::new().with_separator("");
    assert_eq!(c.compact_segments(&segments("one/two/three"), &home), "onetwothr");
}

#[test]
fn default_compactor_joins_by_the_platform_separator() {
    let path = segments("/home/example/projects/my-demo-project");
    let home = segments("/root");
    let expected = ["", "home", "exa", "pro", "mdp"].join(std::path::MAIN_SEPARATOR_STR);
    assert_eq!(Compactor::new().compact_segments(&path, &home), expected);
    assert!(std::path::MAIN_SEPARATOR_STR == "/" || std::path::MAIN_SEPARATOR_STR == "\\");
}

#[test]
fn default_separator_is_the_platform_separator() {
    let home = segments("/home/example");
    let short = Compactor::new().compact_segments(&segments("one/two"), &home);
    assert_eq!(short, format!("one{}two", std::path::MAIN_SEPARATOR));
}

#[test]
fn path_with_the_real_home() {
    let home = get_home();
    match dirs::home_dir() {
        Some(dir) => {
            let c = Compactor::new().with_separator("/");
            let short = c.compact_path(dir.join("some-cool-word"));
            let mut path = get_home();
            path.push(Segment::Name("some-cool-word".to_string()));
            assert_eq!(short, c.compact_segments(&path, &home));
            if !home.is_empty() {
                assert_eq!(short, "~/scw");
            }
        }
        None => assert!(home.is_empty()),
    }
}

#[test]
fn paths_are_split_as_std_splits() {
    let c = Compactor::new().with_separator("|").with_absolute(true).with_threshold(100);
    assert_eq!(c.compact_path(PathBuf::from("/a/../b/./c")), "|a|..|b|c");
    assert_eq!(c.compact_path(PathBuf::from("./a//b/")), ".|a|b");
    assert_eq!(c.compact_path(PathBuf::from("a")), "a");
    assert_eq!(c.compact_path(PathBuf::from("/")), "");
    assert_eq!(c.compact_path(PathBuf::from("")), "");
}

#[test]
fn segment_texts() {
    assert_eq!(Segment::Root.as_text(), "");
    assert_eq!(Segment::Current.as_text(), ".");
    assert_eq!(Segment::Parent.as_text(), "..");
    assert_eq!(name("abc").as_text(), "abc");
    assert_eq!(Segment::Prefix("C:".to_string()).as_text(), "C:");
}

#[test]
fn segment_comparison() {
    assert!(Segment::Root.is_same(&Segment::Root));
    assert!(name("a").is_same(&name("a")));
    assert!(!name("a").is_same(&name("b")));
    assert!(!name("..").is_same(&Segment::Parent));
    assert!(!Segment::Prefix("a".to_string()).is_same(&name("a")));
    assert!(Segment::Prefix("a".to_string()).is_same(&Segment::Prefix("a".to_string())));
    assert!(!Segment::Current.is_same(&Segment::Parent));
}

#[test]
fn prefix_of_segments() {
    let none: Vec<Segment> = Vec::new();
    assert!(starts_with(&segments("/a/b"), &segments("/a")));
    assert!(starts_with(&segments("/a/b"), &segments("/a/b")));
    assert!(starts_with(&segments("/a/b"), &none));
    assert!(!starts_with(&segments("/a"), &segments("/a/b")));
    assert!(!starts_with(&segments("/a/b"), &segments("a")));
    assert!(!starts_with(&segments("/ab/c"), &segments("/a")));
}

#[test]
fn joining() {
    let parts = vec!["a".to_string(), "".to_string(), "bc".to_string()];
    assert_eq!(join(&parts, "/"), "a//bc");
    assert_eq!(join(&parts, ""), "abc");
    assert_eq!(join(&parts[..1].to_vec(), "/"), "a");
    assert_eq!(join(&Vec::new(), "/"), "");
    assert_eq!(join(&parts, "::"), parts.join("::"));
}

#[test]
fn home_that_was_not_found_has_no_segments() {
    assert!(home_segments(&None).is_empty());
}

#[test]
fn home_that_was_found_is_split() {
    let home = home_segments(&Some(PathBuf::from("/home/example")));
    assert_eq!(home.len(), 3);
    assert!(matches!(home[0], Segment::Root));
    assert!(matches!(&home[1], Segment::Name(n) if n == "home"));
    assert!(matches!(&home[2], Segment::Name(n) if n == "example"));
    let path = segments("/home/example/projects/my-demo-project");
    let short = Compactor::new().with_separator("/").compact_segments(&path, &home);
    assert_eq!(short, "~/pro/mdp");
}

#[test]
fn home_is_what_the_environment_gives() {
    let home = get_home();
    let expected = home_segments(&dirs::home_dir());
    assert_eq!(home.len(), expected.len());
    for (a, b) in home.iter().zip(expected.iter()) {
        assert!(a.is_same(b));
    }
}
