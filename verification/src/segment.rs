//! Paths as the library sees them: a sequence of segments.
use std::path::{Component, PathBuf};
use vstd::prelude::*;
use vstd::string::StringExecFns;

verus! {

/// A path of the platform, as `std` holds it.
#[verifier::external_type_specification]
#[verifier::external_body]
pub struct ExPathBuf(PathBuf);

/// One component of a path.
pub enum Segment {
    /// What stands before the root on platforms that have such a thing, as a
    /// drive letter does.
    Prefix(String),
    /// The root of the file system.
    Root,
    /// The directory itself, written `.`.
    Current,
    /// The directory above, written `..`.
    Parent,
    /// The name of a directory or a file.
    Name(String),
}

impl Segment {
    /// The text by which the segment shows in a path. The root shows as the
    /// empty text: the separator before the next segment stands for it.
    pub open spec fn text(self) -> Seq<char> {
        match self {
            Segment::Prefix(s) => s@,
            Segment::Root => Seq::empty(),
            Segment::Current => seq!['.'],
            Segment::Parent => seq!['.', '.'],
            Segment::Name(s) => s@,
        }
    }

    /// Whether two segments are of one kind and hold the same text.
    pub open spec fn same(self, other: Segment) -> bool {
        match (self, other) {
            (Segment::Prefix(a), Segment::Prefix(b)) => a@ == b@,
            (Segment::Root, Segment::Root) => true,
            (Segment::Current, Segment::Current) => true,
            (Segment::Parent, Segment::Parent) => true,
            (Segment::Name(a), Segment::Name(b)) => a@ == b@,
            _ => false,
        }
    }

    /// The text by which the segment shows in a path.
    pub fn as_text(&self) -> (shown: &str)
        ensures
            shown@ == self.text(),
    {
        proof {
            reveal_strlit("");
            reveal_strlit(".");
            reveal_strlit("..");
        }
        match self {
            Segment::Prefix(s) => s.as_str(),
            Segment::Root => {
                let shown = "";
                assert(shown@ =~= Seq::<char>::empty());
                shown
            },
            Segment::Current => {
                let shown = ".";
                assert(shown@ =~= seq!['.']);
                shown
            },
            Segment::Parent => {
                let shown = "..";
                assert(shown@ =~= seq!['.', '.']);
                shown
            },
            Segment::Name(s) => s.as_str(),
        }
    }

    /// Compares two segments.
    pub fn is_same(&self, other: &Segment) -> (same: bool)
        ensures
            same == self.same(*other),
    {
        match (self, other) {
            (Segment::Prefix(a), Segment::Prefix(b)) => *a == *b,
            (Segment::Root, Segment::Root) => true,
            (Segment::Current, Segment::Current) => true,
            (Segment::Parent, Segment::Parent) => true,
            (Segment::Name(a), Segment::Name(b)) => *a == *b,
            _ => false,
        }
    }
}

/// Whether `path` begins with the segments of `home`.
pub open spec fn begins_with(path: Seq<Segment>, home: Seq<Segment>) -> bool {
    &&& home.len() <= path.len()
    &&& forall|i: int| 0 <= i < home.len() ==> (#[trigger] path[i]).same(home[i])
}

/// Whether `path` starts at the root.
pub open spec fn is_rooted(path: Seq<Segment>) -> bool {
    path.len() > 0 && path[0] is Root
}

/// The texts of the segments of `path`, in order.
pub open spec fn segment_texts(path: Seq<Segment>) -> Seq<Seq<char>> {
    path.map_values(|s: Segment| s.text())
}

/// Whether `symbol` takes the place of `home` at the head of `path`: where
/// the path begins with the home directory, unless what is left after it
/// starts at the root and so stands alone.
pub open spec fn takes_alias(path: Seq<Segment>, home: Seq<Segment>) -> bool {
    begins_with(path, home) && !is_rooted(path.skip(home.len() as int))
}

/// The texts by which `path` shows once `symbol` stands for the home
/// directory: the symbol first, then what follows `home` in the path; the
/// path as it is where it does not take the alias.
pub open spec fn aliased(path: Seq<Segment>, home: Seq<Segment>, symbol: Seq<char>) -> Seq<
    Seq<char>,
> {
    if takes_alias(path, home) {
        seq![symbol] + segment_texts(path.skip(home.len() as int))
    } else {
        segment_texts(path)
    }
}

/// `parts` in a row with `separator` between each two neighbours.
pub open spec fn joined(parts: Seq<Seq<char>>, separator: Seq<char>) -> Seq<char>
    decreases parts.len(),
{
    if parts.len() == 0 {
        Seq::empty()
    } else if parts.len() == 1 {
        parts[0]
    } else {
        joined(parts.drop_last(), separator) + separator + parts.last()
    }
}

/// What each string of `v` holds.
pub open spec fn contents(v: Seq<String>) -> Seq<Seq<char>> {
    v.map_values(|p: String| p@)
}

/// Decides whether `path` begins with `home`.
pub fn starts_with(path: &Vec<Segment>, home: &Vec<Segment>) -> (begins: bool)
    ensures
        begins == begins_with(path@, home@),
{
    if home.len() > path.len() {
        return false;
    }
    let mut at: usize = 0;
    while at < home.len()
        invariant
            at <= home.len() <= path.len(),
            forall|i: int| 0 <= i < at ==> (#[trigger] path[i]).same(home[i]),
        decreases home.len() - at,
    {
        if !path[at].is_same(&home[at]) {
            return false;
        }
        at = at + 1;
    }
    true
}

/// Puts `parts` in a row with `separator` between each two neighbours.
pub fn join(parts: &Vec<String>, separator: &str) -> (row: String)
    ensures
        row@ == joined(contents(parts@), separator@),
{
    let mut row = String::new();
    let mut at: usize = 0;
    while at < parts.len()
        invariant
            at <= parts.len(),
            row@ == joined(contents(parts@).take(at as int), separator@),
        decreases parts.len() - at,
    {
        proof {
            let before = contents(parts@).take(at as int);
            let after = contents(parts@).take(at + 1);
            assert(after.drop_last() =~= before);
            assert(after.last() == parts[at as int]@);
            assert(Seq::<char>::empty() + parts[at as int]@ =~= parts[at as int]@);
        }
        if at > 0 {
            row.append(separator);
        }
        row.append(parts[at].as_str());
        at = at + 1;
    }
    proof {
        assert(contents(parts@).take(at as int) =~= contents(parts@));
    }
    row
}

/// The segments that `std` finds in a path, from first to last.
pub uninterp spec fn path_segments(path: PathBuf) -> Seq<Segment>;

/// Walks `path` with `std::path::Path::components` and hands each component
/// out as a segment of the same kind, its text read with
/// `std::ffi::OsStr::to_string_lossy`. The contract gives the outcome its
/// name and claims no more of it.
#[verifier::external_body]
pub(crate) fn segments_of(path: &PathBuf) -> (found: Vec<Segment>)
    ensures
        found@ == path_segments(*path),
{
    path.components().map(|c| match c {
        Component::Prefix(p) => Segment::Prefix(p.as_os_str().to_string_lossy().into_owned()),
        Component::RootDir => Segment::Root,
        Component::CurDir => Segment::Current,
        Component::ParentDir => Segment::Parent,
        Component::Normal(name) => Segment::Name(name.to_string_lossy().into_owned()),
    }).collect()
}

/// Asks `dirs::home_dir` for the home directory of the user. Nothing is
/// claimed of the answer: it is the environment's.
#[verifier::external_body]
pub(crate) fn home_dir() -> (home: Option<PathBuf>) {
    dirs::home_dir()
}

/// The home directory as segments; none where it cannot be found. Which
/// directory that is rests with the environment; the segments are those that
/// `home_of` gives for what was found.
pub fn get_home() -> (home: Vec<Segment>)
    ensures
        exists|found: Option<PathBuf>| home@ == home_of(found),
{
    let found = home_dir();
    let home = home_segments(&found);
    assert(home@ == home_of(found));
    home
}

/// The segments of the home directory, given what was found of it: those of
/// the path, or none where no directory was found.
pub open spec fn home_of(found: Option<PathBuf>) -> Seq<Segment> {
    match found {
        Some(path) => path_segments(path),
        None => Seq::empty(),
    }
}

/// Turns what was found of the home directory into segments.
pub fn home_segments(found: &Option<PathBuf>) -> (home: Vec<Segment>)
    ensures
        home@ == home_of(*found),
{
    match found {
        Some(path) => segments_of(path),
        None => Vec::new(),
    }
}

} // verus!
