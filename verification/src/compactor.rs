//! The compactor: its settings, and the compaction of whole paths.
use crate::fragment::{compact_fragment, compacted};
use crate::segment::{
    aliased, contents, get_home, join, joined, path_segments, segment_texts, segments_of,
    starts_with, takes_alias, Segment,
};
use std::path::PathBuf;
use vstd::prelude::*;

verus! {

/// The settings of a compactor, as contracts speak of them.
pub struct Settings {
    /// The number of characters up to which a fragment stays as it is.
    pub threshold: nat,
    /// The number of words, or of characters, kept of a longer fragment.
    pub limit: nat,
    /// What stands for the home directory.
    pub symbol: Seq<char>,
    /// Whether the home directory stays written out.
    pub absolute: bool,
    /// What stands between the fragments of the result.
    pub separator: Seq<char>,
}

/// Shortens paths for display.
pub struct Compactor {
    threshold: usize,
    limit: usize,
    symbol: String,
    absolute: bool,
    separator: String,
}

/// Reads `std::path::MAIN_SEPARATOR_STR`, the separator of the platform. The
/// contract claims that it is one of the two that `std` documents: `/`, or
/// `\` where the platform writes paths with it.
#[verifier::external_body]
fn main_separator() -> (separator: &'static str)
    ensures
        separator@ == seq!['/'] || separator@ == seq!['\\'],
{
    std::path::MAIN_SEPARATOR_STR
}

impl View for Compactor {
    type V = Settings;

    closed spec fn view(&self) -> Settings {
        Settings {
            threshold: self.threshold as nat,
            limit: self.limit as nat,
            symbol: self.symbol@,
            absolute: self.absolute,
            separator: self.separator@,
        }
    }
}

impl Settings {
    /// What one fragment is compacted to under these settings.
    pub open spec fn fragment(self, fragment: Seq<char>) -> Seq<char> {
        compacted(fragment, self.threshold as int, self.limit as int)
    }

    /// The texts by which `path` shows before they are compacted: with the
    /// symbol for the home directory, unless that stays written out.
    pub open spec fn shown(self, path: Seq<Segment>, home: Seq<Segment>) -> Seq<Seq<char>> {
        if self.absolute {
            segment_texts(path)
        } else {
            aliased(path, home, self.symbol)
        }
    }

    /// What `path` is compacted to when the home directory is `home`: each
    /// text compacted by itself, and the results joined by the separator.
    pub open spec fn path(self, path: Seq<Segment>, home: Seq<Segment>) -> Seq<char> {
        joined(self.shown(path, home).map_values(|t: Seq<char>| self.fragment(t)), self.separator)
    }
}

impl Compactor {
    /// A compactor with the usual settings: fragments of more than 4
    /// characters are cut to 3, `~` stands for the home directory, and the
    /// separator is the platform's.
    pub fn new() -> (made: Self)
        ensures
            made@.threshold == 4,
            made@.limit == 3,
            made@.symbol == seq!['~'],
            !made@.absolute,
            made@.separator == seq!['/'] || made@.separator == seq!['\\'],
    {
        let symbol = "~";
        proof {
            reveal_strlit("~");
            assert(symbol@ =~= seq!['~']);
        }
        Self {
            threshold: 4,
            limit: 3,
            symbol: symbol.to_owned(),
            absolute: false,
            separator: main_separator().to_owned(),
        }
    }

    /// The same compactor with another threshold.
    pub fn with_threshold(self, threshold: usize) -> (made: Self)
        ensures
            made@ == (Settings { threshold: threshold as nat, ..self@ }),
    {
        let mut made = self;
        made.threshold = threshold;
        made
    }

    /// The same compactor with another limit.
    pub fn with_limit(self, limit: usize) -> (made: Self)
        ensures
            made@ == (Settings { limit: limit as nat, ..self@ }),
    {
        let mut made = self;
        made.limit = limit;
        made
    }

    /// The same compactor with another symbol for the home directory.
    pub fn with_symbol(self, symbol: String) -> (made: Self)
        ensures
            made@ == (Settings { symbol: symbol@, ..self@ }),
    {
        let mut made = self;
        made.symbol = symbol;
        made
    }

    /// The same compactor, told whether the home directory stays written out.
    pub fn with_absolute(self, absolute: bool) -> (made: Self)
        ensures
            made@ == (Settings { absolute, ..self@ }),
    {
        let mut made = self;
        made.absolute = absolute;
        made
    }

    /// The same compactor with another separator.
    pub fn with_separator(self, separator: &str) -> (made: Self)
        ensures
            made@ == (Settings { separator: separator@, ..self@ }),
    {
        let mut made = self;
        made.separator = separator.to_owned();
        made
    }

    /// Compacts one fragment of a path.
    pub fn compact_fragment(&self, fragment: &str) -> (short: String)
        ensures
            short@ == self@.fragment(fragment@),
            fragment@.len() <= self@.threshold ==> short@ == fragment@,
            fragment@.len() == 0 ==> short@ == Seq::<char>::empty(),
    {
        compact_fragment(fragment, self.threshold, self.limit)
    }

    /// Compacts a path given as segments, with `home` as the home directory.
    pub fn compact_segments(&self, path: &Vec<Segment>, home: &Vec<Segment>) -> (short: String)
        ensures
            short@ == self@.path(path@, home@),
    {
        let ghost shown = self@.shown(path@, home@);
        let ghost wanted = shown.map_values(|t: Seq<char>| self@.fragment(t));
        let mut parts: Vec<String> = Vec::new();
        let mut at: usize = 0;
        if !self.absolute && starts_with(path, home) && !(home.len() < path.len() && matches!(
            path[home.len()],
            Segment::Root
        )) {
            assert(takes_alias(path@, home@));
            parts.push(self.compact_fragment(self.symbol.as_str()));
            at = home.len();
        }
        let ghost skipped: int = at - parts.len();
        proof {
            assert(shown.len() == path.len() - skipped);
            assert forall|j: int| parts.len() <= j < shown.len() implies #[trigger] shown[j]
                == path[j + skipped].text() by {
                if parts.len() == 1 {
                    assert(shown[j] == segment_texts(path@.skip(home.len() as int))[j - 1]);
                }
            }
            assert(contents(parts@) =~= wanted.take(parts.len() as int));
        }
        while at < path.len()
            invariant
                at <= path.len(),
                at == parts.len() + skipped,
                wanted == shown.map_values(|t: Seq<char>| self@.fragment(t)),
                shown.len() == path.len() - skipped,
                forall|j: int|
                    at - skipped <= j < shown.len() ==> #[trigger] shown[j] == path[j
                        + skipped].text(),
                contents(parts@) == wanted.take(parts.len() as int),
            decreases path.len() - at,
        {
            let part = self.compact_fragment(path[at].as_text());
            proof {
                assert(shown[at - skipped] == path[at as int].text());
                assert(contents(parts@.push(part)) =~= wanted.take(parts.len() + 1));
            }
            parts.push(part);
            at = at + 1;
        }
        proof {
            assert(wanted.take(parts.len() as int) =~= wanted);
        }
        join(&parts, self.separator.as_str())
    }

    /// Compacts `path`, with the home directory of the user as the
    /// environment gives it. The home directory is not looked for where it
    /// stays written out.
    pub fn compact_path(&self, path: PathBuf) -> (short: String)
        ensures
            exists|home: Seq<Segment>| short@ == self@.path(path_segments(path), home),
            self@.absolute ==> short@ == self@.path(path_segments(path), Seq::empty()),
    {
        let segments = segments_of(&path);
        let home = if self.absolute {
            Vec::new()
        } else {
            get_home()
        };
        self.compact_segments(&segments, &home)
    }
}

} // verus!
