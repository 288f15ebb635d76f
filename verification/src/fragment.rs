//! Shortening one component of a path.
use crate::text::{
    chars_of, is_space, lemma_unbroken_is_one_word, lemma_words_start, split_words, texts, words,
};
use vstd::prelude::*;
use vstd::string::StringExecFns;

verus! {

/// Whether `c` is one of the letters `a` to `z` and `A` to `Z`.
pub open spec fn is_letter(c: char) -> bool {
    'a' <= c <= 'z' || 'A' <= c <= 'Z'
}

/// Whether `c` starts a new word when it follows a letter: a capital from
/// `A` to `Z`, or a digit.
pub open spec fn starts_word(c: char) -> bool {
    'A' <= c <= 'Z' || '0' <= c <= '9'
}

/// Whether `c` stands between two words without belonging to either: one of
/// `-`, `_` and `.`.
pub open spec fn is_delimiter(c: char) -> bool {
    c == '-' || c == '_' || c == '.'
}

/// Whether a word begins at position `at` of `s` because of what stands
/// before it: a letter, followed at `at` by a capital or a digit.
pub open spec fn is_boundary(s: Seq<char>, at: int) -> bool {
    0 < at < s.len() && is_letter(s[at - 1]) && starts_word(s[at])
}

/// What follows position `at` of `s`, with its word boundaries marked: a blank
/// takes the place of each delimiter, and a blank goes before each character
/// at which a word begins.
pub open spec fn marked_from(s: Seq<char>, at: int) -> Seq<char>
    decreases s.len() - at,
{
    if !(0 <= at < s.len()) {
        Seq::empty()
    } else if is_delimiter(s[at]) {
        seq![' '] + marked_from(s, at + 1)
    } else if is_boundary(s, at) {
        seq![' ', s[at]] + marked_from(s, at + 1)
    } else {
        seq![s[at]] + marked_from(s, at + 1)
    }
}

/// `fragment` with its word boundaries marked by blanks.
pub open spec fn marked(fragment: Seq<char>) -> Seq<char> {
    marked_from(fragment, 0)
}

/// Whether `fragment` is of one piece: it holds no delimiter and no white
/// space, and no word begins inside it.
pub open spec fn is_unbroken(fragment: Seq<char>) -> bool {
    forall|i: int|
        0 <= i < fragment.len() ==> !is_delimiter(#[trigger] fragment[i]) && !is_space(fragment[i])
            && !is_boundary(fragment, i)
}

/// The first `limit` of `all`, or all of them where there are fewer.
pub open spec fn kept(all: Seq<Seq<char>>, limit: int) -> Seq<Seq<char>> {
    if limit < all.len() {
        all.take(limit)
    } else {
        all
    }
}

/// The first character of each word, in order.
pub open spec fn initials(words: Seq<Seq<char>>) -> Seq<char> {
    words.map_values(|w: Seq<char>| w[0])
}

/// The short form of a fragment whose boundaries are marked in `marked`.
/// A single word is cut to the first `limit` characters of the fragment, or
/// stands as it is where the fragment is shorter than that; of several words
/// the initials remain.
pub open spec fn abbreviation(fragment: Seq<char>, marked: Seq<char>, limit: int) -> Seq<char> {
    let parts = kept(words(marked), limit);
    if parts.len() == 1 {
        if fragment.len() >= limit {
            fragment.take(limit)
        } else {
            parts[0]
        }
    } else {
        initials(parts)
    }
}

/// What a fragment is compacted to: itself where it has at most `threshold`
/// characters, else its abbreviation.
pub open spec fn compacted(fragment: Seq<char>, threshold: int, limit: int) -> Seq<char> {
    if fragment.len() <= threshold {
        fragment
    } else {
        abbreviation(fragment, marked(fragment), limit)
    }
}

/// Marks the word boundaries of `fragment` by blanks.
pub fn mark(fragment: &str) -> (text: String)
    ensures
        text@ == marked(fragment@),
{
    let chars = chars_of(fragment);
    let blank = " ";
    proof {
        reveal_strlit(" ");
        assert(blank@ =~= seq![' ']);
    }
    let mut text = String::new();
    let mut at: usize = 0;
    while at < chars.len()
        invariant
            chars@ == fragment@,
            at <= chars.len(),
            blank@ == seq![' '],
            text@ + marked_from(fragment@, at as int) == marked(fragment@),
        decreases chars.len() - at,
    {
        let c = chars[at];
        let ghost before = text@;
        let ghost rest = marked_from(fragment@, at + 1);
        if c == '-' || c == '_' || c == '.' {
            text.append(blank);
            assert(text@ + rest =~= before + (seq![' '] + rest));
        } else {
            let one = fragment.substring_char(at, at + 1);
            assert(one@ =~= seq![c]);
            if at > 0 && is_ascii_letter(chars[at - 1]) && (('A' <= c && c <= 'Z') || ('0' <= c
                && c <= '9')) {
                text.append(blank);
                text.append(one);
                assert(text@ + rest =~= before + (seq![' ', c] + rest));
            } else {
                text.append(one);
                assert(text@ + rest =~= before + (seq![c] + rest));
            }
        }
        at = at + 1;
    }
    assert(text@ + Seq::<char>::empty() =~= text@);
    text
}

/// Tests a character for a letter from `a` to `z` or from `A` to `Z`.
pub fn is_ascii_letter(c: char) -> (letter: bool)
    ensures
        letter == is_letter(c),
{
    ('a' <= c && c <= 'z') || ('A' <= c && c <= 'Z')
}

/// Abbreviates `fragment`, given the text in which its word boundaries are
/// marked by white space.
pub fn abbreviate(fragment: &str, marked: &str, limit: usize) -> (short: String)
    ensures
        short@ == abbreviation(fragment@, marked@, limit as int),
{
    let mut parts = split_words(marked);
    parts.truncate(limit);
    proof {
        assert(texts(parts@) =~= kept(words(marked@), limit as int));
        lemma_words_start(marked@, 0);
        assert forall|i: int| 0 <= i < parts.len() implies (#[trigger] parts[i])@.len() > 0 by {
            assert(parts[i]@ == texts(parts@)[i]);
            assert(texts(parts@)[i] == words(marked@)[i]);
        }
    }
    if parts.len() == 1 {
        if fragment.unicode_len() >= limit {
            fragment.substring_char(0, limit).to_owned()
        } else {
            parts[0].to_owned()
        }
    } else {
        let mut short = String::new();
        let mut at: usize = 0;
        while at < parts.len()
            invariant
                at <= parts.len(),
                forall|i: int| 0 <= i < parts.len() ==> (#[trigger] parts[i])@.len() > 0,
                short@ == initials(texts(parts@).take(at as int)),
            decreases parts.len() - at,
        {
            let word = parts[at];
            let first = word.substring_char(0, 1);
            proof {
                assert(first@ =~= seq![word@[0]]);
                assert(initials(texts(parts@).take(at + 1)) =~= initials(
                    texts(parts@).take(at as int),
                ) + seq![word@[0]]);
            }
            short.append(first);
            at = at + 1;
        }
        proof {
            assert(texts(parts@).take(at as int) =~= texts(parts@));
        }
        short
    }
}

/// Compacts one fragment of a path. A fragment of at most `threshold`
/// characters, the empty one among them, comes back as it is. A short form is
/// not a fixed point: where it is longer than the threshold, compacting it
/// once more may shorten it further.
pub fn compact_fragment(fragment: &str, threshold: usize, limit: usize) -> (short: String)
    ensures
        short@ == compacted(fragment@, threshold as int, limit as int),
        fragment@.len() <= threshold ==> short@ == fragment@,
        fragment@.len() == 0 ==> short@ == Seq::<char>::empty(),
{
    if fragment.unicode_len() <= threshold {
        return fragment.to_owned();
    }
    let text = mark(fragment);
    abbreviate(fragment, text.as_str(), limit)
}

/// Marking leaves the rest of a fragment of one piece as it is.
pub proof fn lemma_unbroken_is_unmarked(fragment: Seq<char>, at: int)
    requires
        is_unbroken(fragment),
        0 <= at <= fragment.len(),
    ensures
        marked_from(fragment, at) == fragment.skip(at),
    decreases fragment.len() - at,
{
    if at < fragment.len() {
        lemma_unbroken_is_unmarked(fragment, at + 1);
        assert(!is_delimiter(fragment[at]) && !is_boundary(fragment, at));
        assert(seq![fragment[at]] + fragment.skip(at + 1) =~= fragment.skip(at));
    } else {
        assert(fragment.skip(at) =~= Seq::<char>::empty());
    }
}

/// A fragment of more than `threshold` and of at least `limit` characters
/// whose marked text is a single word is compacted to its first `limit`
/// characters.
pub proof fn lemma_single_word_is_cut(fragment: Seq<char>, threshold: nat, limit: nat)
    requires
        fragment.len() > threshold,
        fragment.len() >= limit,
        words(marked(fragment)).len() == 1,
    ensures
        compacted(fragment, threshold as int, limit as int) == fragment.take(limit as int),
        compacted(fragment, threshold as int, limit as int).len() == limit,
        compacted(fragment, threshold as int, limit as int).is_prefix_of(fragment),
{
    let all = words(marked(fragment));
    let parts = kept(all, limit as int);
    if limit == 0 {
        assert(parts.len() == 0);
        assert(initials(parts) =~= fragment.take(0));
    } else {
        assert(parts == all);
    }
}

/// A fragment of one piece that has more than `threshold` and at least
/// `limit` characters is compacted to its first `limit` characters.
pub proof fn lemma_unbroken_fragment_is_cut(fragment: Seq<char>, threshold: nat, limit: nat)
    requires
        fragment.len() > threshold,
        fragment.len() >= limit,
        is_unbroken(fragment),
    ensures
        compacted(fragment, threshold as int, limit as int) == fragment.take(limit as int),
        compacted(fragment, threshold as int, limit as int).len() == limit,
        compacted(fragment, threshold as int, limit as int).is_prefix_of(fragment),
{
    lemma_unbroken_is_unmarked(fragment, 0);
    assert(fragment.skip(0) =~= fragment);
    lemma_unbroken_is_one_word(fragment);
    lemma_single_word_is_cut(fragment, threshold, limit);
}

/// A fragment of at most `threshold` characters is compacted to itself,
/// whatever the limit; so is the empty fragment under every threshold.
pub proof fn lemma_short_fragment_stays(fragment: Seq<char>, threshold: nat, limit: nat)
    requires
        fragment.len() <= threshold,
    ensures
        compacted(fragment, threshold as int, limit as int) == fragment,
        compacted(Seq::<char>::empty(), threshold as int, limit as int) == Seq::<char>::empty(),
{
}

} // verus!
