//! Characters and words: what counts as whitespace, and how a text falls
//! apart into the words that whitespace separates.
use vstd::prelude::*;

verus! {

/// Whether `c` is white space: one of the code points to which Unicode gives
/// the property `White_Space`.
pub open spec fn is_space(c: char) -> bool {
    ||| '\u{9}' <= c <= '\u{d}'
    ||| c == ' '
    ||| c == '\u{85}'
    ||| c == '\u{a0}'
    ||| c == '\u{1680}'
    ||| '\u{2000}' <= c <= '\u{200a}'
    ||| c == '\u{2028}'
    ||| c == '\u{2029}'
    ||| c == '\u{202f}'
    ||| c == '\u{205f}'
    ||| c == '\u{3000}'
}

/// Tests a character for white space.
pub fn is_whitespace(c: char) -> (space: bool)
    ensures
        space == is_space(c),
{
    ('\u{9}' <= c && c <= '\u{d}') || c == ' ' || c == '\u{85}' || c == '\u{a0}' || c == '\u{1680}'
        || ('\u{2000}' <= c && c <= '\u{200a}') || c == '\u{2028}' || c == '\u{2029}' || c
        == '\u{202f}' || c == '\u{205f}' || c == '\u{3000}'
}

/// The characters of `s`, in order.
pub fn chars_of(s: &str) -> (chars: Vec<char>)
    ensures
        chars@ == s@,
{
    let mut chars: Vec<char> = Vec::new();
    for c in it: s.chars()
        invariant
            it.seq() == s@,
            chars@ == it.seq().take(it.index()),
    {
        chars.push(c);
    }
    chars
}

/// Where the run of characters other than white space that passes through
/// position `from` of `s` ends: the first position at or after `from` that
/// holds white space, or the length of `s`.
pub open spec fn run_end(s: Seq<char>, from: int) -> int
    decreases s.len() - from,
{
    if 0 <= from < s.len() && !is_space(s[from]) {
        run_end(s, from + 1)
    } else {
        from
    }
}

/// The words of `s` that begin at or after position `from`.
pub open spec fn words_from(s: Seq<char>, from: int) -> Seq<Seq<char>>
    decreases s.len() - from,
{
    if !(0 <= from < s.len()) {
        Seq::empty()
    } else if is_space(s[from]) {
        words_from(s, from + 1)
    } else {
        proof {
            lemma_run_end_bounds(s, from);
        }
        seq![s.subrange(from, run_end(s, from))] + words_from(s, run_end(s, from))
    }
}

/// The words of `s`: its maximal runs of characters other than white space,
/// from left to right.
pub open spec fn words(s: Seq<char>) -> Seq<Seq<char>> {
    words_from(s, 0)
}

/// What each string slice of `v` holds.
pub open spec fn texts(v: Seq<&str>) -> Seq<Seq<char>> {
    v.map_values(|w: &str| w@)
}

/// A run ends inside the text, after the position it was asked for when that
/// position holds no white space, and on white space or at the end of the text.
pub proof fn lemma_run_end_bounds(s: Seq<char>, from: int)
    requires
        0 <= from <= s.len(),
    ensures
        from <= run_end(s, from) <= s.len(),
        from < s.len() && !is_space(s[from]) ==> from < run_end(s, from),
        run_end(s, from) < s.len() ==> is_space(s[run_end(s, from)]),
        forall|i: int| from <= i < run_end(s, from) ==> !is_space(#[trigger] s[i]),
    decreases s.len() - from,
{
    if from < s.len() && !is_space(s[from]) {
        lemma_run_end_bounds(s, from + 1);
    }
}

/// Every word has a first character, and it is no white space.
pub proof fn lemma_words_start(s: Seq<char>, from: int)
    requires
        0 <= from <= s.len(),
    ensures
        forall|k: int|
            0 <= k < words_from(s, from).len() ==> (#[trigger] words_from(s, from)[k]).len() > 0
                && !is_space(words_from(s, from)[k][0]),
    decreases s.len() - from,
{
    if from < s.len() {
        if is_space(s[from]) {
            lemma_words_start(s, from + 1);
            assert(words_from(s, from) == words_from(s, from + 1));
        } else {
            let end = run_end(s, from);
            lemma_run_end_bounds(s, from);
            lemma_words_start(s, end);
            assert forall|k: int| 0 <= k < words_from(s, from).len() implies (
            #[trigger] words_from(s, from)[k]).len() > 0 && !is_space(words_from(s, from)[k][0]) by {
                if k > 0 {
                    assert(words_from(s, from)[k] == words_from(s, end)[k - 1]);
                }
            }
        }
    } else {
        assert(words_from(s, from).len() == 0);
    }
}

/// A text that holds no white space is one word, unless it is empty.
pub proof fn lemma_unbroken_is_one_word(s: Seq<char>)
    requires
        s.len() > 0,
        forall|i: int| 0 <= i < s.len() ==> !is_space(#[trigger] s[i]),
    ensures
        words(s) == seq![s],
{
    lemma_run_end_bounds(s, 0);
    assert(run_end(s, 0) == s.len());
    assert(s.subrange(0, s.len() as int) =~= s);
    assert(words_from(s, s.len() as int) =~= Seq::<Seq<char>>::empty());
    assert(seq![s] + Seq::<Seq<char>>::empty() =~= seq![s]);
}

/// Splits `s` at white space into its words; none of them is empty.
pub fn split_words<'a>(s: &'a str) -> (found: Vec<&'a str>)
    ensures
        texts(found@) == words(s@),
{
    let chars = chars_of(s);
    let mut found: Vec<&'a str> = Vec::new();
    let mut at: usize = 0;
    while at < chars.len()
        invariant
            chars@ == s@,
            at <= chars.len(),
            texts(found@) + words_from(s@, at as int) == words(s@),
        decreases chars.len() - at,
    {
        if is_whitespace(chars[at]) {
            at = at + 1;
        } else {
            let mut end: usize = at + 1;
            while end < chars.len() && !is_whitespace(chars[end])
                invariant
                    chars@ == s@,
                    at < end <= chars.len(),
                    run_end(s@, at as int) == run_end(s@, end as int),
                decreases chars.len() - end,
            {
                end = end + 1;
            }
            let word = s.substring_char(at, end);
            proof {
                assert(texts(found@.push(word)) == texts(found@).push(word@));
                assert(texts(found@).push(word@) + words_from(s@, end as int) == texts(found@) + (
                seq![word@] + words_from(s@, end as int)));
            }
            found.push(word);
            at = end;
        }
    }
    proof {
        assert(texts(found@) + Seq::<Seq<char>>::empty() == texts(found@));
    }
    found
}

} // verus!
