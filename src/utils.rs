//! The word slicer and its two helpers: an uppercase classifier for single
//! graphemes and a first-letter capitalizer.
use crate::unicode::{
    grapheme_clusters, graphemes_of, lower_of, lowercase, upper_of, uppercase, views_of,
};
use vstd::prelude::*;
use vstd::string::*;

verus! {

/// A grapheme is uppercase when uppercasing leaves it as it is and
/// lowercasing changes it: it has case and is in its upper form.
pub open spec fn upper_grapheme(g: Seq<char>) -> bool {
    upper_of(g) == g && lower_of(g) != g
}

/// Whether a grapheme is one of the delimiters: space, `.`, `/`, `_`, `-`, `\`.
pub open spec fn delimiter(g: Seq<char>) -> bool {
    g.len() == 1 && (g[0] == ' ' || g[0] == '.' || g[0] == '/' || g[0] == '_' || g[0] == '-'
        || g[0] == '\\')
}

fn is_delimiter(g: &str) -> (r: bool)
    ensures
        r == delimiter(g@),
{
    if g.unicode_len() != 1 {
        return false;
    }
    let c = g.get_char(0);
    c == ' ' || c == '.' || c == '/' || c == '_' || c == '-' || c == '\\'
}

/// Classifies a grapheme by the rule of `upper_grapheme`, whatever its length.
fn grapheme_is_upper(g: &str) -> (r: bool)
    ensures
        r == upper_grapheme(g@),
{
    let s = String::from_str(g);
    let up = uppercase(g);
    let low = lowercase(g);
    s == up && !(s == low)
}

/// Whether a single grapheme is uppercase.
pub fn is_uppercase(character: &str) -> (r: bool)
    requires
        graphemes_of(character@).len() == 1,
    ensures
        r == upper_grapheme(character@),
{
    grapheme_is_upper(character)
}

/// Whether a text is an uppercase grapheme: `None` unless the text is exactly
/// one grapheme.
pub fn checked_is_uppercase(character: &str) -> (r: Option<bool>)
    ensures
        r == (if graphemes_of(character@).len() == 1 {
            Some(upper_grapheme(character@))
        } else {
            None
        }),
{
    let gs = grapheme_clusters(character);
    if gs.len() != 1 {
        return None;
    }
    assert(views_of(gs@).len() == 1);
    Some(is_uppercase(character))
}

/// One left-to-right pass over graphemes: the words completed so far, and the
/// characters of the word being accumulated.
pub open spec fn scan(gs: Seq<Seq<char>>) -> (Seq<Seq<char>>, Seq<char>)
    decreases gs.len(),
{
    if gs.len() == 0 {
        (Seq::empty(), Seq::empty())
    } else {
        let (words, buf) = scan(gs.drop_last());
        let g = gs.last();
        if delimiter(g) {
            if buf.len() > 0 {
                (words.push(lower_of(buf)), Seq::empty())
            } else {
                (words, buf)
            }
        } else if upper_grapheme(g) && buf.len() > 0 {
            (words.push(lower_of(buf)), g)
        } else {
            (words, buf + g)
        }
    }
}

/// The words of a grapheme sequence: those the pass completed, then the
/// accumulated word if it is not empty.
pub open spec fn words_of(gs: Seq<Seq<char>>) -> Seq<Seq<char>> {
    let (words, buf) = scan(gs);
    if buf.len() > 0 {
        words.push(lower_of(buf))
    } else {
        words
    }
}

/// The lowercase words of a text.
pub open spec fn sliced(s: Seq<char>) -> Seq<Seq<char>> {
    words_of(graphemes_of(s))
}

/// The text of the graphemes `gs[lo]` up to, not including, `gs[hi]`.
pub open spec fn run_text(gs: Seq<Seq<char>>, lo: int, hi: int) -> Seq<char> {
    gs.subrange(lo, hi).flatten()
}

/// Whether `w` is the lowercasing of a non-empty stretch of the graphemes `gs`.
pub open spec fn lowercased_run(gs: Seq<Seq<char>>, w: Seq<char>) -> bool {
    exists|lo: int, hi: int| 0 <= lo < hi <= gs.len() && w == lower_of(#[trigger] run_text(gs, lo, hi))
}

/// Slices a text that is already split into graphemes: the words, lowercased,
/// at delimiter graphemes (which are dropped) and before each uppercase
/// grapheme that follows part of a word. No word is empty, and each is the
/// lowercasing of a non-empty stretch of the graphemes.
pub fn slice_graphemes(gs: &Vec<String>) -> (r: Vec<String>)
    ensures
        views_of(r@) == words_of(views_of(gs@)),
        forall|i: int| 0 <= i < r@.len() ==> #[trigger] r@[i]@.len() > 0,
        forall|i: int| 0 <= i < r@.len() ==> lowercased_run(views_of(gs@), #[trigger] r@[i]@),
{
    let ghost gv = views_of(gs@);
    let mut words: Vec<String> = Vec::new();
    let mut buf = String::new();
    let ghost mut start: int = 0;
    let ghost mut spans: Seq<(int, int)> = Seq::empty();
    let mut i: usize = 0;
    assert(gv.subrange(0, 0) =~= Seq::<Seq<char>>::empty());
    while i < gs.len()
        invariant
            gv == views_of(gs@),
            i <= gs@.len(),
            views_of(words@) == scan(gv.take(i as int)).0,
            buf@ == scan(gv.take(i as int)).1,
            forall|k: int| 0 <= k < words@.len() ==> #[trigger] words@[k]@.len() > 0,
            0 <= start <= i,
            buf@ == run_text(gv, start, i as int),
            spans.len() == words@.len(),
            forall|k: int|
                0 <= k < spans.len() ==> 0 <= (#[trigger] spans[k]).0 < spans[k].1 <= i
                    && words@[k]@ == lower_of(run_text(gv, spans[k].0, spans[k].1)),
        decreases gs@.len() - i,
    {
        let c = gs[i].as_str();
        assert(gv.take(i + 1).drop_last() =~= gv.take(i as int));
        assert(gv.take(i + 1).last() == c@);
        assert(gv.subrange(start, i + 1) =~= gv.subrange(start, i as int).push(c@));
        proof {
            if start == i {
                assert(gv.subrange(start, i as int) =~= Seq::<Seq<char>>::empty());
            }
        }
        assert(Seq::<Seq<char>>::empty().flatten() =~= Seq::<char>::empty());
        let ghost words0 = words@;
        if is_delimiter(c) {
            if buf.unicode_len() > 0 {
                let w = lowercase(buf.as_str());
                words.push(w);
                proof {
                    spans = spans.push((start, i as int));
                }
                buf = String::new();
                assert(views_of(words@) =~= views_of(words0).push(w@));
            }
            proof {
                start = i + 1;
                assert(gv.subrange(start, start) =~= Seq::<Seq<char>>::empty());
            }
        } else if grapheme_is_upper(c) && buf.unicode_len() > 0 {
            let w = lowercase(buf.as_str());
            words.push(w);
            proof {
                spans = spans.push((start, i as int));
                start = i as int;
                assert(gv.subrange(start, start + 1) =~= Seq::<Seq<char>>::empty().push(c@));
                Seq::<Seq<char>>::empty().lemma_flatten_push(c@);
            }
            buf = String::from_str(c);
            assert(views_of(words@) =~= views_of(words0).push(w@));
        } else {
            buf.append(c);
            proof {
                gv.subrange(start, i as int).lemma_flatten_push(c@);
            }
        }
        i = i + 1;
    }
    assert(gv.take(gs@.len() as int) =~= gv);
    if buf.unicode_len() > 0 {
        proof {
            if start == i {
                assert(gv.subrange(start, i as int) =~= Seq::<Seq<char>>::empty());
            }
        }
        let ghost words0 = words@;
        let w = lowercase(buf.as_str());
        words.push(w);
        proof {
            spans = spans.push((start, i as int));
        }
        assert(views_of(words@) =~= views_of(words0).push(w@));
    }
    assert forall|k: int| 0 <= k < words@.len() implies lowercased_run(gv, #[trigger] words@[k]@) by {
        let (lo, hi) = spans[k];
        assert(0 <= lo < hi <= gv.len() && words@[k]@ == lower_of(run_text(gv, lo, hi)));
    }
    words
}

/// Splits a text into lowercase words, at delimiter graphemes (which are
/// dropped) and before each uppercase grapheme that follows part of a word.
/// No word is empty, and each is the lowercasing of a non-empty stretch of
/// the text's graphemes.
pub fn slice_into_words(input: String) -> (r: Vec<String>)
    ensures
        views_of(r@) == sliced(input@),
        forall|i: int| 0 <= i < r@.len() ==> #[trigger] r@[i]@.len() > 0,
        forall|i: int| 0 <= i < r@.len() ==> lowercased_run(graphemes_of(input@), #[trigger] r@[i]@),
{
    let gs = grapheme_clusters(input.as_str());
    slice_graphemes(&gs)
}

/// Uppercases the first grapheme of a non-empty word and keeps the rest of
/// the word as it is: what follows the uppercased first grapheme is exactly
/// the text of the word's later graphemes.
pub fn uppercase_first_letter(word: &str) -> (r: String)
    requires
        word@.len() > 0,
    ensures
        graphemes_of(word@).len() > 0,
        r@ == upper_of(graphemes_of(word@)[0]) + graphemes_of(word@).drop_first().flatten(),
        r@.subrange(upper_of(graphemes_of(word@)[0]).len() as int, r@.len() as int)
            == word@.subrange(graphemes_of(word@)[0].len() as int, word@.len() as int),
{
    let gs = grapheme_clusters(word);
    let ghost gv = views_of(gs@);
    if gs.len() == 0 {
        assert(gv.flatten() =~= Seq::<char>::empty());
    }
    let first = gs[0].as_str();
    assert(gv.flatten() == first@ + gv.drop_first().flatten());
    let n = first.unicode_len();
    let rest = word.substring_char(n, word.unicode_len());
    assert(rest@ =~= gv.drop_first().flatten());
    let up = uppercase(first);
    up.concat(rest)
}

} // verus!
