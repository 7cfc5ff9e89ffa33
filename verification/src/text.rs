//! Small helpers for text.
use vstd::prelude::*;

verus! {

/// The text of a list of name-value pairs.
pub open spec fn pair_views(pairs: Seq<(String, String)>) -> Seq<(Seq<char>, Seq<char>)> {
    Seq::new(pairs.len(), |i: int| (pairs[i].0@, pairs[i].1@))
}

/// Appends a name-value pair.
pub fn push_pair(pairs: &mut Vec<(String, String)>, name: &str, value: &str)
    ensures
        pair_views(final(pairs)@) == pair_views(old(pairs)@).push((name@, value@)),
{
    pairs.push((name.to_owned(), value.to_owned()));
    assert(pair_views(pairs@) =~= pair_views(old(pairs)@).push((name@, value@)));
}

/// The texts of a list of strings.
pub open spec fn text_views(texts: Seq<String>) -> Seq<Seq<char>> {
    Seq::new(texts.len(), |i: int| texts[i]@)
}

/// Appends a text.
pub fn push_text(texts: &mut Vec<String>, text: &str)
    ensures
        text_views(final(texts)@) == text_views(old(texts)@).push(text@),
{
    texts.push(text.to_owned());
    assert(text_views(texts@) =~= text_views(old(texts)@).push(text@));
}

/// Whether a character is white space, as Unicode has it.
pub open spec fn is_space(c: char) -> bool {
    ||| '\u{9}' <= c <= '\u{d}'
    ||| c == ' '
    ||| c == '\u{85}'
    ||| c == '\u{a0}'
    ||| c == '\u{1680}'
    ||| '\u{2000}' <= c <= '\u{200a}'
    ||| c == '\u{2028}'
    ||| c == '\u{2029}'
    ||| c == '\u{202f}'
    ||| c == '\u{205f}'
    ||| c == '\u{3000}'
}

/// Whether a character is white space.
pub fn whitespace(c: char) -> (space: bool)
    ensures
        space == is_space(c),
{
    ('\u{9}' <= c && c <= '\u{d}') || c == ' ' || c == '\u{85}' || c == '\u{a0}' || c == '\u{1680}'
        || ('\u{2000}' <= c && c <= '\u{200a}') || c == '\u{2028}' || c == '\u{2029}' || c
        == '\u{202f}' || c == '\u{205f}' || c == '\u{3000}'
}

/// Where a run of white space, or of anything else, that begins at `i` ends.
pub open spec fn run_end(text: Seq<char>, i: int, space: bool) -> int
    decreases text.len() - i,
{
    if 0 <= i < text.len() && is_space(text[i]) == space {
        run_end(text, i + 1, space)
    } else {
        i
    }
}

/// The words of a text: its runs of anything but white space.
pub open spec fn words(text: Seq<char>) -> Seq<Seq<char>>
    decreases text.len(),
{
    let start = run_end(text, 0, true);
    let end = run_end(text, start, false);
    if start < text.len() {
        proof {
            lemma_run_end(text, 0, true);
            lemma_run_end(text, start, false);
        }
        seq![text.subrange(start, end)] + words(text.skip(end))
    } else {
        seq![]
    }
}

/// A run ends inside the text or at its end, behind its beginning if it has any length.
pub proof fn lemma_run_end(text: Seq<char>, i: int, space: bool)
    requires
        0 <= i <= text.len(),
    ensures
        i <= run_end(text, i, space) <= text.len(),
        i < text.len() && is_space(text[i]) == space ==> i < run_end(text, i, space),
        run_end(text, i, space) < text.len() ==> is_space(text[run_end(text, i, space)]) != space,
    decreases text.len() - i,
{
    if i < text.len() && is_space(text[i]) == space {
        lemma_run_end(text, i + 1, space);
    }
}

/// A run ends where the first character of the other kind stands.
pub proof fn lemma_run_ends_at(text: Seq<char>, i: int, p: int, space: bool)
    requires
        0 <= i <= p <= text.len(),
        forall|j: int| i <= j < p ==> is_space(#[trigger] text[j]) == space,
        p < text.len() ==> is_space(text[p]) != space,
    ensures
        run_end(text, i, space) == p,
    decreases p - i,
{
    if i < p {
        assert(is_space(text[i]) == space);
        lemma_run_ends_at(text, i + 1, p, space);
    }
}

/// The second word of a text that begins with a word, one space and another word.
pub proof fn lemma_second_word(text: Seq<char>, first: int, second: int)
    requires
        0 < first,
        first + 1 < second <= text.len(),
        is_space(text[first]),
        forall|j: int| 0 <= j < second && j != first ==> !is_space(#[trigger] text[j]),
        second < text.len() ==> is_space(text[second]),
    ensures
        words(text).len() >= 2,
        words(text)[1] == text.subrange(first + 1, second),
{
    assert(!is_space(text[0]));
    lemma_run_ends_at(text, 0, 0, true);
    lemma_run_ends_at(text, 0, first, false);
    let rest = text.skip(first);
    assert(rest[0] == text[first]);
    assert(rest[1] == text[first + 1]);
    lemma_run_ends_at(rest, 0, 1, true);
    lemma_run_ends_at(rest, 1, second - first, false);
    assert(rest.subrange(1, second - first) =~= text.subrange(first + 1, second));
    let behind = words(rest.skip(second - first));
    assert(words(rest) == seq![rest.subrange(1, second - first)] + behind);
    assert(words(rest)[0] == rest.subrange(1, second - first));
    assert(words(text) == seq![text.subrange(0, first)] + words(rest));
    assert(words(text)[1] == words(rest)[0]);
}

/// Runs in a suffix are those of the whole, shifted.
proof fn lemma_run_end_skip(text: Seq<char>, k: int, i: int, space: bool)
    requires
        0 <= k <= text.len(),
        0 <= i <= text.len() - k,
    ensures
        run_end(text.skip(k), i, space) == run_end(text, k + i, space) - k,
    decreases text.len() - k - i,
{
    if i < text.len() - k && is_space(text[k + i]) == space {
        lemma_run_end_skip(text, k, i + 1, space);
    }
}

/// The characters of a text.
pub fn chars_of(text: &str) -> (chars: Vec<char>)
    ensures
        chars@ == text@,
{
    let mut chars: Vec<char> = Vec::new();
    for c in it: text.chars()
        invariant
            chars@ == it.seq().take(it.index()),
            it.seq() == text@,
    {
        chars.push(c);
    }
    assert(chars@ =~= text@);
    chars
}

fn skip_run(chars: &Vec<char>, from: usize, space: bool) -> (end: usize)
    requires
        from <= chars@.len(),
    ensures
        end == run_end(chars@, from as int, space),
        end <= chars@.len(),
{
    let mut end: usize = from;
    while end < chars.len() && whitespace(chars[end]) == space
        invariant
            from <= end <= chars@.len(),
            run_end(chars@, end as int, space) == run_end(chars@, from as int, space),
        decreases chars@.len() - end,
    {
        end = end + 1;
    }
    end
}

/// The second word of a text, if it has two.
pub fn second_word(text: &str) -> (word: Option<String>)
    ensures
        word is Some <==> words(text@).len() >= 2,
        word is Some ==> word->0@ == words(text@)[1],
{
    let chars = chars_of(text);
    let first: usize = skip_run(&chars, 0, true);
    let first_end: usize = skip_run(&chars, first, false);
    let second: usize = skip_run(&chars, first_end, true);
    let second_end: usize = skip_run(&chars, second, false);
    proof {
        let t = text@;
        let rest = t.skip(first_end as int);
        if first < t.len() {
            lemma_run_end(t, first as int, false);
            lemma_run_end(t, first_end as int, true);
            lemma_run_end_skip(t, first_end as int, 0, true);
            lemma_run_end_skip(t, first_end as int, second - first_end, false);
            lemma_run_end(t, second as int, false);
            if second < t.len() {
                assert(rest.subrange(second - first_end, second_end - first_end) =~= t.subrange(
                    second as int,
                    second_end as int,
                ));
                assert(words(rest)[0] == t.subrange(second as int, second_end as int));
                assert(words(t)[1] == words(rest)[0]);
            } else {
                assert(words(rest).len() == 0);
            }
        } else {
            lemma_run_end(t, 0, true);
        }
    }
    if second < chars.len() {
        Some(text.substring_char(second, second_end).to_owned())
    } else {
        None
    }
}

/// Whether `part` stands in `whole` at position `i`.
pub open spec fn stands_at<T>(whole: Seq<T>, part: Seq<T>, i: int) -> bool {
    0 <= i && i + part.len() <= whole.len() && whole.subrange(i, i + part.len()) == part
}

/// The first position at or after `i` at which `part` stands in `whole`.
pub open spec fn find<T>(whole: Seq<T>, part: Seq<T>, i: int) -> Option<int>
    decreases whole.len() + 1 - i,
{
    if i > whole.len() {
        None
    } else if stands_at(whole, part, i) {
        Some(i)
    } else {
        find(whole, part, i + 1)
    }
}

/// The first position at or after `i` is found, if it is one.
pub proof fn lemma_find<T>(whole: Seq<T>, part: Seq<T>, i: int, p: int)
    requires
        0 <= i <= p,
        stands_at(whole, part, p),
        forall|j: int| i <= j < p ==> !#[trigger] stands_at(whole, part, j),
    ensures
        find(whole, part, i) == Some(p),
    decreases p - i,
{
    if i < p {
        assert(!stands_at(whole, part, i));
        lemma_find(whole, part, i + 1, p);
    }
}

/// Nothing is found where there is nothing.
pub proof fn lemma_find_nothing<T>(whole: Seq<T>, part: Seq<T>, i: int)
    requires
        0 <= i,
        forall|j: int| i <= j ==> !#[trigger] stands_at(whole, part, j),
    ensures
        find(whole, part, i) is None,
    decreases whole.len() + 1 - i,
{
    if i <= whole.len() {
        lemma_find_nothing(whole, part, i + 1);
    }
}

} // verus!
