//! The XML 1.0 `Char` production, and the filter that enforces it on text.
use vstd::prelude::*;

verus! {

/// Whether `c` may appear in XML 1.0 text: tab, line feed, carriage return,
/// and the scalar values U+0020..=U+D7FF and U+E000..=U+FFFD.
pub open spec fn is_xml_char(c: char) -> bool {
    ||| c == '\u{9}'
    ||| c == '\u{A}'
    ||| c == '\u{D}'
    ||| ('\u{20}' <= c && c <= '\u{D7FF}')
    ||| ('\u{E000}' <= c && c <= '\u{FFFD}')
}

/// The characters of `text` that XML 1.0 allows, in their original order.
pub open spec fn filtered(text: Seq<char>) -> Seq<char> {
    text.filter(|c: char| is_xml_char(c))
}

/// Decides [`is_xml_char`].
pub fn xml_char_allowed(c: char) -> (allowed: bool)
    ensures
        allowed == is_xml_char(c),
{
    c == '\u{9}' || c == '\u{A}' || c == '\u{D}' || ('\u{20}' <= c && c <= '\u{D7FF}') || (
    '\u{E000}' <= c && c <= '\u{FFFD}')
}

/// Extending a text by one character extends its filtered form by that
/// character if XML 1.0 allows it, and leaves it unchanged otherwise.
pub proof fn lemma_filtered_push(text: Seq<char>, c: char)
    ensures
        filtered(text.push(c)) == if is_xml_char(c) {
            filtered(text).push(c)
        } else {
            filtered(text)
        },
{
    reveal(Seq::filter);
    assert(text.push(c).drop_last() =~= text);
}

/// Filtering leaves only characters that XML 1.0 allows.
pub proof fn lemma_filtered_is_valid(text: Seq<char>)
    ensures
        forall|i: int| 0 <= i < filtered(text).len() ==> is_xml_char(#[trigger] filtered(text)[i]),
    decreases text.len(),
{
    if text.len() > 0 {
        lemma_filtered_is_valid(text.drop_last());
        assert(text.drop_last().push(text.last()) =~= text);
        lemma_filtered_push(text.drop_last(), text.last());
    } else {
        reveal(Seq::filter);
    }
}

/// A text made of allowed characters only passes the filter unchanged.
pub proof fn lemma_filter_keeps_valid(text: Seq<char>)
    requires
        forall|i: int| 0 <= i < text.len() ==> is_xml_char(#[trigger] text[i]),
    ensures
        filtered(text) == text,
    decreases text.len(),
{
    if text.len() > 0 {
        lemma_filter_keeps_valid(text.drop_last());
        assert(text.drop_last().push(text.last()) =~= text);
        lemma_filtered_push(text.drop_last(), text.last());
    } else {
        reveal(Seq::filter);
        assert(filtered(text) =~= text);
    }
}

/// A text made of forbidden characters only is filtered to the empty text.
pub proof fn lemma_filter_drops_invalid(text: Seq<char>)
    requires
        forall|i: int| 0 <= i < text.len() ==> !is_xml_char(#[trigger] text[i]),
    ensures
        filtered(text) == Seq::<char>::empty(),
    decreases text.len(),
{
    if text.len() > 0 {
        lemma_filter_drops_invalid(text.drop_last());
        assert(text.drop_last().push(text.last()) =~= text);
        lemma_filtered_push(text.drop_last(), text.last());
    } else {
        reveal(Seq::filter);
    }
}

/// Filtering is idempotent: a filtered text passes the filter unchanged.
pub proof fn lemma_filter_idempotent(text: Seq<char>)
    ensures
        filtered(filtered(text)) == filtered(text),
{
    lemma_filtered_is_valid(text);
    lemma_filter_keeps_valid(filtered(text));
}

/// Drops every character that XML 1.0 forbids and keeps the rest in order.
pub fn filter_invalid_chars(input: &str) -> (output: String)
    ensures
        output@ == filtered(input@),
{
    let mut output = String::new();
    proof {
        reveal(Seq::filter);
        assert(input@.take(0) =~= Seq::<char>::empty());
    }
    for ch in it: input.chars()
        invariant
            it.seq() == input@,
            output@ == filtered(input@.take(it.index() as int)),
    {
        proof {
            let i = it.index() as int;
            assert(input@.take(i + 1) =~= input@.take(i).push(ch));
            lemma_filtered_push(input@.take(i), ch);
        }
        if xml_char_allowed(ch) {
            output.push(ch);
        }
    }
    proof {
        assert(input@.take(input@.len() as int) =~= input@);
    }
    output
}

} // verus!
