//! The text of XML markup as `quick_xml` writes it: entity escapes, tags, and
//! the line breaks of an indenting writer.
use vstd::prelude::*;
use vstd::utf8::encode_utf8;

verus! {

/// What `quick_xml::escape::escape` puts in place of `c`, which is what
/// stands for `c` inside element text: the five characters of XML markup and
/// the carriage return become entity references, every other character stands
/// for itself.
pub open spec fn text_entity(c: char) -> Seq<char> {
    if c == '<' {
        "&lt;"@
    } else if c == '>' {
        "&gt;"@
    } else if c == '&' {
        "&amp;"@
    } else if c == '\'' {
        "&apos;"@
    } else if c == '"' {
        "&quot;"@
    } else if c == '\r' {
        "&#13;"@
    } else {
        seq![c]
    }
}

/// What stands for `c` inside an attribute value that `quick_xml` makes from
/// a string: as in element text, and line feed and tab become character
/// references too.
pub open spec fn attribute_entity(c: char) -> Seq<char> {
    if c == '\n' {
        "&#10;"@
    } else if c == '\t' {
        "&#9;"@
    } else {
        text_entity(c)
    }
}

/// `text` as it is written between the tags of an element.
pub open spec fn escaped_text(text: Seq<char>) -> Seq<char> {
    text.flat_map(|c: char| text_entity(c))
}

/// `value` as it is written between the quotes of an attribute.
pub open spec fn escaped_attribute(value: Seq<char>) -> Seq<char> {
    value.flat_map(|c: char| attribute_entity(c))
}

/// One attribute inside a start tag: a space, the key, and the escaped value
/// in double quotes.
pub open spec fn attribute(key: Seq<char>, value: Seq<char>) -> Seq<char> {
    seq![' '] + key + seq!['=', '"'] + escaped_attribute(value) + seq!['"']
}

/// `width` copies of `unit`.
pub open spec fn indentation(unit: char, width: nat) -> Seq<char> {
    Seq::new(width, |i: int| unit)
}

/// What an indenting writer puts in front of a tag: a line feed and the
/// indentation if it breaks the line there, nothing if it does not.
pub open spec fn tag_lead(breaks: bool, unit: char, width: nat) -> Seq<char> {
    if breaks {
        seq!['\n'] + indentation(unit, width)
    } else {
        Seq::empty()
    }
}

/// A start tag around `content`, the element name and its attributes.
pub open spec fn start_tag(content: Seq<char>) -> Seq<char> {
    seq!['<'] + content + seq!['>']
}

/// The tag of an element without children around `content`, with a space
/// before the closing slash if `spaced` says so.
pub open spec fn empty_tag(content: Seq<char>, spaced: bool) -> Seq<char> {
    seq!['<'] + content + if spaced {
        seq![' ', '/', '>']
    } else {
        seq!['/', '>']
    }
}

/// The end tag of the element `name`.
pub open spec fn end_tag(name: Seq<char>) -> Seq<char> {
    seq!['<', '/'] + name + seq!['>']
}

/// The XML declaration with a version and an encoding.
pub open spec fn declaration(version: Seq<char>, encoding: Seq<char>) -> Seq<char> {
    "<?xml version=\""@ + version + "\" encoding=\""@ + encoding + "\"?>"@
}

/// The UTF-8 encoding of a text is the encoding of its first part followed
/// by the encoding of the rest.
pub proof fn lemma_encode_concat(a: Seq<char>, b: Seq<char>)
    ensures
        encode_utf8(a + b) == encode_utf8(a) + encode_utf8(b),
    decreases a.len(),
{
    if a.len() == 0 {
        assert(a + b =~= b);
        assert(encode_utf8(a) + encode_utf8(b) =~= encode_utf8(b));
    } else {
        assert((a + b).drop_first() =~= a.drop_first() + b);
        lemma_encode_concat(a.drop_first(), b);
        assert(encode_utf8(a + b) =~= encode_utf8(a) + encode_utf8(b));
    }
}

/// Appending the encoding of `piece` to bytes that end in the encoding of
/// `text` gives bytes that end in the encoding of `text + piece`.
pub proof fn lemma_encode_append(base: Seq<u8>, text: Seq<char>, piece: Seq<char>)
    ensures
        base + encode_utf8(text) + encode_utf8(piece) == base + encode_utf8(text + piece),
{
    lemma_encode_concat(text, piece);
    assert(base + encode_utf8(text) + encode_utf8(piece) =~= base + (encode_utf8(text)
        + encode_utf8(piece)));
}

} // verus!
