//! The seam to the `quick_xml` writer.
//!
//! Everything in this module is taken on trust: the types are opaque to the
//! verifier, the spec functions without a body name parts of their state, and
//! every function states what the `quick_xml` call in its body does to that
//! state. The rest of the crate is proved against these statements.
use crate::markup::{
    attribute, declaration, empty_tag, end_tag, escaped_text, start_tag, tag_lead,
};
use quick_xml::events::{BytesDecl, BytesEnd, BytesStart, BytesText, Event};
use quick_xml::Writer;
use vstd::prelude::*;
use vstd::utf8::encode_utf8;

verus! {

/// `quick_xml::Writer`, an emitter of XML events into a byte sink.
#[verifier::external_type_specification]
#[verifier::external_body]
#[verifier::reject_recursive_types(W)]
pub struct ExWriter<W>(Writer<W>);

/// `quick_xml::events::BytesStart`, the inside of a start tag: the element
/// name followed by its attributes.
#[verifier::external_type_specification]
#[verifier::external_body]
pub struct ExBytesStart<'a>(BytesStart<'a>);

/// `std::io::Error`, the error type of the writer's result.
#[verifier::external_type_specification]
#[verifier::external_body]
pub struct ExIoError(std::io::Error);

/// The bytes in the writer's sink.
pub uninterp spec fn written(w: Writer<Vec<u8>>) -> Seq<u8>;

/// Whether the writer was made with indentation.
pub uninterp spec fn indents(w: Writer<Vec<u8>>) -> bool;

/// The character that an indenting writer repeats to indent a line.
pub uninterp spec fn indent_char(w: Writer<Vec<u8>>) -> char;

/// How many indentation characters an indenting writer adds per nesting level.
pub uninterp spec fn indent_size(w: Writer<Vec<u8>>) -> nat;

/// How many indentation characters an indenting writer currently puts at the
/// start of a line.
pub uninterp spec fn indent_width(w: Writer<Vec<u8>>) -> nat;

/// Whether an indenting writer starts a new line before the next tag.
pub uninterp spec fn breaks_line(w: Writer<Vec<u8>>) -> bool;

/// Whether the writer puts a space before the `/>` of an empty element.
pub uninterp spec fn spaced_slash(w: Writer<Vec<u8>>) -> bool;

/// The text between `<` and `>` that a start tag holds.
pub uninterp spec fn tag_content(tag: BytesStart<'static>) -> Seq<char>;

/// A writer whose behaviour the functions of this module describe: it
/// indents, and each indentation character is one byte in UTF-8.
pub open spec fn indenting(w: Writer<Vec<u8>>) -> bool {
    indents(w) && (indent_char(w) as u32) < 0x80
}

/// The settings that a writer is made with and that no event changes.
pub open spec fn same_settings(a: Writer<Vec<u8>>, b: Writer<Vec<u8>>) -> bool {
    &&& indents(a) == indents(b)
    &&& indent_char(a) == indent_char(b)
    &&& indent_size(a) == indent_size(b)
    &&& spaced_slash(a) == spaced_slash(b)
}

/// What the writer puts in front of the next tag if that tag is indented by
/// `width` characters.
pub open spec fn lead(w: Writer<Vec<u8>>, width: nat) -> Seq<char> {
    tag_lead(breaks_line(w), indent_char(w), width)
}

/// The indentation after one closing tag: one level less, and never below
/// zero.
pub open spec fn shrunk(w: Writer<Vec<u8>>) -> nat {
    if indent_width(w) >= indent_size(w) {
        (indent_width(w) - indent_size(w)) as nat
    } else {
        0
    }
}

/// One XML event, as it is handed to the writer.
pub enum Markup<'a> {
    /// The XML declaration with a version and an encoding.
    Declaration { version: &'a str, encoding: &'a str },
    /// The start tag of an element.
    Start(BytesStart<'static>),
    /// The tag of an element without children.
    Empty(BytesStart<'static>),
    /// The end tag of the element with this name.
    End(&'a str),
    /// Text between tags, not yet escaped.
    Text(&'a str),
}

/// The indentation of the writer after an event: a start tag adds a level,
/// an end tag takes one away, every other event keeps it.
pub open spec fn width_after(w: Writer<Vec<u8>>, event: Markup<'_>) -> nat {
    match event {
        Markup::Start(_) => indent_width(w) + indent_size(w),
        Markup::End(_) => shrunk(w),
        _ => indent_width(w),
    }
}

/// What the writer puts into its sink for an event. Text goes where the
/// writer stands, escaped. A tag goes on a new line unless text came just
/// before; an end tag is indented one level less than what came before it.
pub open spec fn event_text(w: Writer<Vec<u8>>, event: Markup<'_>) -> Seq<char> {
    match event {
        Markup::Declaration { version, encoding } => lead(w, indent_width(w)) + declaration(
            version@,
            encoding@,
        ),
        Markup::Start(tag) => lead(w, indent_width(w)) + start_tag(tag_content(tag)),
        Markup::Empty(tag) => lead(w, indent_width(w)) + empty_tag(
            tag_content(tag),
            spaced_slash(w),
        ),
        Markup::End(name) => lead(w, shrunk(w)) + end_tag(name@),
        Markup::Text(text) => escaped_text(text@),
    }
}

/// `Writer::new_with_indent`: the writer holds the sink as it is given,
/// indents by `indent_size` copies of `indent_char` per level, stands at
/// indentation zero, does not break the line before its first tag and closes
/// empty elements without a space.
#[verifier::external_body]
pub(crate) fn open_writer(sink: Vec<u8>, indent_char: u8, indent_size: usize) -> (w: Writer<
    Vec<u8>,
>)
    ensures
        written(w) == sink@,
        indents(w),
        self::indent_char(w) == indent_char as char,
        self::indent_size(w) == indent_size,
        indent_width(w) == 0,
        !breaks_line(w),
        !spaced_slash(w),
{
    Writer::new_with_indent(sink, indent_char, indent_size)
}

/// `Writer::into_inner`: the sink, with every byte written to it.
#[verifier::external_body]
pub(crate) fn close_writer(w: Writer<Vec<u8>>) -> (bytes: Vec<u8>)
    ensures
        bytes@ == written(w),
{
    w.into_inner()
}

/// `BytesStart::new`: a start tag that holds the element name and no
/// attribute.
#[verifier::external_body]
pub(crate) fn new_tag(name: &str) -> (tag: BytesStart<'static>)
    ensures
        tag_content(tag) == name@,
{
    BytesStart::new(name.to_owned())
}

/// `BytesStart::push_attribute` with a pair of strings: the tag grows by a
/// space, the key as it is, and the value, escaped, in double quotes.
#[verifier::external_body]
pub(crate) fn push_attribute(tag: &mut BytesStart<'static>, key: &str, value: &str)
    ensures
        tag_content(*final(tag)) == tag_content(*old(tag)) + attribute(key@, value@),
{
    tag.push_attribute((key, value))
}

/// `Writer::write_event` on an indenting writer whose indentation a start
/// tag does not carry beyond `usize`. The payloads of the declaration, of an
/// end tag and of text are made by `BytesDecl::new` (with no standalone
/// flag), `BytesEnd::new` and `BytesText::new`, which escapes its text. The
/// writer fails only where `write_all` on its sink does, and the sink is a
/// `Vec<u8>`, for which writing is appending to the vector: the call
/// succeeds, and the sink has grown by exactly the text of the event, in
/// UTF-8. The writer moves its indentation as the event asks and breaks the
/// line before the next tag unless the event was text.
#[verifier::external_body]
pub(crate) fn write_event(w: &mut Writer<Vec<u8>>, event: Markup<'_>) -> (r: Result<
    (),
    std::io::Error,
>)
    requires
        indenting(*old(w)),
        event is Start ==> indent_width(*old(w)) + indent_size(*old(w)) <= usize::MAX,
    ensures
        same_settings(*old(w), *final(w)),
        indent_width(*final(w)) == width_after(*old(w), event),
        breaks_line(*final(w)) == !(event is Text),
        r is Ok,
        written(*final(w)) == written(*old(w)) + encode_utf8(event_text(*old(w), event)),
{
    w.write_event(
        match event {
            Markup::Declaration { version, encoding } => Event::Decl(
                BytesDecl::new(version, Some(encoding), None),
            ),
            Markup::Start(tag) => Event::Start(tag),
            Markup::Empty(tag) => Event::Empty(tag),
            Markup::End(name) => Event::End(BytesEnd::new(name)),
            Markup::Text(text) => Event::Text(BytesText::new(text)),
        },
    )
}

} // verus!
