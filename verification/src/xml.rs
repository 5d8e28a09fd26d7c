//! From the bytes of a document to a race.
//!
//! `quick_xml` cuts the bytes into tokens, finds the attributes of a tag and
//! resolves the escapes of a text. What it hands over is turned into events
//! here, and the events go to the decoder one by one. A document that
//! `quick_xml` refuses, or whose text is no text, is given up at once, with
//! the place where that happened.

use vstd::prelude::*;
use vstd::string::*;
use vstd::utf8::{decode_utf8, encode_utf8_decode_utf8, is_char_boundary, valid_utf8};
use quick_xml::escape::unescape;
use quick_xml::events::attributes::Attributes;
use quick_xml::events::Event;
use quick_xml::Reader;
use crate::decoder::{
    initial, run, run_concat, run_push, sound_state, step, Decoder, DecoderView, XmlEvent,
    XmlEventView,
};
use crate::structs::racesummary::{race_sound, RaceSummary, RaceSummaryView};
use crate::attribute_views;

verus! {

/// `quick_xml::Reader`, the tokenizer. Nothing of its inside is known here.
#[verifier::external_type_specification]
#[verifier::external_body]
#[verifier::reject_recursive_types(R)]
pub struct ExReader<R>(Reader<R>);

/// What the tokenizer hands over at one call, as plain values.
#[derive(Clone, Debug, PartialEq)]
pub enum RawToken {
    /// A start tag: what stands between its angle brackets, and how long the
    /// tag's name is at the start of it.
    Start { content: Vec<u8>, name_len: usize },
    /// A tag that is its own end, held like a start tag.
    Empty { content: Vec<u8>, name_len: usize },
    /// Text between tags, escapes unresolved.
    Text(Vec<u8>),
    /// An end tag.
    End,
    /// A declaration, a comment, an instruction, and the like.
    Other,
    /// The end of the document.
    Eof,
    /// The tokenizer's refusal, in its own words.
    Malformed(String),
}

/// What a token holds.
pub enum RawTokenView {
    Start { content: Seq<u8>, name_len: usize },
    Empty { content: Seq<u8>, name_len: usize },
    Text(Seq<u8>),
    End,
    Other,
    Eof,
    Malformed(Seq<char>),
}

impl View for RawToken {
    type V = RawTokenView;

    open spec fn view(&self) -> RawTokenView {
        match *self {
            RawToken::Start { content, name_len } => RawTokenView::Start {
                content: content@,
                name_len,
            },
            RawToken::Empty { content, name_len } => RawTokenView::Empty {
                content: content@,
                name_len,
            },
            RawToken::Text(content) => RawTokenView::Text(content@),
            RawToken::End => RawTokenView::End,
            RawToken::Other => RawTokenView::Other,
            RawToken::Eof => RawTokenView::Eof,
            RawToken::Malformed(detail) => RawTokenView::Malformed(detail@),
        }
    }
}

/// Why a document was given up.
#[derive(Clone, Debug, PartialEq)]
pub enum Fault {
    /// The tokenizer refused the document; its own words are kept.
    Syntax(String),
    /// A tag or a text is not UTF-8.
    Encoding,
    /// The attributes of a tag cannot be told apart.
    Attribute,
    /// A text holds an escape that stands for nothing.
    Escape,
}

/// What a fault holds.
pub enum FaultView {
    Syntax(Seq<char>),
    Encoding,
    Attribute,
    Escape,
}

impl View for Fault {
    type V = FaultView;

    open spec fn view(&self) -> FaultView {
        match *self {
            Fault::Syntax(detail) => FaultView::Syntax(detail@),
            Fault::Encoding => FaultView::Encoding,
            Fault::Attribute => FaultView::Attribute,
            Fault::Escape => FaultView::Escape,
        }
    }
}

/// A document given up: where in its bytes, and why.
#[derive(Clone, Debug, PartialEq)]
pub struct DecodeError {
    pub position: usize,
    pub fault: Fault,
}

/// What a decoding error holds.
pub struct DecodeErrorView {
    pub position: usize,
    pub fault: FaultView,
}

impl View for DecodeError {
    type V = DecodeErrorView;

    open spec fn view(&self) -> DecodeErrorView {
        DecodeErrorView { position: self.position, fault: self.fault@ }
    }
}

/// The tokens that `quick_xml` cuts a document into when it trims the white
/// space around texts, each with the place in the document where the
/// tokenizer stood after it. The last one is the end of the document or a
/// refusal.
pub uninterp spec fn document_tokens(xml: Seq<u8>) -> Seq<(RawTokenView, usize)>;

/// The tokens that a tokenizer has yet to hand over, up to the end of the
/// document or its refusal.
pub uninterp spec fn pending_tokens(reader: Reader<&[u8]>) -> Seq<(RawTokenView, usize)>;

/// The attributes that `quick_xml` finds in the content of a tag after a name
/// of the given length: key and value of each, as they stand in the tag, or
/// nothing where it cannot tell them apart.
pub uninterp spec fn attributes_of(content: Seq<char>, name_len: usize) -> Option<
    Seq<(Seq<u8>, Seq<u8>)>,
>;

/// The text that `quick_xml` makes of a text by resolving its escapes, or
/// nothing where an escape stands for nothing.
pub uninterp spec fn unescaped(raw: Seq<char>) -> Option<Seq<char>>;

/// Whether a token ends the tokens of a document.
pub open spec fn is_last(token: RawTokenView) -> bool {
    token is Eof || token is Malformed
}

/// What each raw attribute of a list holds.
pub open spec fn raw_attribute_views(raw: Seq<(Vec<u8>, Vec<u8>)>) -> Seq<(Seq<u8>, Seq<u8>)> {
    raw.map_values(|a: (Vec<u8>, Vec<u8>)| (a.0@, a.1@))
}

/// `quick_xml::Reader::from_reader` on the bytes of a document, and
/// `trim_text(true)` on the reader made. Believed of them: what the reader
/// will hand over depends on the bytes alone.
#[verifier::external_body]
fn open_reader<'a>(xml: &'a [u8]) -> (reader: Reader<&'a [u8]>)
    ensures
        pending_tokens(reader) == document_tokens(xml@),
{
    let mut reader = Reader::from_reader(xml);
    reader.trim_text(true);
    reader
}

/// `quick_xml::Reader::read_event`, and `buffer_position` after it. Believed
/// of them: a reader always has a token to hand over; it hands over the
/// first of those it had yet to hand over; and unless that one is the last,
/// the others are left in their order, which are fewer.
#[verifier::external_body]
fn next_token<'a>(reader: &mut Reader<&'a [u8]>) -> (r: (RawToken, usize))
    ensures
        pending_tokens(*old(reader)).len() > 0,
        (r.0@, r.1) == pending_tokens(*old(reader))[0],
        !is_last(r.0@) ==> pending_tokens(*final(reader)) == pending_tokens(
            *old(reader),
        ).drop_first(),
{
    let token = match reader.read_event() {
        Ok(Event::Start(e)) => RawToken::Start { content: e.to_vec(), name_len: e.name().0.len() },
        Ok(Event::Empty(e)) => RawToken::Empty { content: e.to_vec(), name_len: e.name().0.len() },
        Ok(Event::Text(e)) => RawToken::Text(e.to_vec()),
        Ok(Event::End(_)) => RawToken::End,
        Ok(Event::Eof) => RawToken::Eof,
        Ok(_) => RawToken::Other,
        Err(e) => RawToken::Malformed(format!("{:?}", e)),
    };
    (token, reader.buffer_position())
}

/// `quick_xml::events::attributes::Attributes::new` on the content of a tag,
/// with the check for repeated keys switched off, and the keys and values
/// that the iterator yields up to its end. Believed of it: the result
/// depends on the content and the length of the name alone.
#[verifier::external_body]
fn tag_attributes(content: &str, name_len: usize) -> (r: Option<Vec<(Vec<u8>, Vec<u8>)>>)
    requires
        name_len <= content.spec_bytes().len(),
    ensures
        match attributes_of(content@, name_len) {
            Some(found) => r matches Some(raw) && raw_attribute_views(raw@) == found,
            None => r is None,
        },
{
    Attributes::new(content, name_len)
        .with_checks(false)
        .map(|a| a.map(|a| (a.key.0.to_vec(), a.value.into_owned())).ok())
        .collect()
}

/// `quick_xml::escape::unescape`. Believed of it: the result depends on the
/// text alone.
#[verifier::external_body]
fn unescape_text(raw: &str) -> (r: Option<String>)
    ensures
        match unescaped(raw@) {
            Some(text) => r matches Some(s) && s@ == text,
            None => r is None,
        },
{
    match unescape(raw) {
        Ok(text) => Some(text.into_owned()),
        Err(_) => None,
    }
}

/// `core::str::from_utf8`: the bytes as a string, where they are UTF-8.
#[verifier::external_body]
fn utf8_text(bytes: &[u8]) -> (r: Option<&str>)
    ensures
        r is Some <==> valid_utf8(bytes@),
        r matches Some(s) ==> s.spec_bytes() == bytes@,
{
    match core::str::from_utf8(bytes) {
        Ok(s) => Some(s),
        Err(_) => None,
    }
}

/// The text that bytes encode, where they are UTF-8.
pub open spec fn text_of_bytes(bytes: Seq<u8>) -> Option<Seq<char>> {
    if valid_utf8(bytes) {
        Some(decode_utf8(bytes))
    } else {
        None
    }
}

/// The keys and values of raw attributes as texts, where all of them are
/// UTF-8.
pub open spec fn attribute_texts(raw: Seq<(Seq<u8>, Seq<u8>)>) -> Option<
    Seq<(Seq<char>, Seq<char>)>,
> {
    if forall|i: int| 0 <= i < raw.len() ==> valid_utf8(#[trigger] raw[i].0) && valid_utf8(raw[i].1) {
        Some(raw.map_values(|a: (Seq<u8>, Seq<u8>)| (decode_utf8(a.0), decode_utf8(a.1))))
    } else {
        None
    }
}

/// The name and the attributes of a tag.
pub open spec fn tag_of(content: Seq<u8>, name_len: usize) -> Result<
    (Seq<char>, Seq<(Seq<char>, Seq<char>)>),
    FaultView,
> {
    if !valid_utf8(content) || name_len > content.len() || !is_char_boundary(
        content,
        name_len as int,
    ) {
        Err(FaultView::Encoding)
    } else {
        match attributes_of(decode_utf8(content), name_len) {
            None => Err(FaultView::Attribute),
            Some(raw) => match attribute_texts(raw) {
                None => Err(FaultView::Encoding),
                Some(attributes) => Ok(
                    (decode_utf8(content.subrange(0, name_len as int)), attributes),
                ),
            },
        }
    }
}

/// The event that a token stands for, or the fault in it.
pub open spec fn token_event(token: RawTokenView) -> Result<XmlEventView, FaultView> {
    match token {
        RawTokenView::Start { content, name_len } => match tag_of(content, name_len) {
            Ok((name, attributes)) => Ok(XmlEventView::Start { name, attributes }),
            Err(fault) => Err(fault),
        },
        RawTokenView::Empty { content, name_len } => match tag_of(content, name_len) {
            Ok((name, attributes)) => Ok(XmlEventView::Empty { name, attributes }),
            Err(fault) => Err(fault),
        },
        RawTokenView::Text(content) => match text_of_bytes(content) {
            None => Err(FaultView::Encoding),
            Some(raw) => match unescaped(raw) {
                None => Err(FaultView::Escape),
                Some(text) => Ok(XmlEventView::Text(text)),
            },
        },
        RawTokenView::End => Ok(XmlEventView::End),
        RawTokenView::Other => Ok(XmlEventView::Other),
        RawTokenView::Eof => Ok(XmlEventView::Other),
        RawTokenView::Malformed(detail) => Err(FaultView::Syntax(detail)),
    }
}

/// What decoding comes to from a state and the tokens that are left: the race
/// as it stands at the end of the document, or the first fault with the
/// place where the tokenizer stood then.
pub open spec fn outcome(d: DecoderView, tokens: Seq<(RawTokenView, usize)>) -> Result<
    RaceSummaryView,
    DecodeErrorView,
>
    decreases tokens.len(),
{
    if tokens.len() == 0 || tokens[0].0 is Eof {
        Ok(d.race)
    } else {
        match token_event(tokens[0].0) {
            Ok(event) => outcome(step(d, event), tokens.drop_first()),
            Err(fault) => Err(DecodeErrorView { position: tokens[0].1, fault }),
        }
    }
}

/// The events that tokens stand for, up to the end of the document or the
/// first fault.
pub open spec fn token_events(tokens: Seq<(RawTokenView, usize)>) -> Seq<XmlEventView>
    decreases tokens.len(),
{
    if tokens.len() == 0 || tokens[0].0 is Eof {
        Seq::empty()
    } else {
        match token_event(tokens[0].0) {
            Ok(event) => seq![event] + token_events(tokens.drop_first()),
            Err(_) => Seq::empty(),
        }
    }
}

/// Where decoding comes to a race, the race is what the events of the tokens
/// come to: what holds of the events of every document holds of the
/// documents themselves.
pub proof fn outcome_is_of_events(d: DecoderView, tokens: Seq<(RawTokenView, usize)>)
    ensures
        outcome(d, tokens) matches Ok(race) ==> race == run(d, token_events(tokens)).race,
    decreases tokens.len(),
{
    if tokens.len() > 0 && !(tokens[0].0 is Eof) {
        match token_event(tokens[0].0) {
            Ok(event) => {
                let rest = token_events(tokens.drop_first());
                outcome_is_of_events(step(d, event), tokens.drop_first());
                run_push(d, Seq::empty(), event);
                assert(Seq::<XmlEventView>::empty().push(event) =~= seq![event]);
                run_concat(d, seq![event], rest);
            },
            Err(_) => {},
        }
    }
}

/// The text that bytes encode, where they are UTF-8.
fn text_of(bytes: &[u8]) -> (r: Option<String>)
    ensures
        match text_of_bytes(bytes@) {
            Some(text) => r matches Some(s) && s@ == text,
            None => r is None,
        },
{
    match utf8_text(bytes) {
        Some(s) => {
            proof {
                encode_utf8_decode_utf8(s@);
            }
            Some(s.to_owned())
        },
        None => None,
    }
}

/// The keys and values of raw attributes as texts, where all of them are
/// UTF-8.
fn texts_of(raw: &Vec<(Vec<u8>, Vec<u8>)>) -> (r: Option<Vec<(String, String)>>)
    ensures
        match attribute_texts(raw_attribute_views(raw@)) {
            Some(texts) => r matches Some(v) && attribute_views(v@) == texts,
            None => r is None,
        },
{
    let ghost all = raw_attribute_views(raw@);
    let mut out: Vec<(String, String)> = Vec::new();
    let mut i: usize = 0;
    while i < raw.len()
        invariant
            i <= raw.len(),
            all == raw_attribute_views(raw@),
            out.len() == i,
            forall|j: int|
                0 <= j < i ==> valid_utf8(#[trigger] all[j].0) && valid_utf8(all[j].1) && out@[j].0@
                    == decode_utf8(all[j].0) && out@[j].1@ == decode_utf8(all[j].1),
        decreases raw.len() - i,
    {
        assert(all[i as int] == (raw@[i as int].0@, raw@[i as int].1@));
        let key = match text_of(raw[i].0.as_slice()) {
            Some(key) => key,
            None => {
                assert(!valid_utf8(all[i as int].0));
                return None;
            },
        };
        let value = match text_of(raw[i].1.as_slice()) {
            Some(value) => value,
            None => {
                assert(valid_utf8(all[i as int].0) && !valid_utf8(all[i as int].1));
                return None;
            },
        };
        out.push((key, value));
        i += 1;
    }
    assert(attribute_views(out@) =~= all.map_values(
        |a: (Seq<u8>, Seq<u8>)| (decode_utf8(a.0), decode_utf8(a.1)),
    ));
    Some(out)
}

/// The name and the attributes of a tag.
fn tag_parts(content: &Vec<u8>, name_len: usize) -> (r: Result<
    (String, Vec<(String, String)>),
    Fault,
>)
    ensures
        match tag_of(content@, name_len) {
            Ok((name, attributes)) => r matches Ok(parts) && parts.0@ == name && attribute_views(
                parts.1@,
            ) == attributes,
            Err(fault) => r matches Err(f) && f@ == fault,
        },
{
    let text = match utf8_text(content.as_slice()) {
        Some(text) => text,
        None => {
            return Err(Fault::Encoding);
        },
    };
    proof {
        encode_utf8_decode_utf8(text@);
    }
    assert(text.spec_bytes() == content@);
    if name_len > content.len() || !text.is_char_boundary(name_len) {
        return Err(Fault::Encoding);
    }
    let raw = match tag_attributes(text, name_len) {
        Some(raw) => raw,
        None => {
            return Err(Fault::Attribute);
        },
    };
    let attributes = match texts_of(&raw) {
        Some(attributes) => attributes,
        None => {
            return Err(Fault::Encoding);
        },
    };
    let (name, _) = text.split_at(name_len);
    proof {
        encode_utf8_decode_utf8(name@);
    }
    Ok((name.to_owned(), attributes))
}

/// The event that a token stands for, or the fault in it.
pub fn event_of_token(token: RawToken) -> (r: Result<XmlEvent, Fault>)
    ensures
        match token_event(token@) {
            Ok(event) => r matches Ok(e) && e@ == event,
            Err(fault) => r matches Err(f) && f@ == fault,
        },
{
    match token {
        RawToken::Start { content, name_len } => match tag_parts(&content, name_len) {
            Ok((name, attributes)) => Ok(XmlEvent::Start { name, attributes }),
            Err(fault) => Err(fault),
        },
        RawToken::Empty { content, name_len } => match tag_parts(&content, name_len) {
            Ok((name, attributes)) => Ok(XmlEvent::Empty { name, attributes }),
            Err(fault) => Err(fault),
        },
        RawToken::Text(content) => match text_of(content.as_slice()) {
            None => Err(Fault::Encoding),
            Some(raw) => match unescape_text(raw.as_str()) {
                None => Err(Fault::Escape),
                Some(text) => Ok(XmlEvent::Text(text)),
            },
        },
        RawToken::End => Ok(XmlEvent::End),
        RawToken::Other => Ok(XmlEvent::Other),
        RawToken::Eof => Ok(XmlEvent::Other),
        RawToken::Malformed(detail) => Err(Fault::Syntax(detail)),
    }
}

/// Decodes a document: the race that its tokens come to, or the first fault
/// in it with the place in the bytes where the tokenizer stood then. Each
/// value of a race that comes of it is in the one form that its kind allows.
pub fn proccess_basic(xml: &[u8]) -> (r: Result<RaceSummary, DecodeError>)
    ensures
        match outcome(initial(), document_tokens(xml@)) {
            Ok(race) => r matches Ok(x) && x@ == race,
            Err(error) => r matches Err(e) && e@ == error,
        },
        r matches Ok(x) ==> race_sound(x@),
{
    let mut reader = open_reader(xml);
    let mut decoder = Decoder::new();
    loop
        invariant
            outcome(initial(), document_tokens(xml@)) == outcome(decoder@, pending_tokens(reader)),
            sound_state(decoder@),
        decreases pending_tokens(reader).len(),
    {
        let (token, position) = next_token(&mut reader);
        if let RawToken::Eof = token {
            return Ok(decoder.finish());
        }
        match event_of_token(token) {
            Ok(event) => {
                decoder.step(&event);
            },
            Err(fault) => {
                return Err(DecodeError { position, fault });
            },
        }
    }
}

} // verus!
