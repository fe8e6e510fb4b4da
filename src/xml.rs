//! The events of an XML document, as quick-xml's pull reader produces them.
use vstd::prelude::*;
use quick_xml::events::Event;
use quick_xml::reader::Reader;

verus! {

#[verifier::external_type_specification]
#[verifier::external_body]
#[verifier::reject_recursive_types(R)]
pub struct ExReader<R>(Reader<R>);

#[verifier::external_type_specification]
#[verifier::external_body]
pub struct ExXmlError(quick_xml::Error);

/// One event of the document, with a tag given by its local name (prefix dropped) and
/// a text by its raw, still escaped bytes.
pub enum XmlEvent {
    Start(Vec<u8>),
    End(Vec<u8>),
    Text(Vec<u8>),
    Eof,
    Other,
}

/// What an `XmlEvent` holds, with byte sequences for vectors.
pub enum EventView {
    Start(Seq<u8>),
    End(Seq<u8>),
    Text(Seq<u8>),
    Eof,
    Other,
}

impl View for XmlEvent {
    type V = EventView;

    open spec fn view(&self) -> EventView {
        match self {
            XmlEvent::Start(n) => EventView::Start(n@),
            XmlEvent::End(n) => EventView::End(n@),
            XmlEvent::Text(t) => EventView::Text(t@),
            XmlEvent::Eof => EventView::Eof,
            XmlEvent::Other => EventView::Other,
        }
    }
}

/// The event that a fresh quick-xml reader over `doc`, with text trimming set to
/// `trim`, returns at its `k`-th read (counted from 0); `None` where that read fails.
pub uninterp spec fn xml_event_at(doc: Seq<char>, trim: bool, k: nat) -> Option<EventView>;

/// What quick-xml's `unescape` makes of `raw`; `None` where it refuses it (an unknown
/// or unterminated entity reference).
pub uninterp spec fn xml_unescaped(raw: Seq<char>) -> Option<Seq<char>>;

/// A quick-xml reader over a document, with the number of events read so far.
pub(crate) struct XmlCursor<'a> {
    pub(crate) reader: Reader<&'a [u8]>,
    pub(crate) doc: Ghost<Seq<char>>,
    pub(crate) trim: bool,
    pub(crate) read: Ghost<nat>,
}

impl<'a> XmlCursor<'a> {
    /// Relies on `Reader::from_str`: a reader at the start of `doc`, which by default
    /// does not trim text events.
    #[verifier::external_body]
    pub(crate) fn open(doc: &'a str) -> (r: XmlCursor<'a>)
        ensures
            r.doc@ == doc@,
            r.trim == false,
            r.read@ == 0,
    {
        XmlCursor { reader: Reader::from_str(doc), doc: Ghost(doc@), trim: false, read: Ghost(0) }
    }

    /// Relies on `Reader::trim_text`: from now on text events are trimmed of white space
    /// at both ends, and those left empty are skipped, exactly when `val`.
    #[verifier::external_body]
    pub(crate) fn trim_text(&mut self, val: bool)
        requires
            old(self).read@ == 0,
        ensures
            final(self).doc == old(self).doc,
            final(self).trim == val,
            final(self).read == old(self).read,
    {
        self.reader.trim_text(val);
        self.trim = val;
    }

    /// Relies on `Reader::read_event`: the next event of the document, or the error
    /// that stops it. Start and end tags are reported by `local_name`, text by its bytes.
    #[verifier::external_body]
    pub(crate) fn next_event(&mut self) -> (r: Result<XmlEvent, quick_xml::Error>)
        ensures
            final(self).doc == old(self).doc,
            final(self).trim == old(self).trim,
            final(self).read@ == old(self).read@ + 1,
            match xml_event_at(old(self).doc@, old(self).trim, old(self).read@) {
                Some(e) => r matches Ok(v) && v@ == e,
                None => r is Err,
            },
    {
        self.read = Ghost(self.read@ + 1);
        match self.reader.read_event() {
            Ok(Event::Start(e)) => Ok(XmlEvent::Start(e.local_name().as_ref().to_vec())),
            Ok(Event::End(e)) => Ok(XmlEvent::End(e.local_name().as_ref().to_vec())),
            Ok(Event::Text(e)) => Ok(XmlEvent::Text(e.into_inner().into_owned())),
            Ok(Event::Eof) => Ok(XmlEvent::Eof),
            Ok(_) => Ok(XmlEvent::Other),
            Err(e) => Err(e),
        }
    }
}

/// Relies on `quick_xml::escape::unescape`: the text with its entity and character
/// references resolved, or `None` where one of them is not recognised.
#[verifier::external_body]
pub(crate) fn unescape_text(raw: &str) -> (r: Option<String>)
    ensures
        r matches Some(s) ==> xml_unescaped(raw@) == Some(s@),
        r is None ==> xml_unescaped(raw@) is None,
{
    quick_xml::escape::unescape(raw).ok().map(|c| c.into_owned())
}

} // verus!
