//! The two scans of a sitemap document: the child sitemaps of an index, and the page
//! URLs of a leaf sitemap.
use vstd::prelude::*;
use vstd::utf8::{decode_utf8, valid_utf8};
use crate::normalize::utf8_text;
use crate::xml::{unescape_text, xml_event_at, xml_unescaped, EventView, XmlCursor, XmlEvent};

verus! {

/// The document is not well-formed XML, or a `loc` text holds a reference that cannot
/// be resolved.
#[derive(Clone, Copy, Debug, PartialEq, Eq)]
pub struct ParseError;

pub open spec fn loc_tag() -> Seq<u8> {
    seq![108u8, 111u8, 99u8]
}

pub open spec fn sitemap_tag() -> Seq<u8> {
    seq![115u8, 105u8, 116u8, 101u8, 109u8, 97u8, 112u8]
}

pub open spec fn url_tag() -> Seq<u8> {
    seq![117u8, 114u8, 108u8]
}

/// The value of a text event: its bytes decoded as UTF-8, then unescaped.
pub open spec fn text_value(t: Seq<u8>) -> Option<Seq<char>> {
    if valid_utf8(t) {
        xml_unescaped(decode_utf8(t))
    } else {
        None
    }
}

pub open spec fn prepend(a: Seq<Seq<char>>, o: Option<Seq<Seq<char>>>) -> Option<Seq<Seq<char>>> {
    match o {
        Some(r) => Some(a + r),
        None => None,
    }
}

/// The texts collected from the `k`-th event of `doc` on, within at most `fuel` events:
/// a start tag named `parent` sets `in_parent` and its end tag clears it; a start tag
/// `loc` while `in_parent` sets `in_loc`; a text while `in_loc` is collected and clears
/// `in_loc`. `None` where a read fails, a collected text has no value, or no end of the
/// document comes within `fuel` events.
pub open spec fn locs_from(
    doc: Seq<char>,
    trim: bool,
    parent: Seq<u8>,
    k: nat,
    fuel: nat,
    in_parent: bool,
    in_loc: bool,
) -> Option<Seq<Seq<char>>>
    decreases fuel,
{
    if fuel == 0 {
        None
    } else {
        match xml_event_at(doc, trim, k) {
            None => None,
            Some(EventView::Eof) => Some(Seq::empty()),
            Some(EventView::Start(n)) => if n == parent {
                locs_from(doc, trim, parent, k + 1, (fuel - 1) as nat, true, in_loc)
            } else if in_parent && n == loc_tag() {
                locs_from(doc, trim, parent, k + 1, (fuel - 1) as nat, in_parent, true)
            } else {
                locs_from(doc, trim, parent, k + 1, (fuel - 1) as nat, in_parent, in_loc)
            },
            Some(EventView::End(n)) => if n == parent {
                locs_from(doc, trim, parent, k + 1, (fuel - 1) as nat, false, in_loc)
            } else {
                locs_from(doc, trim, parent, k + 1, (fuel - 1) as nat, in_parent, in_loc)
            },
            Some(EventView::Text(t)) => if in_loc {
                match text_value(t) {
                    None => None,
                    Some(s) => prepend(
                        seq![s],
                        locs_from(doc, trim, parent, k + 1, (fuel - 1) as nat, in_parent, false),
                    ),
                }
            } else {
                locs_from(doc, trim, parent, k + 1, (fuel - 1) as nat, in_parent, in_loc)
            },
            Some(EventView::Other) => locs_from(
                doc,
                trim,
                parent,
                k + 1,
                (fuel - 1) as nat,
                in_parent,
                in_loc,
            ),
        }
    }
}

/// The `loc` texts of a whole document. Every event that the reader produces consumes
/// at least one byte, so the end comes within one event more than the document has
/// bytes.
pub open spec fn doc_locs(doc: &str, trim: bool, parent: Seq<u8>) -> Option<Seq<Seq<char>>> {
    locs_from(doc@, trim, parent, 0, (doc.len() + 1) as nat, false, false)
}

/// The child sitemap URLs of an index: `loc` texts inside `sitemap` elements, read with
/// text trimming.
pub open spec fn sitemap_locs(doc: &str) -> Option<Seq<Seq<char>>> {
    doc_locs(doc, true, sitemap_tag())
}

/// The page URLs of a leaf sitemap: `loc` texts inside `url` elements, read without text
/// trimming.
pub open spec fn url_locs(doc: &str) -> Option<Seq<Seq<char>>> {
    doc_locs(doc, false, url_tag())
}

proof fn lemma_failure_ahead(
    doc: Seq<char>,
    trim: bool,
    parent: Seq<u8>,
    k: nat,
    fuel: nat,
    in_parent: bool,
    in_loc: bool,
    j: nat,
)
    requires
        k <= j,
        xml_event_at(doc, trim, j) is None,
        forall|i: nat| k <= i < j ==> xml_event_at(doc, trim, i) != Some(EventView::Eof),
    ensures
        locs_from(doc, trim, parent, k, fuel, in_parent, in_loc) is None,
    decreases fuel,
{
    if fuel > 0 && k < j {
        assert(xml_event_at(doc, trim, k) != Some(EventView::Eof));
        lemma_failure_ahead(doc, trim, parent, k + 1, (fuel - 1) as nat, in_parent, in_loc, j);
        lemma_failure_ahead(doc, trim, parent, k + 1, (fuel - 1) as nat, true, in_loc, j);
        lemma_failure_ahead(doc, trim, parent, k + 1, (fuel - 1) as nat, in_parent, true, j);
        lemma_failure_ahead(doc, trim, parent, k + 1, (fuel - 1) as nat, false, in_loc, j);
        lemma_failure_ahead(doc, trim, parent, k + 1, (fuel - 1) as nat, in_parent, false, j);
    }
}

/// Malformed XML is refused: where the reader fails on some event of `doc` before it
/// reports the end of the document, the scan fails, whatever element it collects from.
/// So both `extract_sitemaps` and `count_urls` return `ParseError` on such a document.
pub proof fn malformed_is_refused(doc: &str, trim: bool, parent: Seq<u8>, j: nat)
    requires
        xml_event_at(doc@, trim, j) is None,
        forall|i: nat| i < j ==> xml_event_at(doc@, trim, i) != Some(EventView::Eof),
    ensures
        doc_locs(doc, trim, parent) is None,
        trim ==> sitemap_locs(doc) is None,
        !trim ==> url_locs(doc) is None,
{
    lemma_failure_ahead(doc@, trim, parent, 0, (doc.len() + 1) as nat, false, false, j);
    lemma_failure_ahead(doc@, trim, sitemap_tag(), 0, (doc.len() + 1) as nat, false, false, j);
    lemma_failure_ahead(doc@, trim, url_tag(), 0, (doc.len() + 1) as nat, false, false, j);
}

pub open spec fn strings_view(v: Seq<String>) -> Seq<Seq<char>> {
    v.map_values(|s: String| s@)
}

fn same_bytes(a: &Vec<u8>, b: &Vec<u8>) -> (r: bool)
    ensures
        r == (a@ == b@),
{
    if a.len() != b.len() {
        return false;
    }
    let mut i: usize = 0;
    while i < a.len()
        invariant
            i <= a.len(),
            a@.len() == b@.len(),
            forall|j: int| 0 <= j < i ==> a@[j] == b@[j],
        decreases a.len() - i,
    {
        if a[i] != b[i] {
            return false;
        }
        i += 1;
    }
    assert(a@ =~= b@);
    true
}

/// The texts of the `loc` elements inside `parent` elements of `doc`, in document order.
pub fn scan_locs(doc: &str, trim: bool, parent: &Vec<u8>) -> (r: Result<Vec<String>, ParseError>)
    ensures
        match doc_locs(doc, trim, parent@) {
            Some(v) => r matches Ok(w) && strings_view(w@) == v,
            None => r is Err,
        },
{
    let mut cur = XmlCursor::open(doc);
    cur.trim_text(trim);
    let mut out: Vec<String> = Vec::new();
    let mut in_parent = false;
    let mut in_loc = false;
    let mut fuel: usize = doc.len();
    let loc: Vec<u8> = vec![108u8, 111u8, 99u8];
    assert(loc@ =~= loc_tag());
    assert(strings_view(out@) + doc_locs(doc, trim, parent@)->0 =~= doc_locs(doc, trim, parent@)->0);
    loop
        invariant
            cur.doc@ == doc@,
            cur.trim == trim,
            loc@ == loc_tag(),
            doc_locs(doc, trim, parent@) == prepend(
                strings_view(out@),
                locs_from(doc@, trim, parent@, cur.read@, (fuel + 1) as nat, in_parent, in_loc),
            ),
        decreases fuel,
    {
        let ghost k = cur.read@;
        let ghost rest = locs_from(doc@, trim, parent@, k + 1, fuel as nat, in_parent, false);
        let ev = match cur.next_event() {
            Ok(e) => e,
            Err(_) => return Err(ParseError),
        };
        match ev {
            XmlEvent::Eof => {
                assert(strings_view(out@) + Seq::empty() =~= strings_view(out@));
                return Ok(out);
            },
            XmlEvent::Start(n) => {
                if same_bytes(&n, parent) {
                    in_parent = true;
                } else if in_parent && same_bytes(&n, &loc) {
                    in_loc = true;
                }
            },
            XmlEvent::End(n) => {
                if same_bytes(&n, parent) {
                    in_parent = false;
                }
            },
            XmlEvent::Text(t) => {
                if in_loc {
                    let raw = match utf8_text(t.as_slice()) {
                        Some(s) => s,
                        None => return Err(ParseError),
                    };
                    let value = match unescape_text(raw.as_str()) {
                        Some(s) => s,
                        None => return Err(ParseError),
                    };
                    let ghost before = out@;
                    out.push(value);
                    proof {
                        assert(strings_view(out@) =~= strings_view(before) + seq![value@]);
                        if rest is Some {
                            assert(strings_view(before) + (seq![value@] + rest->0) =~= strings_view(
                                out@,
                            ) + rest->0);
                        }
                    }
                    in_loc = false;
                }
            },
            XmlEvent::Other => {},
        }
        if fuel == 0 {
            assert(locs_from(doc@, trim, parent@, cur.read@, 0, in_parent, in_loc) is None);
            return Err(ParseError);
        }
        fuel -= 1;
    }
}

/// The child sitemap URLs that a sitemap index lists, in document order: the first text
/// of each `loc` element inside a `sitemap` element. Empty where the document is no
/// index.
pub fn extract_sitemaps(doc: &str) -> (r: Result<Vec<String>, ParseError>)
    ensures
        match sitemap_locs(doc) {
            Some(v) => r matches Ok(w) && strings_view(w@) == v,
            None => r is Err,
        },
{
    let tag: Vec<u8> = vec![115u8, 105u8, 116u8, 101u8, 109u8, 97u8, 112u8];
    assert(tag@ =~= sitemap_tag());
    scan_locs(doc, true, &tag)
}

/// The number of page URLs that a sitemap lists: the `loc` elements inside `url`
/// elements that have a text.
pub fn count_urls(doc: &str) -> (r: Result<usize, ParseError>)
    ensures
        match url_locs(doc) {
            Some(v) => r matches Ok(n) && n == v.len(),
            None => r is Err,
        },
{
    let tag: Vec<u8> = vec![117u8, 114u8, 108u8];
    assert(tag@ =~= url_tag());
    match scan_locs(doc, false, &tag) {
        Ok(v) => Ok(v.len()),
        Err(e) => Err(e),
    }
}

} // verus!
