use vstd::prelude::*;

use crate::feed::{Feed, FeedEntry};
use crate::interop::{date_time_text, display_date_time, escape_xml, xml_escaped};
use crate::timestamp::Timestamp;

verus! {

pub const XML_DECLARATION: &'static str = "<?xml version=\"1.0\" encoding=\"UTF-8\"?>\n";

pub const ATOM_NAMESPACE: &'static str = "http://www.w3.org/2005/Atom";

pub const GENERATOR_NAME: &'static str = "Okkake-rs";

pub const GENERATOR_VERSION: &'static str = "0.1.0";

/// ` key="value"`, the value escaped.
pub open spec fn attr(key: Seq<char>, value: Seq<char>) -> Seq<char> {
    " "@ + key + "=\""@ + xml_escaped(value) + "\""@
}

pub open spec fn open_tag(name: Seq<char>, attrs: Seq<char>) -> Seq<char> {
    "<"@ + name + attrs + ">"@
}

pub open spec fn close_tag(name: Seq<char>) -> Seq<char> {
    "</"@ + name + ">"@
}

/// An element holding only the escaped `text`.
pub open spec fn text_element(name: Seq<char>, attrs: Seq<char>, text: Seq<char>) -> Seq<char> {
    open_tag(name, attrs) + xml_escaped(text) + close_tag(name)
}

pub open spec fn empty_element(name: Seq<char>, attrs: Seq<char>) -> Seq<char> {
    "<"@ + name + attrs + "/>"@
}

pub open spec fn date_text(t: Timestamp) -> Option<Seq<char>> {
    date_time_text(t.unix_secs as int, t.nanos as int, t.offset_secs as int)
}

/// The `<entry>` element of `e`, its dates shown as `published` and `updated`.
pub open spec fn entry_xml(e: FeedEntry, published: Seq<char>, updated: Seq<char>) -> Seq<char> {
    open_tag("entry"@, Seq::empty()) + text_element("title"@, attr("type"@, "text"@), e.title@)
        + text_element("published"@, Seq::empty(), published) + text_element(
        "updated"@,
        Seq::empty(),
        updated,
    ) + empty_element(
        "link"@,
        attr("rel"@, "alternate"@) + attr("type"@, "text/html"@) + attr("href"@, e.alternate@),
    ) + text_element("id"@, Seq::empty(), e.id@) + close_tag("entry"@)
}

/// The `<entry>` elements of `es` in order; `None` where a date cannot be
/// shown.
pub open spec fn entries_xml(es: Seq<FeedEntry>) -> Option<Seq<char>>
    decreases es.len(),
{
    if es.len() == 0 {
        Some(Seq::empty())
    } else {
        let e = es.last();
        match (entries_xml(es.drop_last()), date_text(e.published), date_text(e.updated)) {
            (Some(head), Some(p), Some(u)) => Some(head + entry_xml(e, p, u)),
            _ => None,
        }
    }
}

/// Everything of the `<feed>` element before its entries.
pub open spec fn feed_head_xml(f: Feed, updated: Seq<char>) -> Seq<char> {
    open_tag("feed"@, attr("xmlns"@, ATOM_NAMESPACE@)) + text_element(
        "title"@,
        attr("type"@, "text"@),
        f.title@,
    ) + text_element("subtitle"@, attr("type"@, "text"@), f.subtitle@) + text_element(
        "updated"@,
        Seq::empty(),
        updated,
    ) + text_element("generator"@, attr("version"@, GENERATOR_VERSION@), GENERATOR_NAME@)
        + empty_element(
        "link"@,
        attr("rel"@, "self"@) + attr("type"@, "application/atom+xml"@) + attr("href"@, f.id@),
    ) + text_element("id"@, Seq::empty(), f.id@) + open_tag("author"@, Seq::empty())
        + text_element("name"@, Seq::empty(), f.author_name@) + close_tag("author"@)
}

/// The Atom document of `f`; `None` where a date cannot be shown.
pub open spec fn feed_xml(f: Feed) -> Option<Seq<char>> {
    match (date_text(f.updated), entries_xml(f.entries@)) {
        (Some(u), Some(es)) => Some(
            XML_DECLARATION@ + feed_head_xml(f, u) + es + close_tag("feed"@),
        ),
        _ => None,
    }
}

fn push_attr(out: &mut String, key: &str, value: &str)
    ensures
        final(out)@ == old(out)@ + attr(key@, value@),
{
    out.append(" ");
    out.append(key);
    out.append("=\"");
    let escaped = escape_xml(value);
    out.append(escaped.as_str());
    out.append("\"");
    assert(final(out)@ =~= old(out)@ + attr(key@, value@));
}

fn push_open_tag(out: &mut String, name: &str, attrs: &str)
    ensures
        final(out)@ == old(out)@ + open_tag(name@, attrs@),
{
    out.append("<");
    out.append(name);
    out.append(attrs);
    out.append(">");
    assert(final(out)@ =~= old(out)@ + open_tag(name@, attrs@));
}

fn push_close_tag(out: &mut String, name: &str)
    ensures
        final(out)@ == old(out)@ + close_tag(name@),
{
    out.append("</");
    out.append(name);
    out.append(">");
    assert(final(out)@ =~= old(out)@ + close_tag(name@));
}

fn push_text_element(out: &mut String, name: &str, attrs: &str, text: &str)
    ensures
        final(out)@ == old(out)@ + text_element(name@, attrs@, text@),
{
    push_open_tag(out, name, attrs);
    let escaped = escape_xml(text);
    out.append(escaped.as_str());
    push_close_tag(out, name);
    assert(final(out)@ =~= old(out)@ + text_element(name@, attrs@, text@));
}

fn push_empty_element(out: &mut String, name: &str, attrs: &str)
    ensures
        final(out)@ == old(out)@ + empty_element(name@, attrs@),
{
    out.append("<");
    out.append(name);
    out.append(attrs);
    out.append("/>");
    assert(final(out)@ =~= old(out)@ + empty_element(name@, attrs@));
}

/// Attributes `type="text"`.
fn text_type() -> (r: String)
    ensures
        r@ == attr("type"@, "text"@),
{
    let mut a = String::new();
    push_attr(&mut a, "type", "text");
    assert(a@ =~= attr("type"@, "text"@));
    a
}

fn push_entry(out: &mut String, e: &FeedEntry, published: &str, updated: &str)
    ensures
        final(out)@ == old(out)@ + entry_xml(*e, published@, updated@),
{
    let ghost start = out@;
    let none = String::new();
    push_open_tag(out, "entry", none.as_str());
    push_text_element(out, "title", text_type().as_str(), e.title.as_str());
    push_text_element(out, "published", none.as_str(), published);
    push_text_element(out, "updated", none.as_str(), updated);
    let mut link = String::new();
    push_attr(&mut link, "rel", "alternate");
    push_attr(&mut link, "type", "text/html");
    push_attr(&mut link, "href", e.alternate.as_str());
    push_empty_element(out, "link", link.as_str());
    push_text_element(out, "id", none.as_str(), e.id.as_str());
    push_close_tag(out, "entry");
    assert(link@ =~= attr("rel"@, "alternate"@) + attr("type"@, "text/html"@) + attr(
        "href"@,
        e.alternate@,
    ));
    assert(none@ =~= Seq::<char>::empty());
    assert(out@ =~= start + entry_xml(*e, published@, updated@));
}

proof fn lemma_entries_xml_fails_on(es: Seq<FeedEntry>, i: int)
    requires
        0 <= i <= es.len(),
        entries_xml(es.subrange(0, i)) is None,
    ensures
        entries_xml(es) is None,
    decreases es.len() - i,
{
    if i < es.len() {
        assert(es.subrange(0, i + 1).drop_last() =~= es.subrange(0, i));
        lemma_entries_xml_fails_on(es, i + 1);
    } else {
        assert(es.subrange(0, i) =~= es);
    }
}

/// The Atom document of `f`, as `feed_xml` says: the feed's title, subtitle,
/// date, generator, self link, id and author, then its entries in order.
/// `None` where a date cannot be shown.
pub fn to_xml(f: &Feed) -> (r: Option<String>)
    ensures
        match r {
            Some(x) => feed_xml(*f) == Some(x@),
            None => feed_xml(*f) is None,
        },
{
    let mut entries = String::new();
    let mut i: usize = 0;
    while i < f.entries.len()
        invariant
            i <= f.entries@.len(),
            entries_xml(f.entries@.subrange(0, i as int)) == Some(entries@),
        decreases f.entries@.len() - i,
    {
        let e = &f.entries[i];
        let ghost prefix = f.entries@.subrange(0, i + 1);
        proof {
            assert(prefix.drop_last() =~= f.entries@.subrange(0, i as int));
        }
        let published = match display_date_time(&e.published) {
            Some(p) => p,
            None => {
                proof {
                    lemma_entries_xml_fails_on(f.entries@, i + 1);
                }
                return None;
            },
        };
        let updated = match display_date_time(&e.updated) {
            Some(u) => u,
            None => {
                proof {
                    lemma_entries_xml_fails_on(f.entries@, i + 1);
                }
                return None;
            },
        };
        push_entry(&mut entries, e, published.as_str(), updated.as_str());
        i = i + 1;
    }
    assert(f.entries@.subrange(0, f.entries@.len() as int) =~= f.entries@);
    let updated = match display_date_time(&f.updated) {
        Some(u) => u,
        None => {
            return None;
        },
    };
    let none = String::new();
    let mut namespace = String::new();
    push_attr(&mut namespace, "xmlns", ATOM_NAMESPACE);
    let mut out = String::from_str(XML_DECLARATION);
    push_open_tag(&mut out, "feed", namespace.as_str());
    push_text_element(&mut out, "title", text_type().as_str(), f.title.as_str());
    push_text_element(&mut out, "subtitle", text_type().as_str(), f.subtitle.as_str());
    push_text_element(&mut out, "updated", none.as_str(), updated.as_str());
    let mut version = String::new();
    push_attr(&mut version, "version", GENERATOR_VERSION);
    push_text_element(&mut out, "generator", version.as_str(), GENERATOR_NAME);
    let mut link = String::new();
    push_attr(&mut link, "rel", "self");
    push_attr(&mut link, "type", "application/atom+xml");
    push_attr(&mut link, "href", f.id.as_str());
    push_empty_element(&mut out, "link", link.as_str());
    push_text_element(&mut out, "id", none.as_str(), f.id.as_str());
    push_open_tag(&mut out, "author", none.as_str());
    push_text_element(&mut out, "name", none.as_str(), f.author_name.as_str());
    push_close_tag(&mut out, "author");
    out.append(entries.as_str());
    push_close_tag(&mut out, "feed");
    assert(none@ =~= Seq::<char>::empty());
    assert(namespace@ =~= attr("xmlns"@, ATOM_NAMESPACE@));
    assert(version@ =~= attr("version"@, GENERATOR_VERSION@));
    assert(link@ =~= attr("rel"@, "self"@) + attr("type"@, "application/atom+xml"@) + attr(
        "href"@,
        f.id@,
    ));
    assert(out@ =~= XML_DECLARATION@ + feed_head_xml(*f, updated@) + entries@ + close_tag(
        "feed"@,
    ));
    Some(out)
}

} // verus!
