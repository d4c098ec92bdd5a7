use vstd::prelude::*;

use crate::timestamp::Timestamp;

verus! {

/// The RFC 3339 text of the instant `unix_secs` seconds and `nanos`
/// nanoseconds past the Unix epoch, shown at the UTC offset `offset_secs`; or
/// `None` where the calendar cannot show it.
pub uninterp spec fn rfc3339_text(unix_secs: int, nanos: int, offset_secs: int) -> Option<
    Seq<char>,
>;

/// `url` with the query parameter `start` set to `start`, percent-encoded, in
/// its serialized form; or `None` where `url` is not an absolute URL.
pub uninterp spec fn url_with_start(url: Seq<char>, start: Seq<char>) -> Option<Seq<char>>;

/// Relies on time's `OffsetDateTime::format` with the `Rfc3339` description:
/// the text depends on the instant and the offset alone. Building the
/// `OffsetDateTime` fails for an instant or offset out of the calendar's range.
#[verifier::external_body]
pub(crate) fn format_rfc3339(t: &Timestamp) -> (r: Option<String>)
    ensures
        match r {
            Some(s) => rfc3339_text(t.unix_secs as int, t.nanos as int, t.offset_secs as int)
                == Some(s@),
            None => rfc3339_text(t.unix_secs as int, t.nanos as int, t.offset_secs as int) is None,
        },
{
    let utc = time::OffsetDateTime::from_unix_timestamp(t.unix_secs).ok()?;
    let at = utc.replace_nanosecond(t.nanos).ok()?;
    let offset = time::UtcOffset::from_whole_seconds(t.offset_secs).ok()?;
    at.checked_to_offset(offset)?.format(&time::format_description::well_known::Rfc3339).ok()
}

/// Relies on url's `Url::parse_with_params`: parses `url` and appends the pair
/// (`start`, `start`) to its query; the serialization depends on the two
/// strings alone.
#[verifier::external_body]
pub(crate) fn add_start_param(url: &str, start: &str) -> (r: Option<String>)
    ensures
        match r {
            Some(s) => url_with_start(url@, start@) == Some(s@),
            None => url_with_start(url@, start@) is None,
        },
{
    url::Url::parse_with_params(url, &[("start", start)]).ok().map(String::from)
}

/// `s` without its leading and trailing white space.
pub uninterp spec fn trimmed(s: Seq<char>) -> Seq<char>;

/// Relies on `str::trim`: removes leading and trailing characters with the
/// Unicode `White_Space` property; the result depends on `s` alone.
#[verifier::external_body]
pub(crate) fn trim_text(s: &str) -> (r: String)
    ensures
        r@ == trimmed(s@),
{
    s.trim().to_owned()
}

/// The text of each element of the HTML document `html` that the CSS
/// selector `selector` matches, in document order; `None` where the selector
/// does not parse.
pub uninterp spec fn matched_texts(html: Seq<char>, selector: Seq<char>) -> Option<Seq<Seq<char>>>;

/// The `href` attribute, where there is one, and the text of each element of
/// the HTML document `html` that the CSS selector `selector` matches, in
/// document order; `None` where the selector does not parse.
pub uninterp spec fn matched_links(html: Seq<char>, selector: Seq<char>) -> Option<
    Seq<(Option<Seq<char>>, Seq<char>)>,
>;

/// Relies on scraper's `Html::select` after `Html::parse_document` and
/// `Selector::parse`, each element's text being its text nodes joined: the
/// result depends on the two strings alone.
#[verifier::external_body]
pub(crate) fn select_texts(html: &str, selector: &str) -> (r: Option<Vec<String>>)
    ensures
        match r {
            Some(v) => matched_texts(html@, selector@) == Some(v@.map_values(|s: String| s@)),
            None => matched_texts(html@, selector@) is None,
        },
{
    let sel = scraper::Selector::parse(selector).ok()?;
    let doc = scraper::Html::parse_document(html);
    Some(doc.select(&sel).map(|e| e.text().collect::<String>()).collect())
}

/// Relies on scraper's `Html::select` after `Html::parse_document` and
/// `Selector::parse`, with `Element::attr` for the `href`: the result
/// depends on the two strings alone.
#[verifier::external_body]
pub(crate) fn select_links(html: &str, selector: &str) -> (r: Option<Vec<(Option<String>, String)>>)
    ensures
        match r {
            Some(v) => matched_links(html@, selector@) == Some(
                v@.map_values(|p: (Option<String>, String)| (opt_view(p.0), p.1@)),
            ),
            None => matched_links(html@, selector@) is None,
        },
{
    let sel = scraper::Selector::parse(selector).ok()?;
    let doc = scraper::Html::parse_document(html);
    let pair = |e: scraper::ElementRef| (e.value().attr("href").map(String::from), e.text().collect());
    Some(doc.select(&sel).map(pair).collect())
}

pub open spec fn opt_view(s: Option<String>) -> Option<Seq<char>> {
    match s {
        Some(t) => Some(t@),
        None => None,
    }
}

/// The text that time's `Display` gives for the instant `unix_secs` seconds
/// and `nanos` nanoseconds past the Unix epoch, shown at the UTC offset
/// `offset_secs`; or `None` where the calendar cannot show it.
pub uninterp spec fn date_time_text(unix_secs: int, nanos: int, offset_secs: int) -> Option<
    Seq<char>,
>;

/// Relies on time's `Display` for `OffsetDateTime`: the text depends on the
/// instant and the offset alone. Building the `OffsetDateTime` fails for an
/// instant or offset out of the calendar's range.
#[verifier::external_body]
pub(crate) fn display_date_time(t: &Timestamp) -> (r: Option<String>)
    ensures
        match r {
            Some(s) => date_time_text(t.unix_secs as int, t.nanos as int, t.offset_secs as int)
                == Some(s@),
            None => date_time_text(t.unix_secs as int, t.nanos as int, t.offset_secs as int) is None,
        },
{
    let utc = time::OffsetDateTime::from_unix_timestamp(t.unix_secs).ok()?;
    let at = utc.replace_nanosecond(t.nanos).ok()?;
    let offset = time::UtcOffset::from_whole_seconds(t.offset_secs).ok()?;
    Some(at.checked_to_offset(offset)?.to_string())
}

/// The XML escape of one character: `<`, `>`, `&`, `'` and `"` become entity
/// references, any other character stays.
pub open spec fn xml_escape_char(c: char) -> Seq<char> {
    if c == '<' {
        seq!['&', 'l', 't', ';']
    } else if c == '>' {
        seq!['&', 'g', 't', ';']
    } else if c == '&' {
        seq!['&', 'a', 'm', 'p', ';']
    } else if c == '\'' {
        seq!['&', 'a', 'p', 'o', 's', ';']
    } else if c == '"' {
        seq!['&', 'q', 'u', 'o', 't', ';']
    } else {
        seq![c]
    }
}

/// `s` with each character escaped for XML text and attribute values.
pub open spec fn xml_escaped(s: Seq<char>) -> Seq<char>
    decreases s.len(),
{
    if s.len() == 0 {
        Seq::empty()
    } else {
        xml_escaped(s.drop_last()) + xml_escape_char(s.last())
    }
}

/// Relies on quick_xml's `escape::escape`: replaces `<`, `>`, `&`, `'` and
/// `"` by their entity references and copies every other character.
#[verifier::external_body]
pub(crate) fn escape_xml(s: &str) -> (r: String)
    ensures
        r@ == xml_escaped(s@),
{
    quick_xml::escape::escape(s).into_owned()
}

} // verus!
