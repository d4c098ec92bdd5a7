use vstd::prelude::*;

use crate::interop::{add_start_param, format_rfc3339, rfc3339_text, url_with_start};
use crate::ncode::{encode_ncode, Ncode};
use crate::schedule::{
    add_days, replay_window, shift_days, subtitle_index, title_index, window_end, window_start,
};
use crate::text::{decimal_text, push_decimal, strip_prefix, without_prefix};
use crate::timestamp::{Timestamp, SECS_PER_MINUTE};

verus! {

/// The origin that a redirect target is resolved against before it is cut
/// back to a path and query.
pub const REDIRECT_ORIGIN: &'static str = "http://example.com";

/// The section of the site a novel is published in.
#[derive(Clone, Copy, Debug, PartialEq, Eq, Structural, PartialOrd, Ord, Hash)]
pub enum Category {
    G,
    R18,
}

/// Why a feed or a redirect could not be built.
#[derive(Clone, Copy, Debug, PartialEq, Eq, Structural)]
pub enum FeedError {
    /// The start time has no RFC 3339 form.
    InvalidStart,
    /// The base address does not make a valid URL.
    InvalidUrl,
}

/// What a feed is built from.
#[derive(Clone, Debug)]
pub struct FeedParams {
    /// Where this service is reached, without a trailing slash.
    pub base: String,
    pub id: Ncode,
    pub category: Category,
    pub title: String,
    pub author: String,
    /// The subtitles of the published episodes, where they are known.
    pub subtitles: Option<Vec<String>>,
    pub start: Timestamp,
    pub now: Timestamp,
}

/// One replayed episode.
#[derive(Clone, Debug)]
pub struct FeedEntry {
    /// Days from the start time to this entry; the episode shown is `day + 1`.
    pub day: u64,
    pub title: String,
    pub published: Timestamp,
    pub updated: Timestamp,
    /// The entry's identity: its address on this service, with the start time.
    pub id: String,
    /// The episode's page on the novel site.
    pub alternate: String,
}

/// A replay feed, newest entry first.
#[derive(Clone, Debug)]
pub struct Feed {
    pub title: String,
    pub subtitle: String,
    /// The feed's identity and its own address.
    pub id: String,
    pub updated: Timestamp,
    pub author_name: String,
    pub entries: Vec<FeedEntry>,
}

impl Category {
    pub open spec fn subdomain_text(self) -> Seq<char> {
        match self {
            Category::G => "ncode"@,
            Category::R18 => "novel18"@,
        }
    }

    pub open spec fn novels_text(self) -> Seq<char> {
        match self {
            Category::G => "novels"@,
            Category::R18 => "r18novels"@,
        }
    }

    /// The host name part of the novel site for this section.
    pub fn subdomain(self) -> (r: &'static str)
        ensures
            r@ == self.subdomain_text(),
    {
        match self {
            Category::G => "ncode",
            Category::R18 => "novel18",
        }
    }

    /// The path segment of this service's feeds for this section.
    pub fn novels_name(self) -> (r: &'static str)
        ensures
            r@ == self.novels_text(),
    {
        match self {
            Category::G => "novels",
            Category::R18 => "r18novels",
        }
    }
}

/// `{base}/{novels}/{id}/atom.xml`: the feed's address before the start time.
pub open spec fn feed_path(base: Seq<char>, category: Category, id: Ncode) -> Seq<char> {
    base + seq!['/'] + category.novels_text() + seq!['/'] + encode_ncode(id.0 as nat)
        + "/atom.xml"@
}

/// `{base}/{novels}/{id}/{day + 1}/`: an entry's address before the start time.
pub open spec fn entry_path(p: FeedParams, day: int) -> Seq<char> {
    p.base@ + seq!['/'] + p.category.novels_text() + seq!['/'] + encode_ncode(p.id.0 as nat) + seq![
        '/',
    ] + decimal_text((day + 1) as nat) + seq!['/']
}

/// The novel site's page of episode `day + 1`.
pub open spec fn alternate_link(category: Category, id: Ncode, day: int) -> Seq<char> {
    "https://"@ + category.subdomain_text() + ".syosetu.com/"@ + encode_ncode(id.0 as nat) + seq![
        '/',
    ] + decimal_text((day + 1) as nat) + seq!['/']
}

/// An entry's title when no subtitle is known.
pub open spec fn placeholder_title(title: Seq<char>, day: int) -> Seq<char> {
    "連載小説["@ + title + "](第"@ + decimal_text((day + 1) as nat) + "部分【再】)"@
}

/// The title of the entry of `day`: the subtitle of that episode, or of the
/// last known one past them; a placeholder where none is known.
pub open spec fn entry_title(p: FeedParams, day: int) -> Seq<char> {
    if p.subtitles is Some && p.subtitles->0.len() > 0 {
        p.subtitles->0@[title_index(day, p.subtitles->0.len() as int)]@
    } else {
        placeholder_title(p.title@, day)
    }
}

/// `e` is the entry of `day` in the feed built from `p`, whose start time
/// reads `start_text`.
pub open spec fn is_entry_for(p: FeedParams, start_text: Seq<char>, day: int, e: FeedEntry) -> bool {
    &&& e.day == day
    &&& e.title@ == entry_title(p, day)
    &&& e.published == add_days(p.start, day)
    &&& e.updated == add_days(p.start, day)
    &&& url_with_start(entry_path(p, day), start_text) == Some(e.id@)
    &&& e.alternate@ == alternate_link(p.category, p.id, day)
}

/// `es` are the entries of the replay window at `p.now`, newest first.
pub open spec fn is_window_entries(p: FeedParams, start_text: Seq<char>, es: Seq<FeedEntry>) -> bool {
    let hi = window_end(p.start, p.now);
    &&& es.len() == hi - window_start(p.start, p.now)
    &&& forall|k: int| 0 <= k < es.len() ==> is_entry_for(p, start_text, hi - 1 - k, #[trigger] es[k])
}

/// Some entry of the window has no valid address.
pub open spec fn window_has_bad_url(p: FeedParams, start_text: Seq<char>) -> bool {
    exists|day: int|
        window_start(p.start, p.now) <= day < window_end(p.start, p.now) && #[trigger] url_with_start(
            entry_path(p, day),
            start_text,
        ) is None
}

pub open spec fn start_text_of(t: Timestamp) -> Option<Seq<char>> {
    rfc3339_text(t.unix_secs as int, t.nanos as int, t.offset_secs as int)
}

/// `f` is the feed built from `p`, whose start time reads `start_text` and
/// whose own address is `feed_url`.
pub open spec fn is_feed_for(p: FeedParams, start_text: Seq<char>, feed_url: Seq<char>, f: Feed) -> bool {
    &&& f.title@ == "【再】"@ + p.title@
    &&& f.subtitle@ == "『"@ + p.title@ + "』の既存話を再配信します。"@
    &&& f.id@ == feed_url
    &&& f.updated == p.now
    &&& f.author_name@ == p.author@
    &&& is_window_entries(p, start_text, f.entries@)
}

/// The start of the minute of `t`, in UTC.
pub open spec fn minute_start(t: Timestamp) -> Timestamp {
    Timestamp {
        unix_secs: ((t.unix_secs as int / SECS_PER_MINUTE as int) * SECS_PER_MINUTE) as i64,
        nanos: 0,
        offset_secs: 0,
    }
}

/// The path and query to redirect a feed request without a start time to:
/// its own address with the start time set to the current minute.
pub open spec fn redirect_target(category: Category, id: Ncode, now: Timestamp) -> Option<
    Seq<char>,
> {
    match start_text_of(minute_start(now)) {
        None => None,
        Some(st) => match url_with_start(feed_path(REDIRECT_ORIGIN@, category, id), st) {
            None => None,
            Some(u) => Some(without_prefix(u, REDIRECT_ORIGIN@)),
        },
    }
}

fn feed_address(base: &String, category: Category, id: Ncode) -> (r: String)
    ensures
        r@ == feed_path(base@, category, id),
{
    let mut out = base.clone();
    out.push('/');
    out.append(category.novels_name());
    out.push('/');
    let code = id.to_string();
    out.append(code.as_str());
    out.append("/atom.xml");
    assert(out@ =~= feed_path(base@, category, id));
    out
}

/// The entry of `day`, or `None` where its address is not a valid URL.
pub fn entry_for_day(p: &FeedParams, start_text: &str, day: u64) -> (r: Option<FeedEntry>)
    requires
        p.start.wf(),
        day <= 10000000,
    ensures
        match r {
            Some(e) => is_entry_for(*p, start_text@, day as int, e),
            None => url_with_start(entry_path(*p, day as int), start_text@) is None,
        },
{
    let code = p.id.to_string();
    let mut path = p.base.clone();
    path.push('/');
    path.append(p.category.novels_name());
    path.push('/');
    path.append(code.as_str());
    path.push('/');
    push_decimal(&mut path, day + 1);
    path.push('/');
    assert(path@ =~= entry_path(*p, day as int));
    let id = match add_start_param(path.as_str(), start_text) {
        Some(u) => u,
        None => {
            return None;
        },
    };
    let mut alternate = String::from_str("https://");
    alternate.append(p.category.subdomain());
    alternate.append(".syosetu.com/");
    alternate.append(code.as_str());
    alternate.push('/');
    push_decimal(&mut alternate, day + 1);
    alternate.push('/');
    assert(alternate@ =~= alternate_link(p.category, p.id, day as int));
    let title = match &p.subtitles {
        Some(subs) if subs.len() > 0 => subs[subtitle_index(day, subs.len())].clone(),
        _ => {
            let mut t = String::from_str("連載小説[");
            t.append(p.title.as_str());
            t.append("](第");
            push_decimal(&mut t, day + 1);
            t.append("部分【再】)");
            assert(t@ =~= placeholder_title(p.title@, day as int));
            t
        },
    };
    let at = shift_days(&p.start, day);
    Some(FeedEntry { day, title, published: at, updated: at, id, alternate })
}

/// The entries of the replay window at `p.now`, newest first: one per day
/// from the day `now` falls on (counted from `p.start`) back over at most
/// `WINDOW_DAYS` days, none before the start. `None` where some entry's
/// address is not a valid URL.
pub fn build_entries(p: &FeedParams, start_text: &str) -> (r: Option<Vec<FeedEntry>>)
    requires
        p.start.wf(),
        p.now.wf(),
    ensures
        match r {
            Some(es) => is_window_entries(*p, start_text@, es@),
            None => window_has_bad_url(*p, start_text@),
        },
{
    let (min, max) = replay_window(&p.start, &p.now);
    let mut entries: Vec<FeedEntry> = Vec::new();
    let mut day: u64 = max;
    while day > min
        invariant
            min == window_start(p.start, p.now),
            max == window_end(p.start, p.now),
            min <= day <= max,
            max <= 10000001,
            p.start.wf(),
            entries@.len() == max - day,
            forall|k: int|
                0 <= k < entries@.len() ==> is_entry_for(
                    *p,
                    start_text@,
                    max - 1 - k,
                    #[trigger] entries@[k],
                ),
        decreases day,
    {
        day = day - 1;
        match entry_for_day(p, start_text, day) {
            Some(e) => entries.push(e),
            None => {
                assert(url_with_start(entry_path(*p, day as int), start_text@) is None);
                return None;
            },
        }
    }
    Some(entries)
}

/// The replay feed for `p`: titled after the novel, identified by its own
/// address with the start time, with the entries of the replay window.
pub fn build_feed(p: &FeedParams) -> (r: Result<Feed, FeedError>)
    requires
        p.start.wf(),
        p.now.wf(),
    ensures
        match start_text_of(p.start) {
            None => r == Err::<Feed, FeedError>(FeedError::InvalidStart),
            Some(st) => match url_with_start(feed_path(p.base@, p.category, p.id), st) {
                None => r == Err::<Feed, FeedError>(FeedError::InvalidUrl),
                Some(fu) => if window_has_bad_url(*p, st) {
                    r == Err::<Feed, FeedError>(FeedError::InvalidUrl)
                } else {
                    r matches Ok(f) && is_feed_for(*p, st, fu, f)
                },
            },
        },
{
    let start_text = match format_rfc3339(&p.start) {
        Some(s) => s,
        None => {
            return Err(FeedError::InvalidStart);
        },
    };
    let address = feed_address(&p.base, p.category, p.id);
    let feed_url = match add_start_param(address.as_str(), start_text.as_str()) {
        Some(u) => u,
        None => {
            return Err(FeedError::InvalidUrl);
        },
    };
    let entries = match build_entries(p, start_text.as_str()) {
        Some(es) => es,
        None => {
            return Err(FeedError::InvalidUrl);
        },
    };
    proof {
        let hi = window_end(p.start, p.now);
        if window_has_bad_url(*p, start_text@) {
            let day = choose|day: int|
                window_start(p.start, p.now) <= day < hi && #[trigger] url_with_start(
                    entry_path(*p, day),
                    start_text@,
                ) is None;
            assert(is_entry_for(*p, start_text@, hi - 1 - (hi - 1 - day), entries@[hi - 1 - day]));
        }
    }
    let mut title = String::from_str("【再】");
    title.append(p.title.as_str());
    let mut subtitle = String::from_str("『");
    subtitle.append(p.title.as_str());
    subtitle.append("』の既存話を再配信します。");
    Ok(Feed { title, subtitle, id: feed_url, updated: p.now, author_name: p.author.clone(), entries })
}

/// `t` cut back to the start of its minute, in UTC.
pub fn truncate_to_minute(t: &Timestamp) -> (r: Timestamp)
    requires
        t.wf(),
    ensures
        r == minute_start(*t),
        r.wf(),
{
    let secs = t.unix_secs;
    let floor: i64 = if secs >= 0 {
        secs - secs % SECS_PER_MINUTE
    } else {
        let rem = (-secs) % SECS_PER_MINUTE;
        if rem == 0 {
            secs
        } else {
            secs - (SECS_PER_MINUTE - rem)
        }
    };
    assert(floor == (secs as int / SECS_PER_MINUTE as int) * SECS_PER_MINUTE) by (nonlinear_arith)
        requires
            secs >= 0 ==> floor == secs - secs % 60,
            secs < 0 ==> floor == (if (-secs) % 60 == 0 {
                secs as int
            } else {
                secs - (60 - (-secs) % 60)
            }),
    ;
    Timestamp { unix_secs: floor, nanos: 0, offset_secs: 0 }
}

/// Where to send a feed request that names no start time: the path and query
/// of the feed's address with the start time set to the start of the current
/// minute in UTC, so that requests within one minute agree.
pub fn redirect_location(category: Category, id: Ncode, now: &Timestamp) -> (r: Result<
    String,
    FeedError,
>)
    requires
        now.wf(),
    ensures
        match start_text_of(minute_start(*now)) {
            None => r == Err::<String, FeedError>(FeedError::InvalidStart),
            Some(_) => match redirect_target(category, id, *now) {
                Some(t) => r matches Ok(s) && s@ == t,
                None => r == Err::<String, FeedError>(FeedError::InvalidUrl),
            },
        },
{
    let start = truncate_to_minute(now);
    let start_text = match format_rfc3339(&start) {
        Some(s) => s,
        None => {
            return Err(FeedError::InvalidStart);
        },
    };
    let origin = String::from_str(REDIRECT_ORIGIN);
    let address = feed_address(&origin, category, id);
    match add_start_param(address.as_str(), start_text.as_str()) {
        Some(u) => Ok(strip_prefix(u, REDIRECT_ORIGIN)),
        None => Err(FeedError::InvalidUrl),
    }
}

/// Once the days run past the known subtitles, every later entry takes the
/// last subtitle as its title, while its link still points at its own
/// episode, `day + 1`.
pub proof fn lemma_title_clamps_to_last(p: FeedParams, start_text: Seq<char>, day: int, e: FeedEntry)
    requires
        is_entry_for(p, start_text, day, e),
        p.subtitles is Some,
        p.subtitles->0.len() > 0,
        day >= p.subtitles->0.len() - 1,
    ensures
        e.title@ == p.subtitles->0@[p.subtitles->0.len() - 1]@,
        e.alternate@ == alternate_link(p.category, p.id, day),
{
}

} // verus!
