use okkake::atom::to_xml;
use okkake::feed::{
    build_feed, redirect_location, Category, Feed, FeedEntry, FeedError, FeedParams,
};
use okkake::ncode::Ncode;
use okkake::schedule::{days_between, replay_window, shift_days, subtitle_index};
use okkake::timestamp::Timestamp;

const DAY: i64 = 86400;
// 2023-01-01T00:00:00+09:00
const START_SECS: i64 = 1_672_498_800;
const START_PARAM: &str = "start=2023-01-01T00%3A00%3A00%2B09%3A00";

fn start() -> Timestamp {
    Timestamp { unix_secs: START_SECS, nanos: 0, offset_secs: 9 * 3600 }
}

fn at(secs: i64) -> Timestamp {
    Timestamp { unix_secs: secs, nanos: 0, offset_secs: 0 }
}

fn params(now: Timestamp, subtitles: Option<Vec<String>>) -> FeedParams {
    FeedParams {
        base: "https://okkake.example".to_owned(),
        id: Ncode(464784),
        category: Category::G,
        title: "Title".to_owned(),
        author: "Author".to_owned(),
        subtitles,
        start: start(),
        now,
    }
}

#[test]
fn window_after_250_days_holds_100_entries() {
    let now = at(START_SECS + 250 * DAY + 3600);
    assert_eq!(replay_window(&start(), &now), (151, 251));
    let feed = build_feed(&params(now, None)).unwrap();
    assert_eq!(feed.entries.len(), 100);
    assert_eq!(feed.entries[0].day, 250);
    assert_eq!(feed.entries[99].day, 151);
    let first = &feed.entries[0];
    assert_eq!(first.title, "連載小説[Title](第251部分【再】)");
    assert_eq!(first.alternate, "https://ncode.syosetu.com/n4830bu/251/");
    assert_eq!(
        first.id,
        format!("https://okkake.example/novels/n4830bu/251/?{}", START_PARAM)
    );
    assert_eq!(first.published, shift_days(&start(), 250));
    assert_eq!(first.published.unix_secs, START_SECS + 250 * DAY);
    assert_eq!(first.updated, first.published);
}

#[test]
fn future_start_gives_an_empty_window() {
    let now = at(START_SECS - DAY);
    assert_eq!(replay_window(&start(), &now), (0, 0));
    assert!(build_feed(&params(now, None)).unwrap().entries.is_empty());
    let half_day_early = at(START_SECS - DAY / 2);
    assert_eq!(replay_window(&start(), &half_day_early), (0, 0));
}

#[test]
fn first_day_shows_one_entry() {
    assert_eq!(replay_window(&start(), &start()), (0, 1));
    let now = at(START_SECS + DAY - 1);
    let feed = build_feed(&params(now, None)).unwrap();
    assert_eq!(feed.entries.len(), 1);
    assert_eq!(feed.entries[0].day, 0);
    assert_eq!(feed.entries[0].alternate, "https://ncode.syosetu.com/n4830bu/1/");
}

#[test]
fn titles_clamp_to_the_last_subtitle() {
    let subs = vec!["First".to_owned(), "Second".to_owned(), "Third".to_owned()];
    let now = at(START_SECS + 10 * DAY + 1);
    let feed = build_feed(&params(now, Some(subs))).unwrap();
    assert_eq!(feed.entries.len(), 11);
    for (k, entry) in feed.entries.iter().enumerate() {
        let day = 10 - k as u64;
        assert_eq!(entry.day, day);
        let expected = match day {
            0 => "First",
            1 => "Second",
            _ => "Third",
        };
        assert_eq!(entry.title, expected);
        assert_eq!(
            entry.alternate,
            format!("https://ncode.syosetu.com/n4830bu/{}/", day + 1)
        );
    }
}

#[test]
fn feed_header_names_the_novel() {
    let now = at(START_SECS + 2 * DAY);
    let feed = build_feed(&params(now, None)).unwrap();
    assert_eq!(feed.title, "【再】Title");
    assert_eq!(feed.subtitle, "『Title』の既存話を再配信します。");
    assert_eq!(feed.author_name, "Author");
    assert_eq!(feed.updated, now);
    assert_eq!(
        feed.id,
        format!("https://okkake.example/novels/n4830bu/atom.xml?{}", START_PARAM)
    );
}

#[test]
fn r18_feed_uses_its_own_paths() {
    let mut p = params(at(START_SECS + 1), None);
    p.category = Category::R18;
    let feed = build_feed(&p).unwrap();
    assert_eq!(feed.entries[0].alternate, "https://novel18.syosetu.com/n4830bu/1/");
    assert_eq!(
        feed.entries[0].id,
        format!("https://okkake.example/r18novels/n4830bu/1/?{}", START_PARAM)
    );
}

#[test]
fn invalid_base_is_refused() {
    let mut p = params(at(START_SECS + 1), None);
    p.base = "not a url".to_owned();
    assert_eq!(build_feed(&p).unwrap_err(), FeedError::InvalidUrl);
}

#[test]
fn category_names() {
    assert_eq!(Category::G.subdomain(), "ncode");
    assert_eq!(Category::R18.subdomain(), "novel18");
    assert_eq!(Category::G.novels_name(), "novels");
    assert_eq!(Category::R18.novels_name(), "r18novels");
}

#[test]
fn redirect_uses_the_current_minute() {
    let now = Timestamp { unix_secs: 1_672_531_445, nanos: 500_000_000, offset_secs: 3600 };
    assert_eq!(
        redirect_location(Category::G, Ncode(464784), &now).unwrap(),
        "/novels/n4830bu/atom.xml?start=2023-01-01T00%3A04%3A00Z"
    );
    let same_minute = Timestamp { unix_secs: 1_672_531_499, nanos: 0, offset_secs: 0 };
    assert_eq!(
        redirect_location(Category::R18, Ncode(464784), &same_minute).unwrap(),
        "/r18novels/n4830bu/atom.xml?start=2023-01-01T00%3A04%3A00Z"
    );
}

#[test]
fn days_are_counted_down_to_whole_days() {
    let zero = at(0);
    assert_eq!(days_between(&zero, &Timestamp { unix_secs: DAY - 1, nanos: 999_999_999, offset_secs: 0 }), 0);
    assert_eq!(days_between(&zero, &at(DAY)), 1);
    assert_eq!(days_between(&zero, &Timestamp { unix_secs: -1, nanos: 999_999_999, offset_secs: 0 }), -1);
    assert_eq!(days_between(&zero, &at(-DAY)), -1);
    assert_eq!(days_between(&zero, &at(-DAY - 1)), -2);
}

#[test]
fn subtitle_index_clamps() {
    assert_eq!(subtitle_index(0, 3), 0);
    assert_eq!(subtitle_index(2, 3), 2);
    assert_eq!(subtitle_index(7, 3), 2);
    assert_eq!(subtitle_index(5, 1), 0);
}

#[test]
fn atom_document_of_a_small_feed() {
    let feed = Feed {
        title: "【再】T".to_owned(),
        subtitle: "S & <co>".to_owned(),
        id: "https://okkake.example/novels/n0001a/atom.xml?start=x".to_owned(),
        updated: at(0),
        author_name: "A \"quoted\" 'one'".to_owned(),
        entries: vec![FeedEntry {
            day: 0,
            title: "E1".to_owned(),
            published: at(86400),
            updated: at(86400),
            id: "https://okkake.example/novels/n0001a/1/?start=x".to_owned(),
            alternate: "https://ncode.syosetu.com/n0001a/1/".to_owned(),
        }],
    };
    let expected = [
        "<?xml version=\"1.0\" encoding=\"UTF-8\"?>\n",
        "<feed xmlns=\"http://www.w3.org/2005/Atom\">",
        "<title type=\"text\">【再】T</title>",
        "<subtitle type=\"text\">S &amp; &lt;co&gt;</subtitle>",
        "<updated>1970-01-01 0:00:00.0 +00:00:00</updated>",
        "<generator version=\"0.1.0\">Okkake-rs</generator>",
        "<link rel=\"self\" type=\"application/atom+xml\" href=\"https://okkake.example/novels/n0001a/atom.xml?start=x\"/>",
        "<id>https://okkake.example/novels/n0001a/atom.xml?start=x</id>",
        "<author><name>A &quot;quoted&quot; &apos;one&apos;</name></author>",
        "<entry>",
        "<title type=\"text\">E1</title>",
        "<published>1970-01-02 0:00:00.0 +00:00:00</published>",
        "<updated>1970-01-02 0:00:00.0 +00:00:00</updated>",
        "<link rel=\"alternate\" type=\"text/html\" href=\"https://ncode.syosetu.com/n0001a/1/\"/>",
        "<id>https://okkake.example/novels/n0001a/1/?start=x</id>",
        "</entry>",
        "</feed>",
    ]
    .concat();
    assert_eq!(to_xml(&feed).unwrap(), expected);
}

#[test]
fn atom_dates_keep_their_offset() {
    let mut p = params(at(START_SECS + 1), None);
    p.now = Timestamp { unix_secs: START_SECS + 1, nanos: 0, offset_secs: 9 * 3600 };
    let xml = to_xml(&build_feed(&p).unwrap()).unwrap();
    assert!(xml.contains("<updated>2023-01-01 0:00:01.0 +09:00:00</updated>"));
    assert!(xml.contains("<published>2023-01-01 0:00:00.0 +09:00:00</published>"));
}

#[test]
fn start_without_rfc3339_form_is_refused() {
    let mut p = params(at(START_SECS + 1), None);
    p.start = Timestamp { unix_secs: START_SECS, nanos: 0, offset_secs: 30 };
    assert_eq!(build_feed(&p).unwrap_err(), FeedError::InvalidStart);
}
