use vstd::prelude::*;

use crate::interop::{
    matched_links, matched_texts, opt_view, select_links, select_texts, trim_text, trimmed,
};
use crate::text::{parse_usize_at, parse_usize_text, strip_prefix, without_prefix};

verus! {

/// Links to episodes numbered above this are ignored.
pub const NUM_LIMIT: usize = 10000;

pub const TITLE_SELECTOR: &'static str = ".novel_title";

pub const DESCRIPTION_SELECTOR: &'static str = "#novel_ex";

pub const AUTHOR_SELECTOR: &'static str = ".novel_writername";

/// Matches the links to the episodes; each one's text is the subtitle.
pub const SUBTITLE_SELECTOR: &'static str = ".subtitle a";

/// The label that precedes the author's name on a novel's page.
pub const AUTHOR_LABEL: &'static str = "作者：";

/// What is known of a novel: its title, description, author and the subtitle
/// of each episode, the first episode at index 0.
#[derive(Clone, Debug, PartialEq, Eq)]
pub struct NovelData {
    pub novel_title: String,
    pub novel_description: String,
    pub author: String,
    pub subtitles: Vec<String>,
}

/// Why a novel's page could not be read.
#[derive(Clone, Copy, Debug, PartialEq, Eq, Structural)]
pub enum ExtractError {
    MissingTitle,
    TooManyTitles,
    MissingDesc,
    TooManyDescs,
    MissingAuthor,
    TooManyAuthor,
    NoEpisode,
}

impl ExtractError {
    pub open spec fn message(self) -> Seq<char> {
        match self {
            ExtractError::MissingTitle => "missing title"@,
            ExtractError::TooManyTitles => "too many titles"@,
            ExtractError::MissingDesc => "missing description"@,
            ExtractError::TooManyDescs => "too many description"@,
            ExtractError::MissingAuthor => "missing author"@,
            ExtractError::TooManyAuthor => "too many authors"@,
            ExtractError::NoEpisode => "no episode found"@,
        }
    }

    /// The message that describes this error.
    pub fn to_string(&self) -> (r: String)
        ensures
            r@ == self.message(),
    {
        let text = match self {
            ExtractError::MissingTitle => "missing title",
            ExtractError::TooManyTitles => "too many titles",
            ExtractError::MissingDesc => "missing description",
            ExtractError::TooManyDescs => "too many description",
            ExtractError::MissingAuthor => "missing author",
            ExtractError::TooManyAuthor => "too many authors",
            ExtractError::NoEpisode => "no episode found",
        };
        String::from_str(text)
    }
}

/// The first index at or after `from` that holds `/`, or the length of `s`.
pub open spec fn next_slash(s: Seq<char>, from: int) -> int
    decreases s.len() - from,
{
    if from >= s.len() {
        s.len() as int
    } else if s[from] == '/' {
        from
    } else {
        next_slash(s, from + 1)
    }
}

/// The episode index that a link path such as `/n4830bu/3/` points at: the
/// path starts with `/`, its third `/`-separated part is a positive number,
/// and the index is that number less one.
pub open spec fn path_index(s: Seq<char>) -> Option<nat> {
    if s.len() == 0 || s[0] != '/' {
        None
    } else {
        let j = next_slash(s, 1);
        if j >= s.len() {
            None
        } else {
            match parse_usize_text(s.subrange(j + 1, next_slash(s, j + 1))) {
                Some(n) => if n == 0 {
                    None
                } else {
                    Some((n - 1) as nat)
                },
                None => None,
            }
        }
    }
}

/// `v` with `text` at index `num`, padded with empty subtitles up to it.
pub open spec fn place_subtitle(v: Seq<Seq<char>>, num: int, text: Seq<char>) -> Seq<Seq<char>> {
    let padded = if num < v.len() {
        v
    } else {
        v + Seq::new((num + 1 - v.len()) as nat, |i: int| Seq::<char>::empty())
    };
    padded.update(num, text)
}

/// The subtitles that the episode links `(href, text)` give, in order: each
/// link whose path points at an index up to `NUM_LIMIT` sets the subtitle
/// there, a later link overriding an earlier one; indices no link sets are
/// empty.
pub open spec fn subtitles_from(links: Seq<(Seq<char>, Seq<char>)>) -> Seq<Seq<char>>
    decreases links.len(),
{
    if links.len() == 0 {
        Seq::empty()
    } else {
        let v = subtitles_from(links.drop_last());
        match path_index(links.last().0) {
            Some(n) => if n <= NUM_LIMIT {
                place_subtitle(v, n as int, links.last().1)
            } else {
                v
            },
            None => v,
        }
    }
}

/// The one text matched, `missing` where there is none, `too_many` where
/// there are several.
pub open spec fn single_of(texts: Seq<Seq<char>>, too_many: ExtractError, missing: ExtractError) -> Result<
    Seq<char>,
    ExtractError,
> {
    if texts.len() == 0 {
        Err(missing)
    } else if texts.len() > 1 {
        Err(too_many)
    } else {
        Ok(texts[0])
    }
}

/// The author's name as the page shows it: trimmed, without its label.
pub open spec fn author_text(raw: Seq<char>) -> Seq<char> {
    without_prefix(trimmed(raw), AUTHOR_LABEL@)
}

pub open spec fn views(v: Seq<String>) -> Seq<Seq<char>> {
    v.map_values(|s: String| s@)
}

pub open spec fn pair_views(v: Seq<(String, String)>) -> Seq<(Seq<char>, Seq<char>)> {
    v.map_values(|p: (String, String)| (p.0@, p.1@))
}

/// What a page yields, from the texts that match the title, the description
/// and the author and the episode links `(href, text)`: the title,
/// description, author and subtitles, or the error. The first of the three
/// that does not match exactly once decides the error; with no episode the
/// page is refused.
pub open spec fn extraction(
    titles: Seq<Seq<char>>,
    descriptions: Seq<Seq<char>>,
    authors: Seq<Seq<char>>,
    links: Seq<(Seq<char>, Seq<char>)>,
) -> Result<(Seq<char>, Seq<char>, Seq<char>, Seq<Seq<char>>), ExtractError> {
    match single_of(titles, ExtractError::TooManyTitles, ExtractError::MissingTitle) {
        Err(e) => Err(e),
        Ok(t) => match single_of(descriptions, ExtractError::TooManyDescs, ExtractError::MissingDesc) {
            Err(e) => Err(e),
            Ok(d) => match single_of(authors, ExtractError::TooManyAuthor, ExtractError::MissingAuthor) {
                Err(e) => Err(e),
                Ok(a) => if subtitles_from(links).len() == 0 {
                    Err(ExtractError::NoEpisode)
                } else {
                    Ok((t, d, author_text(a), subtitles_from(links)))
                },
            },
        },
    }
}

/// `r` is what `extraction` gives, as a `NovelData`.
pub open spec fn extraction_result(
    r: Result<NovelData, ExtractError>,
    x: Result<(Seq<char>, Seq<char>, Seq<char>, Seq<Seq<char>>), ExtractError>,
) -> bool {
    match x {
        Err(e) => r == Err::<NovelData, ExtractError>(e),
        Ok((t, d, a, subs)) => r matches Ok(n) && n.novel_title@ == t && n.novel_description@ == d
            && n.author@ == a && views(n.subtitles@) == subs,
    }
}

fn find_slash(s: &str, len: usize, from: usize) -> (r: usize)
    requires
        len == s@.len(),
        from <= len,
    ensures
        r == next_slash(s@, from as int),
        from <= r <= len,
{
    let mut i = from;
    while i < len
        invariant
            from <= i <= len,
            len == s@.len(),
            next_slash(s@, from as int) == next_slash(s@, i as int),
        decreases len - i,
    {
        if s.get_char(i) == '/' {
            return i;
        }
        i = i + 1;
    }
    i
}

/// The episode index that a link path points at, as `path_index` says.
pub fn pathnum(href: &str) -> (r: Option<usize>)
    ensures
        match r {
            Some(n) => path_index(href@) == Some(n as nat),
            None => path_index(href@) is None,
        },
{
    let len = href.unicode_len();
    if len == 0 || href.get_char(0) != '/' {
        return None;
    }
    let j = find_slash(href, len, 1);
    if j >= len {
        return None;
    }
    let k = find_slash(href, len, j + 1);
    match parse_usize_at(href, j + 1, k) {
        Some(n) => if n == 0 {
            None
        } else {
            Some(n - 1)
        },
        None => None,
    }
}

/// The subtitles that the episode links `(href, text)` give, as
/// `subtitles_from` says.
pub fn collect_subtitles(links: &Vec<(String, String)>) -> (r: Vec<String>)
    ensures
        views(r@) == subtitles_from(pair_views(links@)),
{
    let mut subs: Vec<String> = Vec::new();
    let mut i: usize = 0;
    while i < links.len()
        invariant
            i <= links@.len(),
            views(subs@) == subtitles_from(pair_views(links@.subrange(0, i as int))),
        decreases links@.len() - i,
    {
        proof {
            crate::text::lemma_prefix_step(links@, i as int);
            assert(pair_views(links@.subrange(0, i + 1)).drop_last() =~= pair_views(
                links@.subrange(0, i as int),
            ));
        }
        let ghost before = views(subs@);
        match pathnum(links[i].0.as_str()) {
            Some(num) => {
                if num <= NUM_LIMIT {
                    while subs.len() <= num
                        invariant
                            views(subs@) == before + Seq::new(
                                (subs@.len() - before.len()) as nat,
                                |k: int| Seq::<char>::empty(),
                            ),
                            subs@.len() >= before.len(),
                            subs@.len() <= (if before.len() > num {
                                before.len() as int
                            } else {
                                num + 1
                            }),
                            num <= NUM_LIMIT,
                        decreases num + 1 - subs@.len(),
                    {
                        let ghost prev = subs@;
                        subs.push(String::new());
                        assert(views(subs@) =~= views(prev).push(Seq::<char>::empty()));
                        assert(views(subs@) =~= before + Seq::new(
                            (subs@.len() - before.len()) as nat,
                            |k: int| Seq::<char>::empty(),
                        ));
                    }
                    let ghost padded = subs@;
                    let text = links[i].1.clone();
                    subs.set(num, text);
                    assert(views(subs@) =~= views(padded).update(num as int, text@));
                    proof {
                        if num < before.len() {
                            assert(views(padded) =~= before);
                        }
                    }
                    assert(views(subs@) =~= place_subtitle(before, num as int, links@[i as int].1@));
                }
            },
            None => {},
        }
        i = i + 1;
    }
    assert(links@.subrange(0, links@.len() as int) =~= links@);
    subs
}

/// The one text matched, as `single_of` says.
pub fn single_text(texts: Vec<String>, too_many: ExtractError, missing: ExtractError) -> (r: Result<
    String,
    ExtractError,
>)
    ensures
        match single_of(views(texts@), too_many, missing) {
            Ok(t) => r matches Ok(s) && s@ == t,
            Err(e) => r == Err::<String, ExtractError>(e),
        },
{
    let mut texts = texts;
    if texts.len() == 0 {
        Err(missing)
    } else if texts.len() > 1 {
        Err(too_many)
    } else {
        match texts.pop() {
            Some(t) => Ok(t),
            None => Err(missing),
        }
    }
}

/// The author's name from the text of its element: trimmed, without the
/// leading label.
pub fn author_name(raw: &str) -> (r: String)
    ensures
        r@ == author_text(raw@),
{
    strip_prefix(trim_text(raw), AUTHOR_LABEL)
}

/// A novel's data from what its page holds, as `extraction` says.
pub fn novel_from_parts(
    titles: Vec<String>,
    descriptions: Vec<String>,
    authors: Vec<String>,
    links: &Vec<(String, String)>,
) -> (r: Result<NovelData, ExtractError>)
    ensures
        extraction_result(
            r,
            extraction(views(titles@), views(descriptions@), views(authors@), pair_views(links@)),
        ),
{
    let novel_title = match single_text(
        titles,
        ExtractError::TooManyTitles,
        ExtractError::MissingTitle,
    ) {
        Ok(t) => t,
        Err(e) => {
            return Err(e);
        },
    };
    let novel_description = match single_text(
        descriptions,
        ExtractError::TooManyDescs,
        ExtractError::MissingDesc,
    ) {
        Ok(d) => d,
        Err(e) => {
            return Err(e);
        },
    };
    let raw_author = match single_text(
        authors,
        ExtractError::TooManyAuthor,
        ExtractError::MissingAuthor,
    ) {
        Ok(a) => a,
        Err(e) => {
            return Err(e);
        },
    };
    let author = author_name(raw_author.as_str());
    let subtitles = collect_subtitles(links);
    if subtitles.len() == 0 {
        return Err(ExtractError::NoEpisode);
    }
    Ok(NovelData { novel_title, novel_description, author, subtitles })
}

/// The `(href, text)` pairs of the links that have an `href`, in order.
pub open spec fn with_href(links: Seq<(Option<Seq<char>>, Seq<char>)>) -> Seq<(Seq<char>, Seq<char>)>
    decreases links.len(),
{
    if links.len() == 0 {
        Seq::empty()
    } else {
        let rest = with_href(links.drop_last());
        match links.last().0 {
            Some(h) => rest.push((h, links.last().1)),
            None => rest,
        }
    }
}

/// What a selector matched, nothing where it did not parse.
pub open spec fn or_empty<A>(m: Option<Seq<A>>) -> Seq<A> {
    match m {
        Some(v) => v,
        None => Seq::empty(),
    }
}

fn texts_or_empty(m: Option<Vec<String>>) -> (r: Vec<String>)
    ensures
        match m {
            Some(v) => r == v,
            None => r@.len() == 0,
        },
{
    match m {
        Some(v) => v,
        None => Vec::new(),
    }
}

/// The links that have an `href`, as `with_href` says.
fn links_with_href(links: Option<Vec<(Option<String>, String)>>) -> (r: Vec<(String, String)>)
    ensures
        pair_views(r@) == with_href(
            or_empty(
                match links {
                    Some(v) => Some(v@.map_values(|p: (Option<String>, String)| (opt_view(p.0), p.1@))),
                    None => None,
                },
            ),
        ),
{
    let mut out: Vec<(String, String)> = Vec::new();
    let links = match links {
        Some(v) => v,
        None => {
            assert(pair_views(out@) =~= Seq::<(Seq<char>, Seq<char>)>::empty());
            return out;
        },
    };
    let ghost all = links@.map_values(|p: (Option<String>, String)| (opt_view(p.0), p.1@));
    let ghost n = all.len();
    let ghost orig = links@;
    let mut links = links;
    let mut rest: Vec<(Option<String>, String)> = Vec::new();
    while links.len() > 0
        invariant
            orig.len() == n,
            links@ == orig.subrange(0, links@.len() as int),
            rest@.len() == n - links@.len(),
            forall|k: int| 0 <= k < rest@.len() ==> #[trigger] rest@[k] == orig[n - 1 - k],
        decreases links@.len(),
    {
        match links.pop() {
            Some(p) => {
                rest.push(p);
            },
            None => {},
        }
        assert(links@ =~= orig.subrange(0, links@.len() as int));
    }
    while rest.len() > 0
        invariant
            n == all.len(),
            rest@.len() <= n,
            forall|k: int| 0 <= k < rest@.len() ==> (opt_view(#[trigger] rest@[k].0), rest@[k].1@)
                == all[n - 1 - k],
            pair_views(out@) == with_href(all.subrange(0, n - rest@.len())),
        decreases rest@.len(),
    {
        let ghost done = n - rest@.len();
        let ghost before = rest@;
        let (href, text) = match rest.pop() {
            Some(p) => p,
            None => {
                return out;
            },
        };
        assert(all.subrange(0, done + 1).drop_last() =~= all.subrange(0, done));
        assert((opt_view(href), text@) == all[done]);
        match href {
            Some(h) => {
                out.push((h, text));
                assert(pair_views(out@) =~= with_href(all.subrange(0, done)).push((h@, text@)));
            },
            None => {},
        }
        assert(forall|k: int| 0 <= k < rest@.len() ==> rest@[k] == before[k]);
    }
    assert(all.subrange(0, n as int) =~= all);
    out
}

/// A novel's data from the HTML of its index page: the texts of the elements
/// that the title, description and author selectors match, and the episode
/// links that have an `href`, read as `extraction` says.
pub fn extract(html: &str) -> (r: Result<NovelData, ExtractError>)
    ensures
        extraction_result(
            r,
            extraction(
                or_empty(matched_texts(html@, TITLE_SELECTOR@)),
                or_empty(matched_texts(html@, DESCRIPTION_SELECTOR@)),
                or_empty(matched_texts(html@, AUTHOR_SELECTOR@)),
                with_href(or_empty(matched_links(html@, SUBTITLE_SELECTOR@))),
            ),
        ),
{
    let titles = texts_or_empty(select_texts(html, TITLE_SELECTOR));
    let descriptions = texts_or_empty(select_texts(html, DESCRIPTION_SELECTOR));
    let authors = texts_or_empty(select_texts(html, AUTHOR_SELECTOR));
    let links = links_with_href(select_links(html, SUBTITLE_SELECTOR));
    proof {
        assert(views(titles@) =~= or_empty(matched_texts(html@, TITLE_SELECTOR@)));
        assert(views(descriptions@) =~= or_empty(matched_texts(html@, DESCRIPTION_SELECTOR@)));
        assert(views(authors@) =~= or_empty(matched_texts(html@, AUTHOR_SELECTOR@)));
    }
    novel_from_parts(titles, descriptions, authors, &links)
}

} // verus!
