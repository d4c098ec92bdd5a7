use okkake::novel::{
    author_name, collect_subtitles, extract, novel_from_parts, pathnum, single_text, ExtractError,
};

fn texts(v: &[&str]) -> Vec<String> {
    v.iter().map(|s| s.to_string()).collect()
}

fn link(href: &str, text: &str) -> (String, String) {
    (href.to_owned(), text.to_owned())
}

#[test]
fn pathnum_reads_the_episode_number() {
    assert_eq!(pathnum("/n4830bu/1/"), Some(0));
    assert_eq!(pathnum("/n4830bu/12"), Some(11));
    assert_eq!(pathnum("/n4830bu/+3/"), Some(2));
    assert_eq!(pathnum("//7/x/y"), Some(6));
}

#[test]
fn pathnum_rejects_other_paths() {
    assert_eq!(pathnum(""), None);
    assert_eq!(pathnum("/"), None);
    assert_eq!(pathnum("/n4830bu"), None);
    assert_eq!(pathnum("/n4830bu/"), None);
    assert_eq!(pathnum("/n4830bu/0/"), None);
    assert_eq!(pathnum("n4830bu/1/"), None);
    assert_eq!(pathnum("/n4830bu/-1/"), None);
    assert_eq!(pathnum("/n4830bu/+/"), None);
    assert_eq!(pathnum("/n4830bu/1a/"), None);
    assert_eq!(pathnum("/n4830bu/99999999999999999999999/"), None);
}

#[test]
fn subtitles_are_placed_by_episode() {
    let links = vec![
        link("/n4830bu/1/", "First"),
        link("/n4830bu/3/", "Third"),
        link("/elsewhere", "ignored"),
        link("/n4830bu/10002/", "too far"),
        link("/n4830bu/2/", "Second"),
    ];
    assert_eq!(collect_subtitles(&links), texts(&["First", "Second", "Third"]));
}

#[test]
fn subtitle_gaps_stay_empty() {
    let links = vec![link("/n/3/", "Third"), link("/n/1/", "First"), link("/n/1/", "Again")];
    assert_eq!(collect_subtitles(&links), texts(&["Again", "", "Third"]));
}

#[test]
fn single_text_needs_exactly_one() {
    let e1 = ExtractError::TooManyTitles;
    let e2 = ExtractError::MissingTitle;
    assert_eq!(single_text(texts(&["A"]), e1, e2), Ok("A".to_owned()));
    assert_eq!(single_text(texts(&[]), e1, e2), Err(e2));
    assert_eq!(single_text(texts(&["A", "B"]), e1, e2), Err(e1));
}

#[test]
fn author_label_is_removed() {
    assert_eq!(author_name("\n  作者：Author author author  "), "Author author author");
    assert_eq!(author_name(" Someone "), "Someone");
}

#[test]
fn novel_is_assembled_from_its_parts() {
    let links = vec![link("/n4830bu/1/", "First"), link("/n4830bu/2/", "Second")];
    let data = novel_from_parts(
        texts(&["Novel title"]),
        texts(&["Description"]),
        texts(&["作者：Author"]),
        &links,
    )
    .unwrap();
    assert_eq!(data.novel_title, "Novel title");
    assert_eq!(data.novel_description, "Description");
    assert_eq!(data.author, "Author");
    assert_eq!(data.subtitles, texts(&["First", "Second"]));
}

#[test]
fn novel_errors_follow_page_order() {
    let links = vec![link("/n/1/", "First")];
    let one = || texts(&["x"]);
    assert_eq!(
        novel_from_parts(texts(&[]), texts(&[]), texts(&[]), &links),
        Err(ExtractError::MissingTitle)
    );
    assert_eq!(
        novel_from_parts(texts(&["a", "b"]), one(), one(), &links),
        Err(ExtractError::TooManyTitles)
    );
    assert_eq!(
        novel_from_parts(one(), texts(&[]), one(), &links),
        Err(ExtractError::MissingDesc)
    );
    assert_eq!(
        novel_from_parts(one(), texts(&["a", "b"]), one(), &links),
        Err(ExtractError::TooManyDescs)
    );
    assert_eq!(
        novel_from_parts(one(), one(), texts(&[]), &links),
        Err(ExtractError::MissingAuthor)
    );
    assert_eq!(
        novel_from_parts(one(), one(), texts(&["a", "b"]), &links),
        Err(ExtractError::TooManyAuthor)
    );
    assert_eq!(
        novel_from_parts(one(), one(), one(), &vec![link("/n/0/", "none")]),
        Err(ExtractError::NoEpisode)
    );
}

#[test]
fn extract_error_messages() {
    assert_eq!(ExtractError::MissingTitle.to_string(), "missing title");
    assert_eq!(ExtractError::NoEpisode.to_string(), "no episode found");
}

const SAMPLE: &str = r#"<!DOCTYPE html>
<html>
<head><title>sample</title></head>
<body>
<div id="novel_contents">
<p class="novel_title">Novel title novel title novel title</p>
<div class="novel_writername">
作者：<a href="https://mypage.example/1/">Author author author</a>
</div>
<div id="novel_ex">&#x3000;Description description description description description description description description description description description description description description description</div>
<div class="index_box">
<dl class="novel_sublist2"><dd class="subtitle"><a href="/n0000a/1/">First first first first</a></dd></dl>
<dl class="novel_sublist2"><dd class="subtitle"><a href="/n0000a/2/">Second second second second</a></dd></dl>
<dl class="novel_sublist2"><dd class="subtitle"><a>No link</a></dd></dl>
<dl class="novel_sublist2"><dd class="subtitle"><a href="/n0000a/3/">Third third third third</a></dd></dl>
</div>
</div>
</body>
</html>
"#;

#[test]
fn test_extract() {
    let html = SAMPLE;
    let subtitles = extract(html).unwrap();
    assert_eq!(subtitles.novel_title, "Novel title novel title novel title");
    assert_eq!(
        subtitles.novel_description,
        "\u{3000}Description description description description description description description description description description description description description description description"
    );
    assert_eq!(subtitles.author, "Author author author");
    assert_eq!(
        subtitles.subtitles,
        &[
            "First first first first",
            "Second second second second",
            "Third third third third"
        ]
    );
}

#[test]
fn extract_reports_missing_parts() {
    assert_eq!(extract("<html><body></body></html>"), Err(ExtractError::MissingTitle));
    let two_titles = "<p class=\"novel_title\">A</p><p class=\"novel_title\">B</p>";
    assert_eq!(extract(two_titles), Err(ExtractError::TooManyTitles));
    let no_episode = "<p class=\"novel_title\">A</p><div id=\"novel_ex\">D</div>\
        <div class=\"novel_writername\">W</div>";
    assert_eq!(extract(no_episode), Err(ExtractError::NoEpisode));
}
