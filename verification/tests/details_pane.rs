use librefork::details::{
    author_meta, compute_avatar_url, initials_from_name, join_strings, parents_text,
};
use librefork::diff::{frame_title, inline_segments, side_by_side_segments, SegmentStyle};
use librefork::model::{CommitInfo, DiffLine};

fn info(email: &str, time: &str, parents: &[&str], refs: &[&str]) -> CommitInfo {
    CommitInfo {
        oid: "abc".to_string(),
        short_id: "abc".to_string(),
        summary: "s".to_string(),
        author: "a".to_string(),
        email: email.to_string(),
        time: time.to_string(),
        parents: parents.iter().map(|p| p.to_string()).collect(),
        refs: refs.iter().map(|r| r.to_string()).collect(),
    }
}

fn line(left: Option<&str>, right: Option<&str>) -> DiffLine {
    DiffLine { left: left.map(|s| s.to_string()), right: right.map(|s| s.to_string()) }
}

#[test]
fn joining_strings() {
    let v: Vec<String> = vec!["a".into(), "b".into(), "c".into()];
    assert_eq!(join_strings(&v, ", "), "a, b, c");
    assert_eq!(join_strings(&Vec::new(), ", "), "");
    assert_eq!(join_strings(&vec!["x".to_string()], "--"), "x");
}

#[test]
fn author_line_with_and_without_refs() {
    assert_eq!(author_meta(&info("a@b.c", "T", &[], &[])), "a@b.c • T");
    assert_eq!(author_meta(&info("a@b.c", "T", &[], &["main", "v1"])), "a@b.c • T • refs: main, v1");
}

#[test]
fn parents_line() {
    assert_eq!(parents_text(&info("", "", &[], &[])), "<root>");
    assert_eq!(parents_text(&info("", "", &["p1", "p2"], &[])), "p1, p2");
}

#[test]
fn initials_of_names() {
    assert_eq!(initials_from_name("Linus Torvalds"), "LT");
    assert_eq!(initials_from_name("  ada  "), "A");
    assert_eq!(initials_from_name(""), "?");
    assert_eq!(initials_from_name("   "), "?");
    assert_eq!(initials_from_name("élodie dupont"), "ÉD");
    assert_eq!(initials_from_name("ß x"), "SSX");
    assert_eq!(initials_from_name("Jean Paul Sartre"), "JP");
    assert_eq!(initials_from_name("a\tb"), "AB");
}

#[test]
fn avatars_of_github_noreply_addresses() {
    assert_eq!(
        compute_avatar_url("12345+octocat@users.noreply.github.com"),
        Some("https://github.com/octocat.png".to_string())
    );
    assert_eq!(
        compute_avatar_url("  Octocat@Users.Noreply.GitHub.com \n"),
        Some("https://github.com/octocat.png".to_string())
    );
    assert_eq!(
        compute_avatar_url("a+b+carol@users.noreply.github.com"),
        Some("https://github.com/carol.png".to_string())
    );
}

#[test]
fn no_avatar_for_other_addresses() {
    assert_eq!(compute_avatar_url("john@example.com"), None);
    assert_eq!(compute_avatar_url("12+@users.noreply.github.com"), None);
    assert_eq!(compute_avatar_url("@users.noreply.github.com"), None);
    assert_eq!(compute_avatar_url(""), None);
}

#[test]
fn frame_titles() {
    assert_eq!(frame_title("src/main.rs", "M"), "src/main.rs (M)");
}

#[test]
fn inline_layout_marks_each_side() {
    let lines = vec![
        line(Some("old"), None),
        line(None, Some("new")),
        line(Some("same"), Some("same")),
        line(Some("x"), Some("y")),
        line(None, None),
    ];
    let segs = inline_segments(&lines);
    let got: Vec<(&str, SegmentStyle)> = segs.iter().map(|s| (s.text.as_str(), s.style)).collect();
    assert_eq!(
        got,
        vec![
            ("-old\n", SegmentStyle::Removed),
            ("+new\n", SegmentStyle::Added),
            (" same\n", SegmentStyle::Plain),
            ("-x\n", SegmentStyle::Removed),
            ("+y\n", SegmentStyle::Added),
        ]
    );
}

#[test]
fn side_by_side_layout_pads_the_left_side() {
    let lines = vec![line(Some("old"), None), line(None, Some("new")), line(Some("same"), Some("same"))];
    let segs = side_by_side_segments(&lines);
    let got: Vec<(String, SegmentStyle)> = segs.iter().map(|s| (s.text.clone(), s.style)).collect();
    assert_eq!(
        got,
        vec![
            (format!("{:<40}", "old"), SegmentStyle::Removed),
            (" | \n".to_string(), SegmentStyle::Plain),
            (format!("{:<40}", ""), SegmentStyle::Plain),
            (" | ".to_string(), SegmentStyle::Plain),
            ("new\n".to_string(), SegmentStyle::Added),
            (format!("{:<40} | {}\n", "same", "same"), SegmentStyle::Plain),
        ]
    );
}

#[test]
fn side_by_side_keeps_long_text_whole() {
    let long = "é".repeat(45);
    let segs = side_by_side_segments(&vec![line(Some(&long), Some("z"))]);
    assert_eq!(segs.len(), 3);
    assert_eq!(segs[0].text, long);
    assert_eq!(segs[2].text, "z\n");
    let segs = side_by_side_segments(&vec![line(None, None)]);
    assert_eq!(segs.len(), 1);
    assert_eq!(segs[0].text, "\n");
}
