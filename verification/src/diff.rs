//! Diff lines: how a patch line becomes a row of the side-by-side model, and how
//! the rows are laid out as text in the inline and the side-by-side views.
use vstd::prelude::*;
use vstd::string::StringSliceAdditionalSpecFns;
use vstd::utf8::{decode_utf8, valid_utf8};
use crate::model::{DiffLine, DiffLineView};
use crate::text::{append_padded, append_str, concat3, padded_right, string_of};

verus! {

/// Calls `std::str::from_utf8`: the bytes decode to text exactly when they are
/// valid UTF-8, and the text is their decoding.
#[verifier::external_body]
pub(crate) fn utf8_text(bytes: &[u8]) -> (r: Option<String>)
    ensures
        r is Some <==> valid_utf8(bytes@),
        r matches Some(s) ==> s@ == decode_utf8(bytes@),
{
    std::str::from_utf8(bytes).ok().map(|s| s.to_string())
}

/// A text without the newlines at its end, as `trim_end_matches('\n')` gives it.
pub open spec fn strip_newlines(s: Seq<char>) -> Seq<char>
    decreases s.len(),
{
    if s.len() > 0 && s.last() == '\n' {
        strip_newlines(s.drop_last())
    } else {
        s
    }
}

/// The text of a patch line: its bytes decoded, or nothing when they are not
/// valid UTF-8, without trailing newlines.
pub open spec fn line_text(content: Seq<u8>) -> Seq<char> {
    if valid_utf8(content) {
        strip_newlines(decode_utf8(content))
    } else {
        strip_newlines(Seq::empty())
    }
}

/// The row that a patch line gives: a removed line on the left, an added line on
/// the right, a context line on both sides; other origins give no row.
pub open spec fn diff_row(origin: char, content: Seq<u8>) -> Option<DiffLineView> {
    let t = line_text(content);
    if origin == '-' {
        Some(DiffLineView { left: Some(t), right: None })
    } else if origin == '+' {
        Some(DiffLineView { left: None, right: Some(t) })
    } else if origin == ' ' {
        Some(DiffLineView { left: Some(t), right: Some(t) })
    } else {
        None
    }
}

fn strip_trailing_newlines(s: String) -> (r: String)
    ensures
        r@ == strip_newlines(s@),
{
    let cs = crate::text::chars_of(s.as_str());
    let mut n: usize = cs.len();
    assert(cs@.take(n as int) =~= cs@);
    while n > 0 && cs[n - 1] == '\n'
        invariant
            n <= cs@.len(),
            cs@ == s@,
            strip_newlines(s@) == strip_newlines(cs@.take(n as int)),
        decreases n,
    {
        assert(cs@.take(n as int).drop_last() =~= cs@.take(n - 1));
        n = n - 1;
    }
    let mut out: Vec<char> = Vec::new();
    let mut i: usize = 0;
    while i < n
        invariant
            i <= n <= cs@.len(),
            out@ == cs@.take(i as int),
        decreases n - i,
    {
        out.push(cs[i]);
        assert(cs@.take(i + 1) =~= cs@.take(i as int).push(cs@[i as int]));
        i = i + 1;
    }
    string_of(&out)
}

/// The row for a patch line with the given origin marker and content.
pub fn diff_line_from(origin: char, content: &[u8]) -> (r: Option<DiffLine>)
    ensures
        r matches Some(l) ==> diff_row(origin, content@) == Some(l@),
        r is None ==> diff_row(origin, content@) is None,
{
    let text = match utf8_text(content) {
        Some(s) => s,
        None => String::new(),
    };
    let t = strip_trailing_newlines(text);
    if origin == '-' {
        Some(DiffLine { left: Some(t), right: None })
    } else if origin == '+' {
        Some(DiffLine { left: None, right: Some(t) })
    } else if origin == ' ' {
        let u = t.clone();
        Some(DiffLine { left: Some(t), right: Some(u) })
    } else {
        None
    }
}

/// One line of a patch hunk as libgit2 hands it out: its origin marker and its
/// bytes.
#[derive(Debug)]
pub struct PatchLine {
    pub origin: char,
    pub content: Vec<u8>,
}

/// The rows that the lines of a file's hunks give, in order: each removed,
/// added or context line gives one row, other lines none.
pub open spec fn patch_rows(lines: Seq<PatchLine>) -> Seq<DiffLineView>
    decreases lines.len(),
{
    if lines.len() == 0 {
        Seq::empty()
    } else {
        let rest = patch_rows(lines.drop_last());
        match diff_row(lines.last().origin, lines.last().content@) {
            Some(r) => rest.push(r),
            None => rest,
        }
    }
}

/// The rows of a file's diff from the lines of its hunks.
pub fn file_diff_lines(lines: &Vec<PatchLine>) -> (r: Vec<DiffLine>)
    ensures
        lines_view(r@) == patch_rows(lines@),
{
    let mut out: Vec<DiffLine> = Vec::new();
    let mut i: usize = 0;
    assert(lines_view(out@) =~= patch_rows(lines@.take(0)));
    while i < lines.len()
        invariant
            i <= lines.len(),
            lines_view(out@) == patch_rows(lines@.take(i as int)),
        decreases lines.len() - i,
    {
        assert(lines@.take(i + 1).drop_last() =~= lines@.take(i as int));
        assert(lines@.take(i + 1).last() == lines@[i as int]);
        let ghost before = out@;
        match diff_line_from(lines[i].origin, lines[i].content.as_slice()) {
            Some(l) => {
                out.push(l);
                assert(lines_view(out@) =~= lines_view(before).push(out@.last()@));
            },
            None => {},
        }
        i = i + 1;
    }
    assert(lines@.take(lines.len() as int) =~= lines@);
    out
}

/// The path a file change is shown under: the new file's path, or the old
/// file's when the change has no new file.
pub fn delta_path(new_path: Option<String>, old_path: Option<String>) -> (r: String)
    requires
        new_path is Some || old_path is Some,
    ensures
        new_path matches Some(p) ==> r@ == p@,
        new_path is None ==> (old_path matches Some(p) && r@ == p@),
{
    match new_path {
        Some(p) => p,
        None => match old_path {
            Some(p) => p,
            None => String::new(),
        },
    }
}

#[verifier::external_type_specification]
#[verifier::external_body]
pub struct ExDiff<'a>(git2::Diff<'a>);

/// The name for whether `git2::Diff::from_buffer` reads the given bytes as a
/// patch.
pub uninterp spec fn patch_parses(bytes: Seq<u8>) -> bool;

/// Calls `git2::Diff::from_buffer`, which reads a patch from its bytes alone;
/// whether it succeeds is named `patch_parses` of the bytes.
#[verifier::external_body]
fn diff_from_buffer(bytes: &[u8]) -> (r: Result<git2::Diff<'static>, git2::Error>)
    ensures
        r is Ok <==> patch_parses(bytes@),
{
    git2::Diff::from_buffer(bytes)
}

/// Why a hunk cannot be staged.
#[derive(Debug, Clone, Copy, PartialEq, Eq, Structural)]
pub enum PatchError {
    /// The text is not a patch that libgit2 reads.
    Unreadable,
}

/// The patch that staging a hunk applies to the index: the text read as a git
/// patch.
pub fn hunk_patch(patch_text: &str) -> (r: Result<git2::Diff<'static>, PatchError>)
    ensures
        r is Ok <==> patch_parses(patch_text.spec_bytes()),
        r matches Err(e) ==> e == PatchError::Unreadable,
{
    match diff_from_buffer(patch_text.as_bytes()) {
        Ok(d) => Ok(d),
        Err(_) => Err(PatchError::Unreadable),
    }
}

/// The kinds of change of a file.
#[derive(Debug, Clone, Copy, PartialEq, Eq, Structural)]
pub enum DeltaKind {
    Added,
    Deleted,
    Modified,
    Other,
}

/// The one-letter status of a file change.
pub open spec fn status_code(k: DeltaKind) -> Seq<char> {
    match k {
        DeltaKind::Added => "A"@,
        DeltaKind::Deleted => "D"@,
        DeltaKind::Modified => "M"@,
        DeltaKind::Other => "?"@,
    }
}

/// The status letter of a file change.
pub fn delta_status(k: DeltaKind) -> (r: String)
    ensures
        r@ == status_code(k),
{
    match k {
        DeltaKind::Added => String::from_str("A"),
        DeltaKind::Deleted => String::from_str("D"),
        DeltaKind::Modified => String::from_str("M"),
        DeltaKind::Other => String::from_str("?"),
    }
}

/// The title of a file's frame: its path and its status.
pub fn frame_title(path: &str, status: &str) -> (r: String)
    ensures
        r@ == path@ + " ("@ + status@ + ")"@,
{
    let a = concat3(path, " (", status);
    let mut r = a;
    r.append(")");
    r
}

/// How a run of text is coloured.
#[derive(Debug, Clone, Copy, PartialEq, Eq, Structural)]
pub enum SegmentStyle {
    Plain,
    Added,
    Removed,
}

/// A run of text with one colour.
#[derive(Debug)]
pub struct Segment {
    pub text: String,
    pub style: SegmentStyle,
}

pub struct SegmentView {
    pub text: Seq<char>,
    pub style: SegmentStyle,
}

impl View for Segment {
    type V = SegmentView;

    open spec fn view(&self) -> SegmentView {
        SegmentView { text: self.text@, style: self.style }
    }
}

/// The views of a list of segments.
pub open spec fn segments_view(v: Seq<Segment>) -> Seq<SegmentView> {
    Seq::new(v.len(), |i: int| v[i]@)
}

/// The views of a list of rows.
pub open spec fn lines_view(v: Seq<DiffLine>) -> Seq<DiffLineView> {
    Seq::new(v.len(), |i: int| v[i]@)
}

pub open spec fn seg(text: Seq<char>, style: SegmentStyle) -> SegmentView {
    SegmentView { text, style }
}

/// The inline layout of one row: `-` before removed text, `+` before added
/// text, a space before unchanged text, each on a line of its own.
pub open spec fn inline_row(l: DiffLineView) -> Seq<SegmentView> {
    match (l.left, l.right) {
        (Some(a), None) => seq![seg("-"@ + a + "\n"@, SegmentStyle::Removed)],
        (None, Some(b)) => seq![seg("+"@ + b + "\n"@, SegmentStyle::Added)],
        (Some(a), Some(b)) => if a == b {
            seq![seg(" "@ + a + "\n"@, SegmentStyle::Plain)]
        } else {
            seq![seg("-"@ + a + "\n"@, SegmentStyle::Removed), seg("+"@ + b + "\n"@, SegmentStyle::Added)]
        },
        (None, None) => Seq::empty(),
    }
}

/// The inline layout of a list of rows.
pub open spec fn inline_layout(lines: Seq<DiffLineView>) -> Seq<SegmentView>
    decreases lines.len(),
{
    if lines.len() == 0 {
        Seq::empty()
    } else {
        inline_layout(lines.drop_last()) + inline_row(lines.last())
    }
}

/// The side-by-side layout of one row: the old text padded to forty characters,
/// a bar, and the new text.
pub open spec fn side_row(l: DiffLineView) -> Seq<SegmentView> {
    match (l.left, l.right) {
        (Some(a), None) => seq![seg(padded_right(a, 40), SegmentStyle::Removed), seg(" | \n"@, SegmentStyle::Plain)],
        (None, Some(b)) => seq![
            seg(padded_right(Seq::empty(), 40), SegmentStyle::Plain),
            seg(" | "@, SegmentStyle::Plain),
            seg(b + "\n"@, SegmentStyle::Added),
        ],
        (Some(a), Some(b)) => if a == b {
            seq![seg(padded_right(a, 40) + " | "@ + b + "\n"@, SegmentStyle::Plain)]
        } else {
            seq![
                seg(padded_right(a, 40), SegmentStyle::Removed),
                seg(" | "@, SegmentStyle::Plain),
                seg(b + "\n"@, SegmentStyle::Added),
            ]
        },
        (None, None) => seq![seg("\n"@, SegmentStyle::Plain)],
    }
}

/// The side-by-side layout of a list of rows.
pub open spec fn side_layout(lines: Seq<DiffLineView>) -> Seq<SegmentView>
    decreases lines.len(),
{
    if lines.len() == 0 {
        Seq::empty()
    } else {
        side_layout(lines.drop_last()) + side_row(lines.last())
    }
}

fn text3(a: &str, b: &str, c: &str) -> (r: String)
    ensures
        r@ == a@ + b@ + c@,
{
    concat3(a, b, c)
}

fn push_seg(out: &mut Vec<Segment>, text: String, style: SegmentStyle)
    ensures
        segments_view(final(out)@) == segments_view(old(out)@).push(seg(text@, style)),
{
    let ghost before = out@;
    out.push(Segment { text, style });
    assert(segments_view(out@) =~= segments_view(before).push(seg(text@, style)));
}

fn padded(s: &str) -> (r: String)
    ensures
        r@ == padded_right(s@, 40),
{
    let mut v: Vec<char> = Vec::new();
    append_padded(&mut v, s, 40);
    assert(v@ =~= padded_right(s@, 40));
    string_of(&v)
}

/// The inline layout of a file's rows.
pub fn inline_segments(lines: &Vec<DiffLine>) -> (r: Vec<Segment>)
    ensures
        segments_view(r@) == inline_layout(lines_view(lines@)),
{
    let ghost lv = lines_view(lines@);
    let mut out: Vec<Segment> = Vec::new();
    let mut i: usize = 0;
    assert(lv.take(0) =~= Seq::<DiffLineView>::empty());
    assert(segments_view(out@) =~= Seq::<SegmentView>::empty());
    while i < lines.len()
        invariant
            i <= lines.len(),
            lv == lines_view(lines@),
            segments_view(out@) == inline_layout(lv.take(i as int)),
        decreases lines.len() - i,
    {
        assert(lv.take(i + 1).drop_last() =~= lv.take(i as int));
        assert(lv.take(i + 1).last() == lines@[i as int]@);
        let ghost before = segments_view(out@);
        let line = &lines[i];
        match (&line.left, &line.right) {
            (Some(l), None) => {
                push_seg(&mut out, text3("-", l.as_str(), "\n"), SegmentStyle::Removed);
            },
            (None, Some(r)) => {
                push_seg(&mut out, text3("+", r.as_str(), "\n"), SegmentStyle::Added);
            },
            (Some(l), Some(r)) => {
                if *l == *r {
                    push_seg(&mut out, text3(" ", l.as_str(), "\n"), SegmentStyle::Plain);
                } else {
                    push_seg(&mut out, text3("-", l.as_str(), "\n"), SegmentStyle::Removed);
                    push_seg(&mut out, text3("+", r.as_str(), "\n"), SegmentStyle::Added);
                }
            },
            (None, None) => {},
        }
        assert(segments_view(out@) =~= before + inline_row(lines@[i as int]@));
        i = i + 1;
    }
    assert(lv.take(lines.len() as int) =~= lv);
    out
}

/// The side-by-side layout of a file's rows.
pub fn side_by_side_segments(lines: &Vec<DiffLine>) -> (r: Vec<Segment>)
    ensures
        segments_view(r@) == side_layout(lines_view(lines@)),
{
    let ghost lv = lines_view(lines@);
    let mut out: Vec<Segment> = Vec::new();
    let mut i: usize = 0;
    assert(lv.take(0) =~= Seq::<DiffLineView>::empty());
    assert(segments_view(out@) =~= Seq::<SegmentView>::empty());
    while i < lines.len()
        invariant
            i <= lines.len(),
            lv == lines_view(lines@),
            segments_view(out@) == side_layout(lv.take(i as int)),
        decreases lines.len() - i,
    {
        assert(lv.take(i + 1).drop_last() =~= lv.take(i as int));
        assert(lv.take(i + 1).last() == lines@[i as int]@);
        let ghost before = segments_view(out@);
        let line = &lines[i];
        match (&line.left, &line.right) {
            (Some(l), None) => {
                push_seg(&mut out, padded(l.as_str()), SegmentStyle::Removed);
                push_seg(&mut out, String::from_str(" | \n"), SegmentStyle::Plain);
            },
            (None, Some(r)) => {
                proof {
                    reveal_strlit("");
                    assert(""@ =~= Seq::<char>::empty());
                }
                push_seg(&mut out, padded(""), SegmentStyle::Plain);
                push_seg(&mut out, String::from_str(" | "), SegmentStyle::Plain);
                let mut t = r.clone();
                t.append("\n");
                push_seg(&mut out, t, SegmentStyle::Added);
            },
            (Some(l), Some(r)) => {
                if *l == *r {
                    let mut v: Vec<char> = Vec::new();
                    append_padded(&mut v, l.as_str(), 40);
                    append_str(&mut v, " | ");
                    append_str(&mut v, r.as_str());
                    append_str(&mut v, "\n");
                    assert(v@ =~= padded_right(l@, 40) + " | "@ + r@ + "\n"@);
                    push_seg(&mut out, string_of(&v), SegmentStyle::Plain);
                } else {
                    push_seg(&mut out, padded(l.as_str()), SegmentStyle::Removed);
                    push_seg(&mut out, String::from_str(" | "), SegmentStyle::Plain);
                    let mut t = r.clone();
                    t.append("\n");
                    push_seg(&mut out, t, SegmentStyle::Added);
                }
            },
            (None, None) => {
                push_seg(&mut out, String::from_str("\n"), SegmentStyle::Plain);
            },
        }
        assert(segments_view(out@) =~= before + side_row(lines@[i as int]@));
        i = i + 1;
    }
    assert(lv.take(lines.len() as int) =~= lv);
    out
}

} // verus!
