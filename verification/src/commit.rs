//! The records that the repository layer builds from what git reports: commit
//! records, the references at a commit, stash labels and branch distances, and
//! the parsing of commit ids.
use vstd::prelude::*;
use crate::model::{opt_str_view, strings_view, BranchStatus, CommitInfo, CommitInfoView};
use crate::text::{append_decimal, append_str, decimal, string_of};

verus! {

/// The first Unix timestamp that `time` can hold without its large-dates
/// feature: -9999-01-01T00:00:00Z.
pub const FIRST_TIMESTAMP: i64 = -377705116800;

/// The last Unix timestamp that `time` can hold without its large-dates
/// feature: 9999-12-31T23:59:59Z.
pub const LAST_TIMESTAMP: i64 = 253402300799;

/// The Unix timestamp of 0000-01-01T00:00:00Z, the first instant whose year the
/// RFC 3339 format can write.
pub const YEAR_ZERO_TIMESTAMP: i64 = -62167219200;

/// The name for the RFC 3339 text of a Unix timestamp taken in UTC, as `time`
/// formats it.
pub uninterp spec fn rfc3339_utc(secs: int) -> Seq<char>;

/// Calls `time::OffsetDateTime::from_unix_timestamp` and reports whether it
/// succeeds, which it does on the timestamps between the first and the last
/// that a `time` date can hold.
#[verifier::external_body]
fn timestamp_in_range(secs: i64) -> (r: bool)
    ensures
        r == (FIRST_TIMESTAMP <= secs <= LAST_TIMESTAMP),
{
    time::OffsetDateTime::from_unix_timestamp(secs).is_ok()
}

/// Formats a timestamp in UTC with `time`'s RFC 3339 format: the date from
/// `OffsetDateTime::from_unix_timestamp`, moved to UTC, then
/// `format(&Rfc3339)`. The format fails on years before 0000; otherwise the
/// text is named `rfc3339_utc` of the timestamp.
#[verifier::external_body]
fn format_rfc3339_utc(secs: i64) -> (r: Option<String>)
    requires
        FIRST_TIMESTAMP <= secs <= LAST_TIMESTAMP,
    ensures
        r is Some <==> secs >= YEAR_ZERO_TIMESTAMP,
        r matches Some(t) ==> t@ == rfc3339_utc(secs as int),
{
    let dt = time::OffsetDateTime::from_unix_timestamp(secs).ok()?;
    dt.to_offset(time::UtcOffset::UTC).format(&time::format_description::well_known::Rfc3339).ok()
}

/// The date of a commit as the history shows it: its timestamp in RFC 3339 in
/// UTC, the Unix epoch in place of a timestamp out of range, and nothing for a
/// date the format cannot write.
pub open spec fn commit_time_of(secs: int) -> Seq<char> {
    let s = if FIRST_TIMESTAMP <= secs <= LAST_TIMESTAMP { secs } else { 0 };
    if s >= YEAR_ZERO_TIMESTAMP {
        rfc3339_utc(s)
    } else {
        Seq::empty()
    }
}

/// The date text of a commit timestamp.
pub fn commit_time_text(secs: i64) -> (r: String)
    ensures
        r@ == commit_time_of(secs as int),
{
    let s = if timestamp_in_range(secs) { secs } else { 0 };
    match format_rfc3339_utc(s) {
        Some(t) => t,
        None => String::new(),
    }
}

/// An optional text, or a default when it is absent.
pub open spec fn text_or(o: Option<Seq<char>>, d: Seq<char>) -> Seq<char> {
    match o {
        Some(s) => s,
        None => d,
    }
}

fn string_or(o: Option<String>, d: &str) -> (r: String)
    ensures
        r@ == text_or(crate::model::opt_str_view(o), d@),
{
    match o {
        Some(s) => s,
        None => String::from_str(d),
    }
}

/// The record of a commit: its id, its short id (empty when git gives none),
/// its summary (`<no subject>` when it has none), its author's name (`unknown`
/// when absent) and email (empty when absent), its date, its parents and the
/// references at it.
pub fn commit_info(
    oid: String,
    short_id: Option<String>,
    summary: Option<String>,
    author_name: Option<String>,
    author_email: Option<String>,
    time_secs: i64,
    parents: Vec<String>,
    refs: Vec<String>,
) -> (r: CommitInfo)
    ensures
        r@ == (CommitInfoView {
            oid: oid@,
            short_id: text_or(crate::model::opt_str_view(short_id), ""@),
            summary: text_or(crate::model::opt_str_view(summary), "<no subject>"@),
            author: text_or(crate::model::opt_str_view(author_name), "unknown"@),
            email: text_or(crate::model::opt_str_view(author_email), ""@),
            time: commit_time_of(time_secs as int),
            parents: strings_view(parents@),
            refs: strings_view(refs@),
        }),
{
    CommitInfo {
        oid,
        short_id: string_or(short_id, ""),
        summary: string_or(summary, "<no subject>"),
        author: string_or(author_name, "unknown"),
        email: string_or(author_email, ""),
        time: commit_time_text(time_secs),
        parents,
        refs,
    }
}

/// A reference as git lists it: the id it points at, if it points at one
/// directly, and its short name, if it has one.
#[derive(Debug)]
pub struct RefTarget {
    pub target: Option<String>,
    pub shorthand: Option<String>,
}

pub struct RefTargetView {
    pub target: Option<Seq<char>>,
    pub shorthand: Option<Seq<char>>,
}

impl View for RefTarget {
    type V = RefTargetView;

    open spec fn view(&self) -> RefTargetView {
        RefTargetView {
            target: crate::model::opt_str_view(self.target),
            shorthand: crate::model::opt_str_view(self.shorthand),
        }
    }
}

pub open spec fn ref_targets_view(v: Seq<RefTarget>) -> Seq<RefTargetView> {
    Seq::new(v.len(), |i: int| v[i]@)
}

/// The short names of the references that point directly at `oid`, in order.
pub open spec fn refs_at_spec(refs: Seq<RefTargetView>, oid: Seq<char>) -> Seq<Seq<char>>
    decreases refs.len(),
{
    if refs.len() == 0 {
        Seq::empty()
    } else {
        let rest = refs_at_spec(refs.drop_last(), oid);
        let r = refs.last();
        if r.target == Some(oid) && r.shorthand is Some {
            rest.push(r.shorthand->0)
        } else {
            rest
        }
    }
}

/// The short names of the references that point at a commit.
pub fn refs_pointing_at(refs: &Vec<RefTarget>, oid: &String) -> (r: Vec<String>)
    ensures
        strings_view(r@) == refs_at_spec(ref_targets_view(refs@), oid@),
{
    let ghost rv = ref_targets_view(refs@);
    let mut out: Vec<String> = Vec::new();
    let mut i: usize = 0;
    assert(rv.take(0) =~= Seq::<RefTargetView>::empty());
    assert(strings_view(out@) =~= Seq::<Seq<char>>::empty());
    while i < refs.len()
        invariant
            i <= refs.len(),
            rv == ref_targets_view(refs@),
            strings_view(out@) == refs_at_spec(rv.take(i as int), oid@),
        decreases refs.len() - i,
    {
        assert(rv.take(i + 1).drop_last() =~= rv.take(i as int));
        assert(rv.take(i + 1).last() == refs@[i as int]@);
        let ghost before = out@;
        if let Some(t) = &refs[i].target {
            if *t == *oid {
                if let Some(name) = &refs[i].shorthand {
                    out.push(name.clone());
                    assert(strings_view(out@) =~= strings_view(before).push(name@));
                }
            }
        }
        i = i + 1;
    }
    assert(rv.take(refs.len() as int) =~= rv);
    out
}

/// The label of a stash: its message, or `stash@{i}` for a stash without one.
pub open spec fn stash_label_of(index: nat, name: Seq<char>) -> Seq<char> {
    if name.len() == 0 {
        "stash@{"@ + decimal(index) + "}"@
    } else {
        name
    }
}

/// The label of the stash at `index` with message `name`.
pub fn stash_label(index: usize, name: &str) -> (r: String)
    ensures
        r@ == stash_label_of(index as nat, name@),
{
    if name.is_empty() {
        let mut v: Vec<char> = Vec::new();
        append_str(&mut v, "stash@{");
        append_decimal(&mut v, index);
        append_str(&mut v, "}");
        string_of(&v)
    } else {
        String::from_str(name)
    }
}

/// The status of a local branch: its distance to its upstream, or none when it
/// has no upstream.
pub fn branch_status(name: String, ahead_behind: Option<(usize, usize)>) -> (r: BranchStatus)
    ensures
        r.name@ == name@,
        ahead_behind matches Some((a, b)) ==> r.ahead == a && r.behind == b,
        ahead_behind is None ==> r.ahead == 0 && r.behind == 0,
{
    match ahead_behind {
        Some((a, b)) => BranchStatus { name, ahead: a, behind: b },
        None => BranchStatus { name, ahead: 0, behind: 0 },
    }
}

/// What HEAD is shown as: the short name of its branch when it is on a branch,
/// else the id of the commit it points at, if any.
pub fn head_label(on_branch: bool, shorthand: Option<String>, target: Option<String>) -> (r: Option<String>)
    ensures
        on_branch ==> opt_str_view(r) == opt_str_view(shorthand),
        !on_branch ==> opt_str_view(r) == opt_str_view(target),
{
    if on_branch {
        shorthand
    } else {
        target
    }
}

#[verifier::external_type_specification]
#[verifier::external_body]
pub struct ExGitError(git2::Error);

/// Whether a character is a hexadecimal digit.
pub open spec fn is_hex_digit(c: char) -> bool {
    ('0' <= c <= '9') || ('a' <= c <= 'f') || ('A' <= c <= 'F')
}

/// Whether a text is an object id or a prefix of one: one to forty hexadecimal
/// digits.
pub open spec fn valid_oid_text(s: Seq<char>) -> bool {
    &&& 1 <= s.len() <= 40
    &&& forall|i: int| 0 <= i < s.len() ==> is_hex_digit(s[i])
}

/// A hexadecimal digit in lower case.
pub open spec fn lower_hex(c: char) -> char {
    if 'A' <= c <= 'F' {
        ((c as int) + 32) as char
    } else {
        c
    }
}

/// The full id that a valid id text stands for: its digits in lower case,
/// completed with zeros to forty digits.
pub open spec fn canonical_oid(s: Seq<char>) -> Seq<char> {
    Seq::new(40, |i: int| if i < s.len() { lower_hex(s[i]) } else { '0' })
}

/// Calls `git2::Oid::from_str` and writes the id back in hexadecimal. libgit2
/// accepts one to forty hexadecimal digits, fills the rest of the id with
/// zeros, and writes ids in forty lower-case digits.
#[verifier::external_body]
fn git_oid_from_str(s: &str) -> (r: Result<String, git2::Error>)
    ensures
        r is Ok <==> valid_oid_text(s@),
        r matches Ok(t) ==> t@ == canonical_oid(s@),
{
    git2::Oid::from_str(s).map(|o| o.to_string())
}

/// Why a text is not a commit id.
#[derive(Debug, Clone, Copy, PartialEq, Eq, Structural)]
pub enum CommitIdError {
    Invalid,
}

/// The full id of a commit named by an id or a prefix of one.
pub fn parse_commit_id(s: &str) -> (r: Result<String, CommitIdError>)
    ensures
        r is Ok <==> valid_oid_text(s@),
        r matches Ok(t) ==> t@ == canonical_oid(s@),
{
    match git_oid_from_str(s) {
        Ok(t) => Ok(t),
        Err(_) => Err(CommitIdError::Invalid),
    }
}

/// An id that parsing gave back parses again to itself: the full, lower-case
/// id is a valid id text, and its canonical form is the same id.
pub proof fn law_commit_id_canonical(s: Seq<char>)
    requires
        valid_oid_text(s),
    ensures
        valid_oid_text(canonical_oid(s)),
        canonical_oid(canonical_oid(s)) == canonical_oid(s),
{
    let c = canonical_oid(s);
    assert forall|i: int| 0 <= i < c.len() implies is_hex_digit(c[i]) by {
        if i < s.len() {
            assert(is_hex_digit(s[i]));
        }
    }
    assert(canonical_oid(c) =~= c);
}

} // verus!
