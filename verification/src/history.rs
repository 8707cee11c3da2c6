//! The history list: which commits a search keeps, how a row is marked, the
//! context menu of a commit and what each of its actions asks for.
use vstd::prelude::*;
use vstd::string::StringSliceAdditionalSpecFns;
use vstd::utf8::decode_utf8;
use crate::model::{commits_view, CommitContextAction, CommitInfo, CommitInfoView, StarredItem, StarredItemView};
use crate::stars::StarSet;
use crate::text::{append_str, contains_str, has_substring, lowercase, string_of, to_lower};

verus! {

/// Whether a commit matches a lower-case search text: its summary or its author
/// once lowered, or its abbreviated or full id, holds the text.
pub open spec fn commit_matches(c: CommitInfoView, q: Seq<char>) -> bool {
    ||| has_substring(lowercase(c.summary), q)
    ||| has_substring(lowercase(c.author), q)
    ||| has_substring(c.short_id, q)
    ||| has_substring(c.oid, q)
}

/// The commits that the list shows for a search text: all of them for an empty
/// text, else those that match the text lowered, in their order.
pub open spec fn filtered_commits(all: Seq<CommitInfoView>, query: Seq<char>) -> Seq<CommitInfoView> {
    if query.len() == 0 {
        all
    } else {
        all.filter(|c: CommitInfoView| commit_matches(c, lowercase(query)))
    }
}

/// Whether a commit matches a search text that is already lower-case.
pub fn commit_matches_query(c: &CommitInfo, q: &str) -> (r: bool)
    ensures
        r == commit_matches(c@, q@),
{
    let summary = to_lower(c.summary.as_str());
    if contains_str(summary.as_str(), q) {
        return true;
    }
    let author = to_lower(c.author.as_str());
    if contains_str(author.as_str(), q) {
        return true;
    }
    contains_str(c.short_id.as_str(), q) || contains_str(c.oid.as_str(), q)
}

/// The commits that the history list shows for a search text.
pub fn filter_commits(all: &Vec<CommitInfo>, query: &str) -> (r: Vec<CommitInfo>)
    ensures
        commits_view(r@) == filtered_commits(commits_view(all@), query@),
{
    let ghost av = commits_view(all@);
    let mut out: Vec<CommitInfo> = Vec::new();
    let mut i: usize = 0;
    if query.is_empty() {
        while i < all.len()
            invariant
                i <= all.len(),
                av == commits_view(all@),
                commits_view(out@) == av.take(i as int),
            decreases all.len() - i,
        {
            let c = all[i].duplicate();
            let ghost before = out@;
            out.push(c);
            assert(commits_view(out@) =~= commits_view(before).push(all@[i as int]@));
            assert(commits_view(out@) =~= av.take(i + 1));
            i = i + 1;
        }
        assert(av.take(all.len() as int) =~= av);
        return out;
    }
    let q = to_lower(query);
    let ghost pred = |c: CommitInfoView| commit_matches(c, lowercase(query@));
    assert(commits_view(out@) =~= av.take(0).filter(pred)) by {
        reveal(Seq::filter);
    }
    while i < all.len()
        invariant
            i <= all.len(),
            av == commits_view(all@),
            q@ == lowercase(query@),
            pred == (|c: CommitInfoView| commit_matches(c, lowercase(query@))),
            commits_view(out@) == av.take(i as int).filter(pred),
        decreases all.len() - i,
    {
        let ghost t = av.take(i + 1);
        assert(t.drop_last() =~= av.take(i as int));
        assert(t.last() == all@[i as int]@);
        assert(t.filter(pred) == if pred(t.last()) {
            t.drop_last().filter(pred).push(t.last())
        } else {
            t.drop_last().filter(pred)
        }) by {
            reveal(Seq::filter);
        }
        if commit_matches_query(&all[i], q.as_str()) {
            let c = all[i].duplicate();
            let ghost before = out@;
            out.push(c);
            assert(commits_view(out@) =~= commits_view(before).push(all@[i as int]@));
        }
        i = i + 1;
    }
    assert(av.take(all.len() as int) =~= av);
    out
}

fn copy_commits(v: &Vec<CommitInfo>) -> (r: Vec<CommitInfo>)
    ensures
        commits_view(r@) == commits_view(v@),
{
    let mut r: Vec<CommitInfo> = Vec::new();
    let mut i: usize = 0;
    while i < v.len()
        invariant
            i <= v.len(),
            r@.len() == i,
            forall|j: int| 0 <= j < i ==> r@[j]@ == v@[j]@,
        decreases v.len() - i,
    {
        r.push(v[i].duplicate());
        i = i + 1;
    }
    assert(commits_view(r@) =~= commits_view(v@));
    r
}

/// The commits the history list holds, page after page, and the rows it shows.
#[derive(Debug)]
pub struct CommitList {
    commits: Vec<CommitInfo>,
}

impl View for CommitList {
    type V = Seq<CommitInfoView>;

    closed spec fn view(&self) -> Seq<CommitInfoView> {
        commits_view(self.commits@)
    }
}

impl CommitList {
    /// A list that holds no commit.
    pub fn new() -> (r: CommitList)
        ensures
            r@.len() == 0,
    {
        let r = CommitList { commits: Vec::new() };
        assert(r@ =~= Seq::<CommitInfoView>::empty());
        r
    }

    /// Holds the given commits in place of the former ones, and gives the rows
    /// to show: these commits.
    pub fn load(&mut self, commits: Vec<CommitInfo>) -> (shown: Vec<CommitInfo>)
        ensures
            final(self)@ == commits_view(commits@),
            commits_view(shown@) == commits_view(commits@),
    {
        let shown = copy_commits(&commits);
        self.commits = commits;
        shown
    }

    /// Adds the next page of commits after those held, and gives the rows to
    /// show: all the commits held.
    pub fn append(&mut self, commits: Vec<CommitInfo>) -> (shown: Vec<CommitInfo>)
        ensures
            final(self)@ == old(self)@ + commits_view(commits@),
            commits_view(shown@) == final(self)@,
    {
        let ghost before = self@;
        let mut more = commits;
        let ghost added = commits_view(more@);
        let ghost held = self.commits@;
        let ghost moved = more@;
        self.commits.append(&mut more);
        assert(self.commits@ =~= held + moved);
        assert(self@ =~= before + added);
        copy_commits(&self.commits)
    }

    /// The rows to show for a search text.
    pub fn filter(&self, query: &str) -> (shown: Vec<CommitInfo>)
        ensures
            commits_view(shown@) == filtered_commits(self@, query@),
    {
        filter_commits(&self.commits, query)
    }
}

/// The commits a list holds after its first page was loaded and the others
/// appended one after another: the pages end to end.
pub open spec fn concat_pages(pages: Seq<Seq<CommitInfoView>>) -> Seq<CommitInfoView>
    decreases pages.len(),
{
    if pages.len() == 0 {
        Seq::empty()
    } else {
        concat_pages(pages.drop_last()) + pages.last()
    }
}

/// The sum of the lengths of the pages.
pub open spec fn pages_len(pages: Seq<Seq<CommitInfoView>>) -> int
    decreases pages.len(),
{
    if pages.len() == 0 { 0 } else { pages_len(pages.drop_last()) + pages.last().len() }
}

/// Loading a page and appending the next ones keeps each page in place: the
/// list is the pages end to end, as long as all of them together, and each
/// page's commits stand right after those of the pages before it.
pub proof fn law_pages_in_order(pages: Seq<Seq<CommitInfoView>>, k: int, j: int)
    requires
        0 <= k < pages.len(),
        0 <= j < pages[k].len(),
    ensures
        concat_pages(pages).len() == pages_len(pages),
        pages_len(pages.take(k)) + j < pages_len(pages),
        concat_pages(pages)[pages_len(pages.take(k)) + j] == pages[k][j],
    decreases pages.len(),
{
    let p = pages.drop_last();
    lemma_pages_len(p);
    lemma_pages_len(pages);
    let c = concat_pages(p);
    assert(concat_pages(pages) == c + pages.last());
    if k < pages.len() - 1 {
        law_pages_in_order(p, k, j);
        assert(p.take(k) =~= pages.take(k));
        assert(p[k] == pages[k]);
        let idx = pages_len(pages.take(k)) + j;
        lemma_pages_len(pages.take(k));
        assert((c + pages.last())[idx] == c[idx]);
    } else {
        assert(pages.take(k) =~= p);
        assert((c + pages.last())[c.len() + j] == pages.last()[j]);
    }
}

proof fn lemma_pages_len(pages: Seq<Seq<CommitInfoView>>)
    ensures
        concat_pages(pages).len() == pages_len(pages),
    decreases pages.len(),
{
    if pages.len() > 0 {
        lemma_pages_len(pages.drop_last());
    }
}

/// What a filter keeps comes from the filtered sequence.
proof fn lemma_filter_within(s: Seq<CommitInfoView>, pred: spec_fn(CommitInfoView) -> bool, i: int)
    requires
        0 <= i < s.filter(pred).len(),
    ensures
        s.contains(s.filter(pred)[i]),
    decreases s.len(),
{
    reveal(Seq::filter);
    if s.len() > 0 {
        let p = s.drop_last();
        if i < p.filter(pred).len() {
            lemma_filter_within(p, pred, i);
            let k = choose|k: int| 0 <= k < p.len() && p[k] == p.filter(pred)[i];
            assert(s[k] == p[k]);
        } else {
            assert(s[s.len() - 1] == s.filter(pred)[i]);
        }
    }
}

/// An empty search text keeps every commit; any other keeps exactly the
/// commits that match it, in their order.
pub proof fn law_filter_keeps_matches(all: Seq<CommitInfoView>, query: Seq<char>)
    ensures
        query.len() == 0 ==> filtered_commits(all, query) == all,
        query.len() > 0 ==> (forall|c: CommitInfoView| #[trigger] filtered_commits(all, query).contains(c)
            <==> (all.contains(c) && commit_matches(c, lowercase(query)))),
{
    broadcast use vstd::seq_lib::group_filter_ensures;
    if query.len() > 0 {
        let pred = |c: CommitInfoView| commit_matches(c, lowercase(query));
        let f = all.filter(pred);
        assert forall|c: CommitInfoView| #[trigger] f.contains(c) <==> (all.contains(c) && pred(c)) by {
            if f.contains(c) {
                let k = choose|k: int| 0 <= k < f.len() && f[k] == c;
                assert(pred(f[k]));
                lemma_filter_within(all, pred, k);
            }
            if all.contains(c) && pred(c) {
                let k = choose|k: int| 0 <= k < all.len() && all[k] == c;
                assert(f.contains(all[k]));
            }
        }
    }
}

/// A non-empty search keeps exactly the commits whose summary or author,
/// lowered, holds the lowered search text anywhere, or whose short or full id
/// holds it anywhere.
pub proof fn law_search_finds_text_anywhere(all: Seq<CommitInfoView>, query: Seq<char>, c: CommitInfoView)
    requires
        query.len() > 0,
    ensures
        filtered_commits(all, query).contains(c) <==> (all.contains(c) && (
            has_substring(lowercase(c.summary), lowercase(query))
            || has_substring(lowercase(c.author), lowercase(query))
            || has_substring(c.short_id, lowercase(query))
            || has_substring(c.oid, lowercase(query)))),
{
    law_filter_keeps_matches(all, query);
}

/// The star of a commit's row: full when the commit is a favourite.
pub open spec fn commit_star_of(stars: Seq<StarredItemView>, oid: Seq<char>) -> Seq<char> {
    if stars.contains(StarredItemView::Commit(oid)) { "★"@ } else { "☆"@ }
}

/// The star shown at the start of a commit's row.
pub fn commit_star(stars: &StarSet, oid: &str) -> (r: &'static str)
    ensures
        r@ == commit_star_of(stars@, oid@),
{
    if stars.contains(&StarredItem::Commit(String::from_str(oid))) { "★" } else { "☆" }
}

/// Whether a commit's summary is shown as a warning: when, lowered, it holds
/// the word "crash".
pub fn summary_warns(summary: &str) -> (r: bool)
    ensures
        r == has_substring(lowercase(summary@), "crash"@),
{
    let low = to_lower(summary);
    contains_str(low.as_str(), "crash")
}

/// The colour of a lane: the palette has eight colours, used in turn.
pub fn lane_color_index(lane: usize) -> (r: usize)
    ensures
        r == lane % 8,
        r < 8,
{
    lane % 8
}

/// One entry of a commit's context menu.
#[derive(Debug, Clone, Copy, PartialEq, Eq, Structural)]
pub enum MenuEntry {
    Action(CommitContextAction),
    Separator,
    ToggleStar,
}

/// The label of an action in the context menu.
pub open spec fn action_label_of(a: CommitContextAction) -> Seq<char> {
    match a {
        CommitContextAction::Revert => "Revert Commit…"@,
        CommitContextAction::ResetTo => "Reset Current Branch to Commit…"@,
        CommitContextAction::ResetToPrevious => "Reset Current Branch to Previous Commit…"@,
        CommitContextAction::AiRebasePreview => "AI Rebase Current Branch onto Commit (Preview)…"@,
        CommitContextAction::RebaseOnto => "Rebase Current Branch onto Commit…"@,
        CommitContextAction::SwitchTo => "Switch to Commit…"@,
        CommitContextAction::CreateBranch => "Create Branch…"@,
        CommitContextAction::CreatePatch => "Create Patch…"@,
        CommitContextAction::CreateTag => "Create Tag…"@,
        CommitContextAction::ExplainChanges => "Explain Changes (Preview)"@,
        CommitContextAction::OpenChanges => "Open Changes"@,
        CommitContextAction::InspectDetails => "Inspect Details"@,
        CommitContextAction::OpenOnRemote => "Open Commit on Remote"@,
        CommitContextAction::CompareToFromHead => "Compare to/from HEAD"@,
        CommitContextAction::CompareWorkingTreeToHere => "Compare Working Tree to Here"@,
        CommitContextAction::CopyPatch => "Copy Changes (Patch)"@,
        CommitContextAction::Share => "Share"@,
        CommitContextAction::Copy => "Copy"@,
        CommitContextAction::CopySha => "Copy SHA"@,
        CommitContextAction::CopyMessage => "Copy Message"@,
    }
}

/// The label of an action in the context menu.
pub fn action_label(a: CommitContextAction) -> (r: &'static str)
    ensures
        r@ == action_label_of(a),
{
    match a {
        CommitContextAction::Revert => "Revert Commit…",
        CommitContextAction::ResetTo => "Reset Current Branch to Commit…",
        CommitContextAction::ResetToPrevious => "Reset Current Branch to Previous Commit…",
        CommitContextAction::AiRebasePreview => "AI Rebase Current Branch onto Commit (Preview)…",
        CommitContextAction::RebaseOnto => "Rebase Current Branch onto Commit…",
        CommitContextAction::SwitchTo => "Switch to Commit…",
        CommitContextAction::CreateBranch => "Create Branch…",
        CommitContextAction::CreatePatch => "Create Patch…",
        CommitContextAction::CreateTag => "Create Tag…",
        CommitContextAction::ExplainChanges => "Explain Changes (Preview)",
        CommitContextAction::OpenChanges => "Open Changes",
        CommitContextAction::InspectDetails => "Inspect Details",
        CommitContextAction::OpenOnRemote => "Open Commit on Remote",
        CommitContextAction::CompareToFromHead => "Compare to/from HEAD",
        CommitContextAction::CompareWorkingTreeToHere => "Compare Working Tree to Here",
        CommitContextAction::CopyPatch => "Copy Changes (Patch)",
        CommitContextAction::Share => "Share",
        CommitContextAction::Copy => "Copy",
        CommitContextAction::CopySha => "Copy SHA",
        CommitContextAction::CopyMessage => "Copy Message",
    }
}

/// The entries of a commit's context menu, in order, as the list opens it.
pub open spec fn commit_menu_of() -> Seq<MenuEntry> {
    seq![
        MenuEntry::Action(CommitContextAction::Revert),
        MenuEntry::Action(CommitContextAction::ResetTo),
        MenuEntry::Action(CommitContextAction::ResetToPrevious),
        MenuEntry::Action(CommitContextAction::AiRebasePreview),
        MenuEntry::Action(CommitContextAction::RebaseOnto),
        MenuEntry::Action(CommitContextAction::SwitchTo),
        MenuEntry::Separator,
        MenuEntry::Action(CommitContextAction::CreateBranch),
        MenuEntry::Action(CommitContextAction::CreatePatch),
        MenuEntry::Action(CommitContextAction::CreateTag),
        MenuEntry::Separator,
        MenuEntry::Action(CommitContextAction::ExplainChanges),
        MenuEntry::Action(CommitContextAction::OpenChanges),
        MenuEntry::Action(CommitContextAction::InspectDetails),
        MenuEntry::Action(CommitContextAction::OpenOnRemote),
        MenuEntry::Action(CommitContextAction::CompareToFromHead),
        MenuEntry::Action(CommitContextAction::CompareWorkingTreeToHere),
        MenuEntry::Action(CommitContextAction::CopyPatch),
        MenuEntry::Separator,
        MenuEntry::Action(CommitContextAction::Share),
        MenuEntry::Action(CommitContextAction::Copy),
        MenuEntry::Action(CommitContextAction::CopySha),
        MenuEntry::Action(CommitContextAction::CopyMessage),
    ]
}

/// The context menu offers every action, each exactly once.
pub proof fn law_menu_offers_each_action_once(a: CommitContextAction)
    ensures
        commit_menu_of().contains(MenuEntry::Action(a)),
        forall|i: int, j: int|
            0 <= i < j < commit_menu_of().len() && commit_menu_of()[i] == MenuEntry::Action(a)
                ==> commit_menu_of()[j] != MenuEntry::Action(a),
{
    let m = commit_menu_of();
    let k: int = match a {
        CommitContextAction::Revert => 0,
        CommitContextAction::ResetTo => 1,
        CommitContextAction::ResetToPrevious => 2,
        CommitContextAction::AiRebasePreview => 3,
        CommitContextAction::RebaseOnto => 4,
        CommitContextAction::SwitchTo => 5,
        CommitContextAction::CreateBranch => 7,
        CommitContextAction::CreatePatch => 8,
        CommitContextAction::CreateTag => 9,
        CommitContextAction::ExplainChanges => 11,
        CommitContextAction::OpenChanges => 12,
        CommitContextAction::InspectDetails => 13,
        CommitContextAction::OpenOnRemote => 14,
        CommitContextAction::CompareToFromHead => 15,
        CommitContextAction::CompareWorkingTreeToHere => 16,
        CommitContextAction::CopyPatch => 17,
        CommitContextAction::Share => 19,
        CommitContextAction::Copy => 20,
        CommitContextAction::CopySha => 21,
        CommitContextAction::CopyMessage => 22,
    };
    assert(m[k] == MenuEntry::Action(a));
}

/// The entries of the context menu that the list opens for a commit.
pub fn commit_menu() -> (r: Vec<MenuEntry>)
    ensures
        r@ == commit_menu_of(),
{
    let mut v: Vec<MenuEntry> = Vec::new();
    v.push(MenuEntry::Action(CommitContextAction::Revert));
    v.push(MenuEntry::Action(CommitContextAction::ResetTo));
    v.push(MenuEntry::Action(CommitContextAction::ResetToPrevious));
    v.push(MenuEntry::Action(CommitContextAction::AiRebasePreview));
    v.push(MenuEntry::Action(CommitContextAction::RebaseOnto));
    v.push(MenuEntry::Action(CommitContextAction::SwitchTo));
    v.push(MenuEntry::Separator);
    v.push(MenuEntry::Action(CommitContextAction::CreateBranch));
    v.push(MenuEntry::Action(CommitContextAction::CreatePatch));
    v.push(MenuEntry::Action(CommitContextAction::CreateTag));
    v.push(MenuEntry::Separator);
    v.push(MenuEntry::Action(CommitContextAction::ExplainChanges));
    v.push(MenuEntry::Action(CommitContextAction::OpenChanges));
    v.push(MenuEntry::Action(CommitContextAction::InspectDetails));
    v.push(MenuEntry::Action(CommitContextAction::OpenOnRemote));
    v.push(MenuEntry::Action(CommitContextAction::CompareToFromHead));
    v.push(MenuEntry::Action(CommitContextAction::CompareWorkingTreeToHere));
    v.push(MenuEntry::Action(CommitContextAction::CopyPatch));
    v.push(MenuEntry::Separator);
    v.push(MenuEntry::Action(CommitContextAction::Share));
    v.push(MenuEntry::Action(CommitContextAction::Copy));
    v.push(MenuEntry::Action(CommitContextAction::CopySha));
    v.push(MenuEntry::Action(CommitContextAction::CopyMessage));
    assert(v@ =~= commit_menu_of());
    v
}

/// The entries of the context menu of a commit's row: the list's menu, then a
/// separator and the entry that stars or unstars the commit.
pub fn commit_row_menu() -> (r: Vec<MenuEntry>)
    ensures
        r@ == commit_menu_of() + seq![MenuEntry::Separator, MenuEntry::ToggleStar],
{
    let mut v = commit_menu();
    v.push(MenuEntry::Separator);
    v.push(MenuEntry::ToggleStar);
    assert(v@ =~= commit_menu_of() + seq![MenuEntry::Separator, MenuEntry::ToggleStar]);
    v
}

/// What an action of the context menu asks for.
#[derive(Debug, Clone, Copy, PartialEq, Eq, Structural)]
pub enum ActionPlan {
    /// Show the commit in the details pane.
    ShowDetails,
    /// Put the commit's id on the clipboard.
    CopyId,
    /// Put the commit's full message on the clipboard.
    CopyMessage,
    /// Put the abbreviated id and the summary on the clipboard.
    CopySummary,
    /// Put the commit's patch on the clipboard.
    CopyPatch,
    /// Ask for the name of a branch to create at the commit.
    AskBranchName,
    /// Ask for the name of a tag to create at the commit.
    AskTagName,
    /// Write the commit's patch to a file in the repository.
    SavePatch,
    /// Ask before resetting the current branch to the commit.
    ConfirmReset,
    /// Reset the current branch to the commit's parent.
    ResetToParent,
    /// Check out the commit.
    CheckoutCommit,
    /// Copy the commit's address on the remote and show it.
    CopyRemoteUrl,
    /// Tell that the action is not available yet.
    NotAvailable,
}

/// What each action of the context menu asks for.
pub open spec fn action_plan_of(a: CommitContextAction) -> ActionPlan {
    match a {
        CommitContextAction::OpenChanges | CommitContextAction::InspectDetails => ActionPlan::ShowDetails,
        CommitContextAction::CopySha => ActionPlan::CopyId,
        CommitContextAction::CopyMessage => ActionPlan::CopyMessage,
        CommitContextAction::Copy => ActionPlan::CopySummary,
        CommitContextAction::CopyPatch => ActionPlan::CopyPatch,
        CommitContextAction::CreateBranch => ActionPlan::AskBranchName,
        CommitContextAction::CreateTag => ActionPlan::AskTagName,
        CommitContextAction::CreatePatch => ActionPlan::SavePatch,
        CommitContextAction::ResetTo => ActionPlan::ConfirmReset,
        CommitContextAction::ResetToPrevious => ActionPlan::ResetToParent,
        CommitContextAction::SwitchTo => ActionPlan::CheckoutCommit,
        CommitContextAction::OpenOnRemote => ActionPlan::CopyRemoteUrl,
        CommitContextAction::Revert
        | CommitContextAction::AiRebasePreview
        | CommitContextAction::RebaseOnto
        | CommitContextAction::ExplainChanges
        | CommitContextAction::CompareToFromHead
        | CommitContextAction::CompareWorkingTreeToHere
        | CommitContextAction::Share => ActionPlan::NotAvailable,
    }
}

/// What an action of the context menu asks for.
pub fn action_plan(a: CommitContextAction) -> (r: ActionPlan)
    ensures
        r == action_plan_of(a),
{
    match a {
        CommitContextAction::OpenChanges | CommitContextAction::InspectDetails => ActionPlan::ShowDetails,
        CommitContextAction::CopySha => ActionPlan::CopyId,
        CommitContextAction::CopyMessage => ActionPlan::CopyMessage,
        CommitContextAction::Copy => ActionPlan::CopySummary,
        CommitContextAction::CopyPatch => ActionPlan::CopyPatch,
        CommitContextAction::CreateBranch => ActionPlan::AskBranchName,
        CommitContextAction::CreateTag => ActionPlan::AskTagName,
        CommitContextAction::CreatePatch => ActionPlan::SavePatch,
        CommitContextAction::ResetTo => ActionPlan::ConfirmReset,
        CommitContextAction::ResetToPrevious => ActionPlan::ResetToParent,
        CommitContextAction::SwitchTo => ActionPlan::CheckoutCommit,
        CommitContextAction::OpenOnRemote => ActionPlan::CopyRemoteUrl,
        CommitContextAction::Revert
        | CommitContextAction::AiRebasePreview
        | CommitContextAction::RebaseOnto
        | CommitContextAction::ExplainChanges
        | CommitContextAction::CompareToFromHead
        | CommitContextAction::CompareWorkingTreeToHere
        | CommitContextAction::Share => ActionPlan::NotAvailable,
    }
}

/// The text that "Copy" puts on the clipboard: the abbreviated id in brackets,
/// a space and the summary.
pub fn copy_summary_text(info: &CommitInfo) -> (r: String)
    ensures
        r@ == "["@ + info.short_id@ + "] "@ + info.summary@,
{
    let mut v: Vec<char> = Vec::new();
    append_str(&mut v, "[");
    append_str(&mut v, info.short_id.as_str());
    append_str(&mut v, "] ");
    append_str(&mut v, info.summary.as_str());
    string_of(&v)
}

/// The date shown in a commit's row: the date in local time when the stored
/// RFC 3339 text could be read and formatted, else the stored text as it is.
pub fn date_label(time: &str, local: Option<String>) -> (r: String)
    ensures
        local is None ==> r@ == time@,
        local matches Some(t) ==> r@ == t@,
{
    match local {
        Some(t) => t,
        None => String::from_str(time),
    }
}

/// The number of leading bytes of a commit id that name its patch file.
pub open spec fn patch_prefix_len(oid: &str) -> int {
    if oid.spec_bytes().len() < 7 { oid.spec_bytes().len() as int } else { 7 }
}

/// The name of the file a commit's patch is saved to: the first seven bytes of
/// its id, then ".patch". The seven bytes must end on a character boundary.
pub fn patch_file_name(oid: &str) -> (r: String)
    requires
        vstd::utf8::valid_utf8(oid.spec_bytes().take(patch_prefix_len(oid))),
    ensures
        r@ == decode_utf8(oid.spec_bytes().take(patch_prefix_len(oid))) + ".patch"@,
{
    let bytes = oid.as_bytes();
    let n: usize = if bytes.len() < 7 { bytes.len() } else { 7 };
    let mut head: Vec<u8> = Vec::new();
    let mut i: usize = 0;
    while i < n
        invariant
            i <= n <= bytes@.len(),
            bytes@ == oid.spec_bytes(),
            n == patch_prefix_len(oid),
            head@ == bytes@.take(i as int),
        decreases n - i,
    {
        head.push(bytes[i]);
        assert(head@ =~= bytes@.take(i + 1));
        i = i + 1;
    }
    let mut v: Vec<char> = Vec::new();
    match crate::diff::utf8_text(head.as_slice()) {
        Some(s) => append_str(&mut v, s.as_str()),
        None => {},
    }
    append_str(&mut v, ".patch");
    string_of(&v)
}

} // verus!
