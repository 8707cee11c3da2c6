//! The plain records that the repository layer produces and the views render.
use vstd::prelude::*;

verus! {

/// The mathematical view of a list of strings: the characters of each.
pub open spec fn strings_view(v: Seq<String>) -> Seq<Seq<char>> {
    Seq::new(v.len(), |i: int| v[i]@)
}

/// The view of an optional string.
pub open spec fn opt_str_view(o: Option<String>) -> Option<Seq<char>> {
    match o {
        Some(s) => Some(s@),
        None => None,
    }
}

/// One commit as the history list shows it.
#[derive(Debug)]
pub struct CommitInfo {
    pub oid: String,
    pub short_id: String,
    pub summary: String,
    pub author: String,
    pub email: String,
    pub time: String,
    pub parents: Vec<String>,
    pub refs: Vec<String>,
}

pub struct CommitInfoView {
    pub oid: Seq<char>,
    pub short_id: Seq<char>,
    pub summary: Seq<char>,
    pub author: Seq<char>,
    pub email: Seq<char>,
    pub time: Seq<char>,
    pub parents: Seq<Seq<char>>,
    pub refs: Seq<Seq<char>>,
}

impl View for CommitInfo {
    type V = CommitInfoView;

    open spec fn view(&self) -> CommitInfoView {
        CommitInfoView {
            oid: self.oid@,
            short_id: self.short_id@,
            summary: self.summary@,
            author: self.author@,
            email: self.email@,
            time: self.time@,
            parents: strings_view(self.parents@),
            refs: strings_view(self.refs@),
        }
    }
}

/// The views of a list of commits.
pub open spec fn commits_view(v: Seq<CommitInfo>) -> Seq<CommitInfoView> {
    Seq::new(v.len(), |i: int| v[i]@)
}

/// A copy of a list of strings with the same characters.
pub fn copy_strings(v: &Vec<String>) -> (r: Vec<String>)
    ensures
        strings_view(r@) == strings_view(v@),
{
    let mut r: Vec<String> = Vec::new();
    let mut i: usize = 0;
    while i < v.len()
        invariant
            i <= v.len(),
            r@.len() == i,
            forall|j: int| 0 <= j < i ==> r@[j]@ == v@[j]@,
        decreases v.len() - i,
    {
        r.push(v[i].clone());
        i = i + 1;
    }
    assert(strings_view(r@) =~= strings_view(v@));
    r
}

impl CommitInfo {
    /// A copy of this record, field by field.
    pub fn duplicate(&self) -> (r: CommitInfo)
        ensures
            r@ == self@,
    {
        CommitInfo {
            oid: self.oid.clone(),
            short_id: self.short_id.clone(),
            summary: self.summary.clone(),
            author: self.author.clone(),
            email: self.email.clone(),
            time: self.time.clone(),
            parents: copy_strings(&self.parents),
            refs: copy_strings(&self.refs),
        }
    }
}

/// One row of a side-by-side diff: the old text on the left, the new on the right.
#[derive(Debug)]
pub struct DiffLine {
    pub left: Option<String>,
    pub right: Option<String>,
}

pub struct DiffLineView {
    pub left: Option<Seq<char>>,
    pub right: Option<Seq<char>>,
}

impl View for DiffLine {
    type V = DiffLineView;

    open spec fn view(&self) -> DiffLineView {
        DiffLineView { left: opt_str_view(self.left), right: opt_str_view(self.right) }
    }
}

/// The changes of one file in a commit.
#[derive(Debug)]
pub struct FileDiff {
    pub path: String,
    pub status: String,
    pub lines: Vec<DiffLine>,
}

/// A local branch with its distance to its upstream.
#[derive(Debug)]
pub struct BranchStatus {
    pub name: String,
    pub ahead: usize,
    pub behind: usize,
}

pub struct BranchStatusView {
    pub name: Seq<char>,
    pub ahead: usize,
    pub behind: usize,
}

impl View for BranchStatus {
    type V = BranchStatusView;

    open spec fn view(&self) -> BranchStatusView {
        BranchStatusView { name: self.name@, ahead: self.ahead, behind: self.behind }
    }
}

/// The views of a list of branch statuses.
pub open spec fn branches_view(v: Seq<BranchStatus>) -> Seq<BranchStatusView> {
    Seq::new(v.len(), |i: int| v[i]@)
}

/// Something the user marked as a favourite.
#[derive(Debug, Hash, Eq)]
pub enum StarredItem {
    Branch(String),
    Commit(String),
}

pub enum StarredItemView {
    Branch(Seq<char>),
    Commit(Seq<char>),
}

impl View for StarredItem {
    type V = StarredItemView;

    open spec fn view(&self) -> StarredItemView {
        match self {
            StarredItem::Branch(s) => StarredItemView::Branch(s@),
            StarredItem::Commit(s) => StarredItemView::Commit(s@),
        }
    }
}

impl StarredItem {
    /// A copy of this item.
    pub fn duplicate(&self) -> (r: StarredItem)
        ensures
            r@ == self@,
    {
        match self {
            StarredItem::Branch(s) => StarredItem::Branch(s.clone()),
            StarredItem::Commit(s) => StarredItem::Commit(s.clone()),
        }
    }

    /// Whether two items name the same branch or the same commit.
    pub fn same_as(&self, other: &StarredItem) -> (r: bool)
        ensures
            r == (self@ == other@),
    {
        match (self, other) {
            (StarredItem::Branch(a), StarredItem::Branch(b)) => *a == *b,
            (StarredItem::Commit(a), StarredItem::Commit(b)) => *a == *b,
            _ => false,
        }
    }
}

impl PartialEq for StarredItem {
    fn eq(&self, other: &StarredItem) -> (r: bool) {
        self.same_as(other)
    }
}

impl vstd::std_specs::cmp::PartialEqSpecImpl for StarredItem {
    open spec fn obeys_eq_spec() -> bool {
        true
    }

    open spec fn eq_spec(&self, other: &StarredItem) -> bool {
        self@ == other@
    }
}

impl Clone for StarredItem {
    fn clone(&self) -> (r: StarredItem) {
        self.duplicate()
    }
}

/// The actions of a commit's context menu.
#[derive(Debug, Clone, Copy, PartialEq, Eq, Structural)]
pub enum CommitContextAction {
    Revert,
    ResetTo,
    ResetToPrevious,
    AiRebasePreview,
    RebaseOnto,
    SwitchTo,
    CreateBranch,
    CreatePatch,
    CreateTag,
    ExplainChanges,
    OpenChanges,
    InspectDetails,
    OpenOnRemote,
    CompareToFromHead,
    CompareWorkingTreeToHere,
    CopyPatch,
    Share,
    Copy,
    CopySha,
    CopyMessage,
}

} // verus!
