//! The tree of the side panel: favourites, branches, remotes, tags, stashes and
//! submodules, filtered by the search text; and what a click on a row asks for.
use vstd::prelude::*;
use crate::model::{branches_view, copy_strings, strings_view, BranchStatus, BranchStatusView, StarredItem, StarredItemView};
use crate::stars::StarSet;
use crate::text::{
    append_decimal, append_str, before_first, contains_str, decimal, find_from, first_chars, has_substring,
    lowercase, split_first, str_eq, string_of, to_lower,
};

verus! {

/// One row under a section: its star mark, its label and its kind.
#[derive(Debug)]
pub struct TreeRow {
    pub star: String,
    pub label: String,
    pub kind: String,
}

pub struct TreeRowView {
    pub star: Seq<char>,
    pub label: Seq<char>,
    pub kind: Seq<char>,
}

impl View for TreeRow {
    type V = TreeRowView;

    open spec fn view(&self) -> TreeRowView {
        TreeRowView { star: self.star@, label: self.label@, kind: self.kind@ }
    }
}

pub open spec fn tree_rows_view(v: Seq<TreeRow>) -> Seq<TreeRowView> {
    Seq::new(v.len(), |i: int| v[i]@)
}

/// A section of the tree: its title and its rows.
#[derive(Debug)]
pub struct TreeSection {
    pub title: String,
    pub rows: Vec<TreeRow>,
}

pub struct TreeSectionView {
    pub title: Seq<char>,
    pub rows: Seq<TreeRowView>,
}

impl View for TreeSection {
    type V = TreeSectionView;

    open spec fn view(&self) -> TreeSectionView {
        TreeSectionView { title: self.title@, rows: tree_rows_view(self.rows@) }
    }
}

pub open spec fn sections_view(v: Seq<TreeSection>) -> Seq<TreeSectionView> {
    Seq::new(v.len(), |i: int| v[i]@)
}

pub open spec fn row(star: Seq<char>, label: Seq<char>, kind: Seq<char>) -> TreeRowView {
    TreeRowView { star, label, kind }
}

/// The abbreviation of a commit id: its first seven characters.
pub open spec fn short_oid(oid: Seq<char>) -> Seq<char> {
    oid.take(if oid.len() < 7 { oid.len() as int } else { 7 })
}

/// The row of a favourite, when it matches the (lower-case) search text: a
/// branch by its name, a commit by its abbreviated id.
pub open spec fn starred_row(item: StarredItemView, q: Seq<char>) -> Seq<TreeRowView> {
    match item {
        StarredItemView::Branch(n) => if has_substring(lowercase(n), q) {
            seq![row("★"@, n, "branch"@)]
        } else {
            Seq::empty()
        },
        StarredItemView::Commit(o) => if has_substring(lowercase(short_oid(o)), q) {
            seq![row("★"@, short_oid(o), "commit"@)]
        } else {
            Seq::empty()
        },
    }
}

pub open spec fn starred_rows(items: Seq<StarredItemView>, q: Seq<char>) -> Seq<TreeRowView>
    decreases items.len(),
{
    if items.len() == 0 {
        Seq::empty()
    } else {
        starred_rows(items.drop_last(), q) + starred_row(items.last(), q)
    }
}

/// The label of a branch: its name and its distance to its upstream.
pub open spec fn branch_label(b: BranchStatusView) -> Seq<char> {
    b.name + " (+"@ + decimal(b.ahead as nat) + ", -"@ + decimal(b.behind as nat) + ")"@
}

/// The rows of the branches whose names match the search text, starred or not.
pub open spec fn branch_rows(bs: Seq<BranchStatusView>, stars: Seq<StarredItemView>, q: Seq<char>) -> Seq<TreeRowView>
    decreases bs.len(),
{
    if bs.len() == 0 {
        Seq::empty()
    } else {
        let rest = branch_rows(bs.drop_last(), stars, q);
        let b = bs.last();
        if has_substring(lowercase(b.name), q) {
            let star = if stars.contains(StarredItemView::Branch(b.name)) { "★"@ } else { "☆"@ };
            rest.push(row(star, branch_label(b), "branch"@))
        } else {
            rest
        }
    }
}

/// The rows of a list of names of one kind, unfiltered.
pub open spec fn plain_rows(names: Seq<Seq<char>>, kind: Seq<char>) -> Seq<TreeRowView> {
    Seq::new(names.len(), |i: int| row(""@, names[i], kind))
}

pub open spec fn section(title: Seq<char>, rows: Seq<TreeRowView>) -> TreeSectionView {
    TreeSectionView { title, rows }
}

/// The side panel's tree for a search text.
pub open spec fn side_tree(
    query: Seq<char>,
    stars: Seq<StarredItemView>,
    branches: Seq<BranchStatusView>,
    remotes: Seq<Seq<char>>,
    tags: Seq<Seq<char>>,
    stashes: Seq<Seq<char>>,
    submodules: Seq<Seq<char>>,
) -> Seq<TreeSectionView> {
    let q = lowercase(query);
    seq![
        section("Starred"@, starred_rows(stars, q)),
        section("Branches"@, branch_rows(branches, stars, q)),
        section("Remotes"@, plain_rows(remotes, "remote"@)),
        section("Tags"@, plain_rows(tags, "tag"@)),
        section("Stashes"@, plain_rows(stashes, "stash"@)),
        section("Submodules"@, plain_rows(submodules, "submodule"@)),
    ]
}

/// The row of a favourite when nothing filters it.
pub open spec fn starred_row_of(item: StarredItemView) -> TreeRowView {
    match item {
        StarredItemView::Branch(n) => row("★"@, n, "branch"@),
        StarredItemView::Commit(o) => row("★"@, short_oid(o), "commit"@),
    }
}

/// The star of a branch's row: full when the branch is a favourite.
pub open spec fn branch_star(stars: Seq<StarredItemView>, name: Seq<char>) -> Seq<char> {
    if stars.contains(StarredItemView::Branch(name)) { "★"@ } else { "☆"@ }
}

/// One row per favourite, in order.
pub open spec fn all_starred_rows(items: Seq<StarredItemView>) -> Seq<TreeRowView> {
    Seq::new(items.len(), |i: int| starred_row_of(items[i]))
}

/// One row per branch, in order.
pub open spec fn all_branch_rows(bs: Seq<BranchStatusView>, stars: Seq<StarredItemView>) -> Seq<TreeRowView> {
    Seq::new(bs.len(), |i: int| row(branch_star(stars, bs[i].name), branch_label(bs[i]), "branch"@))
}

proof fn lemma_empty_occurs(h: Seq<char>)
    ensures
        has_substring(h, Seq::<char>::empty()),
{
    assert(h.subrange(0, 0 + Seq::<char>::empty().len() as int) =~= Seq::<char>::empty());
}

/// An empty search text keeps every favourite and every branch, in order: each
/// favourite gets its row, and each branch its row with its distances and its
/// star.
pub proof fn law_empty_search_lists_everything(items: Seq<StarredItemView>, bs: Seq<BranchStatusView>, stars: Seq<StarredItemView>)
    ensures
        starred_rows(items, Seq::empty()) == all_starred_rows(items),
        branch_rows(bs, stars, Seq::empty()) == all_branch_rows(bs, stars),
    decreases items.len() + bs.len(),
{
    if items.len() > 0 {
        law_empty_search_lists_everything(items.drop_last(), Seq::empty(), stars);
        let it = items.last();
        match it {
            StarredItemView::Branch(n) => lemma_empty_occurs(lowercase(n)),
            StarredItemView::Commit(o) => lemma_empty_occurs(lowercase(short_oid(o))),
        }
        assert(starred_rows(items, Seq::empty()) =~= all_starred_rows(items)) by {
            assert(all_starred_rows(items.drop_last()) =~= all_starred_rows(items).drop_last());
        }
    }
    if bs.len() > 0 {
        law_empty_search_lists_everything(Seq::empty(), bs.drop_last(), stars);
        lemma_empty_occurs(lowercase(bs.last().name));
        assert(branch_rows(bs, stars, Seq::empty()) =~= all_branch_rows(bs, stars)) by {
            assert(all_branch_rows(bs.drop_last(), stars) =~= all_branch_rows(bs, stars).drop_last());
        }
    }
}

fn make_row(star: &str, label: String, kind: &str) -> (r: TreeRow)
    ensures
        r@ == row(star@, label@, kind@),
{
    TreeRow { star: String::from_str(star), label, kind: String::from_str(kind) }
}

fn push_row(out: &mut Vec<TreeRow>, r: TreeRow)
    ensures
        tree_rows_view(final(out)@) == tree_rows_view(old(out)@).push(r@),
{
    let ghost before = out@;
    let ghost rv = r@;
    out.push(r);
    assert(tree_rows_view(out@) =~= tree_rows_view(before).push(rv));
}

fn starred_section_rows(items: &Vec<StarredItem>, q: &str) -> (r: Vec<TreeRow>)
    ensures
        tree_rows_view(r@) == starred_rows(crate::stars::items_view(items@), q@),
{
    let ghost iv = crate::stars::items_view(items@);
    let mut out: Vec<TreeRow> = Vec::new();
    let mut i: usize = 0;
    assert(iv.take(0) =~= Seq::<StarredItemView>::empty());
    assert(tree_rows_view(out@) =~= Seq::<TreeRowView>::empty());
    while i < items.len()
        invariant
            i <= items.len(),
            iv == crate::stars::items_view(items@),
            tree_rows_view(out@) == starred_rows(iv.take(i as int), q@),
        decreases items.len() - i,
    {
        assert(iv.take(i + 1).drop_last() =~= iv.take(i as int));
        assert(iv.take(i + 1).last() == items@[i as int]@);
        let ghost before = tree_rows_view(out@);
        match &items[i] {
            StarredItem::Branch(name) => {
                let low = to_lower(name.as_str());
                if contains_str(low.as_str(), q) {
                    push_row(&mut out, make_row("★", name.clone(), "branch"));
                }
            },
            StarredItem::Commit(oid) => {
                let short = first_chars(oid.as_str(), 7);
                let low = to_lower(short.as_str());
                if contains_str(low.as_str(), q) {
                    push_row(&mut out, make_row("★", short, "commit"));
                }
            },
        }
        assert(tree_rows_view(out@) =~= before + starred_row(items@[i as int]@, q@));
        i = i + 1;
    }
    assert(iv.take(items.len() as int) =~= iv);
    out
}

/// The label of a branch row.
pub fn branch_row_label(b: &BranchStatus) -> (r: String)
    ensures
        r@ == branch_label(b@),
{
    let mut v: Vec<char> = Vec::new();
    append_str(&mut v, b.name.as_str());
    append_str(&mut v, " (+");
    append_decimal(&mut v, b.ahead);
    append_str(&mut v, ", -");
    append_decimal(&mut v, b.behind);
    append_str(&mut v, ")");
    assert(v@ =~= branch_label(b@));
    string_of(&v)
}

fn branch_section_rows(bs: &Vec<BranchStatus>, stars: &StarSet, q: &str) -> (r: Vec<TreeRow>)
    ensures
        tree_rows_view(r@) == branch_rows(branches_view(bs@), stars@, q@),
{
    let ghost bv = branches_view(bs@);
    let mut out: Vec<TreeRow> = Vec::new();
    let mut i: usize = 0;
    assert(bv.take(0) =~= Seq::<BranchStatusView>::empty());
    assert(tree_rows_view(out@) =~= Seq::<TreeRowView>::empty());
    while i < bs.len()
        invariant
            i <= bs.len(),
            bv == branches_view(bs@),
            tree_rows_view(out@) == branch_rows(bv.take(i as int), stars@, q@),
        decreases bs.len() - i,
    {
        assert(bv.take(i + 1).drop_last() =~= bv.take(i as int));
        assert(bv.take(i + 1).last() == bs@[i as int]@);
        let b = &bs[i];
        let low = to_lower(b.name.as_str());
        if contains_str(low.as_str(), q) {
            let starred = stars.contains(&StarredItem::Branch(b.name.clone()));
            let star = if starred { "★" } else { "☆" };
            push_row(&mut out, make_row(star, branch_row_label(b), "branch"));
        }
        i = i + 1;
    }
    assert(bv.take(bs.len() as int) =~= bv);
    out
}

fn plain_section_rows(names: &Vec<String>, kind: &str) -> (r: Vec<TreeRow>)
    ensures
        tree_rows_view(r@) == plain_rows(strings_view(names@), kind@),
{
    let mut out: Vec<TreeRow> = Vec::new();
    let mut i: usize = 0;
    while i < names.len()
        invariant
            i <= names.len(),
            tree_rows_view(out@) == plain_rows(strings_view(names@), kind@).take(i as int),
        decreases names.len() - i,
    {
        let ghost before = tree_rows_view(out@);
        push_row(&mut out, make_row("", names[i].clone(), kind));
        assert(tree_rows_view(out@) =~= plain_rows(strings_view(names@), kind@).take(i + 1));
        i = i + 1;
    }
    assert(plain_rows(strings_view(names@), kind@).take(names.len() as int) =~= plain_rows(strings_view(names@), kind@));
    out
}

/// The side panel's tree: the favourites and the branches that match the search
/// text, and all remotes, tags, stashes and submodules.
pub fn side_panel_tree(
    query: &str,
    stars: &StarSet,
    branches: &Vec<BranchStatus>,
    remotes: &Vec<String>,
    tags: &Vec<String>,
    stashes: &Vec<String>,
    submodules: &Vec<String>,
) -> (r: Vec<TreeSection>)
    ensures
        sections_view(r@) == side_tree(
            query@,
            stars@,
            branches_view(branches@),
            strings_view(remotes@),
            strings_view(tags@),
            strings_view(stashes@),
            strings_view(submodules@),
        ),
        query@.len() == 0 ==> sections_view(r@)[0].rows == all_starred_rows(stars@),
        query@.len() == 0 ==> sections_view(r@)[1].rows == all_branch_rows(branches_view(branches@), stars@),
{
    let q = to_lower(query);
    proof {
        if query@.len() == 0 {
            assert(q@ =~= Seq::<char>::empty());
            law_empty_search_lists_everything(stars@, branches_view(branches@), stars@);
        }
    }
    let items = stars.items();
    let mut out: Vec<TreeSection> = Vec::new();
    out.push(TreeSection { title: String::from_str("Starred"), rows: starred_section_rows(&items, q.as_str()) });
    out.push(TreeSection { title: String::from_str("Branches"), rows: branch_section_rows(branches, stars, q.as_str()) });
    out.push(TreeSection { title: String::from_str("Remotes"), rows: plain_section_rows(remotes, "remote") });
    out.push(TreeSection { title: String::from_str("Tags"), rows: plain_section_rows(tags, "tag") });
    out.push(TreeSection { title: String::from_str("Stashes"), rows: plain_section_rows(stashes, "stash") });
    out.push(TreeSection { title: String::from_str("Submodules"), rows: plain_section_rows(submodules, "submodule") });
    assert(sections_view(out@) =~= side_tree(
        query@,
        stars@,
        branches_view(branches@),
        strings_view(remotes@),
        strings_view(tags@),
        strings_view(stashes@),
        strings_view(submodules@),
    ));
    out
}

/// A copy of a list of branch statuses.
fn copy_branches(v: &Vec<BranchStatus>) -> (r: Vec<BranchStatus>)
    ensures
        branches_view(r@) == branches_view(v@),
{
    let mut r: Vec<BranchStatus> = Vec::new();
    let mut i: usize = 0;
    while i < v.len()
        invariant
            i <= v.len(),
            r@.len() == i,
            forall|j: int| 0 <= j < i ==> r@[j]@ == v@[j]@,
        decreases v.len() - i,
    {
        r.push(BranchStatus { name: v[i].name.clone(), ahead: v[i].ahead, behind: v[i].behind });
        i = i + 1;
    }
    assert(branches_view(r@) =~= branches_view(v@));
    r
}

/// What the side panel lists: the branches with their distance to upstream,
/// and the names of the remotes, tags, stashes and submodules.
#[derive(Debug)]
pub struct SidePanel {
    branches: Vec<BranchStatus>,
    remotes: Vec<String>,
    tags: Vec<String>,
    stashes: Vec<String>,
    submodules: Vec<String>,
}

pub struct SidePanelView {
    pub branches: Seq<BranchStatusView>,
    pub remotes: Seq<Seq<char>>,
    pub tags: Seq<Seq<char>>,
    pub stashes: Seq<Seq<char>>,
    pub submodules: Seq<Seq<char>>,
}

impl View for SidePanel {
    type V = SidePanelView;

    closed spec fn view(&self) -> SidePanelView {
        SidePanelView {
            branches: branches_view(self.branches@),
            remotes: strings_view(self.remotes@),
            tags: strings_view(self.tags@),
            stashes: strings_view(self.stashes@),
            submodules: strings_view(self.submodules@),
        }
    }
}

impl SidePanel {
    /// A panel that lists nothing.
    pub fn new() -> (r: SidePanel)
        ensures
            r@.branches.len() == 0,
            r@.remotes.len() == 0,
            r@.tags.len() == 0,
            r@.stashes.len() == 0,
            r@.submodules.len() == 0,
    {
        SidePanel {
            branches: Vec::new(),
            remotes: Vec::new(),
            tags: Vec::new(),
            stashes: Vec::new(),
            submodules: Vec::new(),
        }
    }

    /// Lists the given branches in place of the former ones.
    pub fn load_branches(&mut self, branches: &Vec<BranchStatus>)
        ensures
            final(self)@ == (SidePanelView { branches: branches_view(branches@), ..old(self)@ }),
    {
        self.branches = copy_branches(branches);
    }

    /// Lists the given remotes in place of the former ones.
    pub fn load_remotes(&mut self, remotes: &Vec<String>)
        ensures
            final(self)@ == (SidePanelView { remotes: strings_view(remotes@), ..old(self)@ }),
    {
        self.remotes = copy_strings(remotes);
    }

    /// Lists the given tags in place of the former ones.
    pub fn load_tags(&mut self, tags: &Vec<String>)
        ensures
            final(self)@ == (SidePanelView { tags: strings_view(tags@), ..old(self)@ }),
    {
        self.tags = copy_strings(tags);
    }

    /// Lists the given stashes in place of the former ones.
    pub fn load_stashes(&mut self, stashes: &Vec<String>)
        ensures
            final(self)@ == (SidePanelView { stashes: strings_view(stashes@), ..old(self)@ }),
    {
        self.stashes = copy_strings(stashes);
    }

    /// Lists the given submodules in place of the former ones.
    pub fn load_submodules(&mut self, submodules: &Vec<String>)
        ensures
            final(self)@ == (SidePanelView { submodules: strings_view(submodules@), ..old(self)@ }),
    {
        self.submodules = copy_strings(submodules);
    }

    /// The tree the panel shows for a search text and the favourites.
    pub fn reload(&self, query: &str, stars: &StarSet) -> (r: Vec<TreeSection>)
        ensures
            sections_view(r@) == side_tree(
                query@,
                stars@,
                self@.branches,
                self@.remotes,
                self@.tags,
                self@.stashes,
                self@.submodules,
            ),
            query@.len() == 0 ==> sections_view(r@)[0].rows == all_starred_rows(stars@),
            query@.len() == 0 ==> sections_view(r@)[1].rows == all_branch_rows(self@.branches, stars@),
    {
        side_panel_tree(query, stars, &self.branches, &self.remotes, &self.tags, &self.stashes, &self.submodules)
    }
}

/// The name a double-clicked row stands for: for a branch, its label without
/// the distance that follows the name; for other rows, the label.
pub open spec fn activation_name_of(kind: Seq<char>, label: Seq<char>) -> Seq<char> {
    if kind == "branch"@ { before_first(label, " ("@) } else { label }
}

/// The name a double-clicked row of the given kind and label stands for.
pub fn activation_name(kind: &str, label: &str) -> (r: String)
    ensures
        r@ == activation_name_of(kind@, label@),
{
    if str_eq(kind, "branch") {
        split_first(label, " (")
    } else {
        String::from_str(label)
    }
}

proof fn lemma_label_split(name: Seq<char>, rest: Seq<char>, i: nat)
    requires
        i <= name.len(),
        !has_substring(name, " ("@),
        rest.len() >= 2,
        rest[0] == ' ',
        rest[1] == '(',
    ensures
        find_from(name + rest, " ("@, i) == name.len(),
    decreases name.len() - i,
{
    reveal_strlit(" (");
    let s = name + rest;
    if i == name.len() {
        assert(s.subrange(i as int, i + 2int) =~= " ("@);
    } else {
        if i + 2 <= name.len() {
            assert(s.subrange(i as int, i + 2int) =~= name.subrange(i as int, i + 2int));
        } else {
            assert(s.subrange(i as int, i + 2int)[1] == rest[0]);
        }
        lemma_label_split(name, rest, i + 1);
    }
}

/// Double-clicking a branch row names the branch that the row shows, for every
/// branch whose name does not hold " (".
pub proof fn law_branch_row_names_its_branch(b: BranchStatusView)
    requires
        !has_substring(b.name, " ("@),
    ensures
        activation_name_of("branch"@, branch_label(b)) == b.name,
{
    reveal_strlit(" (+");
    let rest = " (+"@ + decimal(b.ahead as nat) + ", -"@ + decimal(b.behind as nat) + ")"@;
    assert(branch_label(b) =~= b.name + rest);
    lemma_label_split(b.name, rest, 0);
    assert((b.name + rest).take(b.name.len() as int) =~= b.name);
}

/// What a double-click on a row asks the repository to do.
#[derive(Debug)]
pub enum CheckoutRequest {
    Branch(String),
    Tag(String),
}

/// A double-click on a branch checks it out, on a tag checks out its commit;
/// other rows ask nothing.
pub fn checkout_request(kind: &str, name: &str) -> (r: Option<CheckoutRequest>)
    ensures
        kind@ == "branch"@ ==> (r matches Some(CheckoutRequest::Branch(n)) && n@ == name@),
        kind@ == "tag"@ ==> (r matches Some(CheckoutRequest::Tag(n)) && n@ == name@),
        kind@ != "branch"@ && kind@ != "tag"@ ==> r is None,
{
    proof {
        reveal_strlit("branch");
        reveal_strlit("tag");
        assert("branch"@[0] != "tag"@[0]);
    }
    if str_eq(kind, "branch") {
        Some(CheckoutRequest::Branch(String::from_str(name)))
    } else if str_eq(kind, "tag") {
        Some(CheckoutRequest::Tag(String::from_str(name)))
    } else {
        None
    }
}

/// The favourite a row of the given kind stands for: branches and commits can
/// be starred, other rows cannot.
pub fn star_target(kind: &str, name: &str) -> (r: Option<StarredItem>)
    ensures
        kind@ == "branch"@ ==> (r matches Some(i) && i@ == StarredItemView::Branch(name@)),
        kind@ == "commit"@ ==> (r matches Some(i) && i@ == StarredItemView::Commit(name@)),
        kind@ != "branch"@ && kind@ != "commit"@ ==> r is None,
{
    proof {
        reveal_strlit("branch");
        reveal_strlit("commit");
        assert("branch"@[0] != "commit"@[0]);
    }
    if str_eq(kind, "branch") {
        Some(StarredItem::Branch(String::from_str(name)))
    } else if str_eq(kind, "commit") {
        Some(StarredItem::Commit(String::from_str(name)))
    } else {
        None
    }
}

/// The label of the menu entry that stars or unstars an item.
pub fn star_menu_label(already: bool) -> (r: &'static str)
    ensures
        already ==> r@ == "Retirer des favoris"@,
        !already ==> r@ == "Ajouter aux favoris"@,
{
    if already { "Retirer des favoris" } else { "Ajouter aux favoris" }
}

/// Whether a row is the row of a branch that matches the search text.
pub open spec fn row_of_branch(r: TreeRowView, b: BranchStatusView, stars: Seq<StarredItemView>, q: Seq<char>) -> bool {
    &&& has_substring(lowercase(b.name), q)
    &&& r.label == branch_label(b)
    &&& r.kind == "branch"@
    &&& r.star == (if stars.contains(StarredItemView::Branch(b.name)) { "★"@ } else { "☆"@ })
}

/// For each branch row, the position of the branch it stands for.
pub open spec fn branch_row_sources(bs: Seq<BranchStatusView>, q: Seq<char>) -> Seq<int>
    decreases bs.len(),
{
    if bs.len() == 0 {
        Seq::empty()
    } else {
        let rest = branch_row_sources(bs.drop_last(), q);
        if has_substring(lowercase(bs.last().name), q) { rest.push(bs.len() - 1) } else { rest }
    }
}

proof fn lemma_matching_branch_row(bs: Seq<BranchStatusView>, stars: Seq<StarredItemView>, q: Seq<char>, i: int)
    requires
        0 <= i < bs.len(),
        has_substring(lowercase(bs[i].name), q),
    ensures
        branch_rows(bs, stars, q).contains(row(branch_star(stars, bs[i].name), branch_label(bs[i]), "branch"@)),
    decreases bs.len(),
{
    let p = bs.drop_last();
    let r = row(branch_star(stars, bs[i].name), branch_label(bs[i]), "branch"@);
    if i < bs.len() - 1 {
        assert(p[i] == bs[i]);
        lemma_matching_branch_row(p, stars, q, i);
        let rest = branch_rows(p, stars, q);
        let w = choose|w: int| 0 <= w < rest.len() && rest[w] == r;
        if has_substring(lowercase(bs.last().name), q) {
            let star = if stars.contains(StarredItemView::Branch(bs.last().name)) { "★"@ } else { "☆"@ };
            assert(rest.push(row(star, branch_label(bs.last()), "branch"@))[w] == r);
        }
    } else {
        let star = if stars.contains(StarredItemView::Branch(bs.last().name)) { "★"@ } else { "☆"@ };
        let rest = branch_rows(p, stars, q);
        assert(rest.push(row(star, branch_label(bs.last()), "branch"@))[rest.len() as int] == r);
    }
}

/// Every branch whose lowered name holds the lowered search text anywhere is
/// listed in the branches section, with its distances and its star.
pub proof fn law_matching_branch_is_listed(
    query: Seq<char>,
    stars: Seq<StarredItemView>,
    bs: Seq<BranchStatusView>,
    remotes: Seq<Seq<char>>,
    tags: Seq<Seq<char>>,
    stashes: Seq<Seq<char>>,
    submodules: Seq<Seq<char>>,
    i: int,
)
    requires
        0 <= i < bs.len(),
        has_substring(lowercase(bs[i].name), lowercase(query)),
    ensures
        side_tree(query, stars, bs, remotes, tags, stashes, submodules)[1].rows.contains(
            row(branch_star(stars, bs[i].name), branch_label(bs[i]), "branch"@),
        ),
{
    lemma_matching_branch_row(bs, stars, lowercase(query), i);
}

/// The number of branches whose lowered name holds the search text.
pub open spec fn matching_branch_count(bs: Seq<BranchStatusView>, q: Seq<char>) -> nat
    decreases bs.len(),
{
    if bs.len() == 0 {
        0
    } else {
        matching_branch_count(bs.drop_last(), q) + if has_substring(lowercase(bs.last().name), q) { 1nat } else { 0nat }
    }
}

/// The branches section has one row per branch whose lowered name holds the
/// lowered search text, and no other.
pub proof fn law_branch_rows_count(bs: Seq<BranchStatusView>, stars: Seq<StarredItemView>, q: Seq<char>)
    ensures
        branch_rows(bs, stars, q).len() == matching_branch_count(bs, q),
    decreases bs.len(),
{
    if bs.len() > 0 {
        law_branch_rows_count(bs.drop_last(), stars, q);
    }
}

/// There are as many branch rows as positions of matching branches.
pub proof fn lemma_branch_sources_len(bs: Seq<BranchStatusView>, stars: Seq<StarredItemView>, q: Seq<char>)
    ensures
        branch_row_sources(bs, q).len() == branch_rows(bs, stars, q).len(),
    decreases bs.len(),
{
    if bs.len() > 0 {
        lemma_branch_sources_len(bs.drop_last(), stars, q);
    }
}

/// Each recorded position is the position of a branch of the list.
pub proof fn lemma_branch_source_bounded(bs: Seq<BranchStatusView>, q: Seq<char>, i: int)
    requires
        0 <= i < branch_row_sources(bs, q).len(),
    ensures
        0 <= branch_row_sources(bs, q)[i] < bs.len(),
    decreases bs.len(),
{
    if bs.len() > 0 {
        let p = bs.drop_last();
        if i < branch_row_sources(p, q).len() {
            lemma_branch_source_bounded(p, q, i);
        }
    }
}

/// Every branch row stands for a branch whose name matches the search text: its
/// label is the branch's name and distances, and it is starred exactly when the
/// branch is a favourite.
pub proof fn law_branch_row_matches_query(bs: Seq<BranchStatusView>, stars: Seq<StarredItemView>, q: Seq<char>, i: int)
    requires
        0 <= i < branch_rows(bs, stars, q).len(),
    ensures
        0 <= branch_row_sources(bs, q)[i] < bs.len(),
        row_of_branch(branch_rows(bs, stars, q)[i], bs[branch_row_sources(bs, q)[i]], stars, q),
    decreases bs.len(),
{
    lemma_branch_sources_len(bs, stars, q);
    let p = bs.drop_last();
    lemma_branch_sources_len(p, stars, q);
    if i < branch_rows(p, stars, q).len() {
        law_branch_row_matches_query(p, stars, q, i);
        let j = branch_row_sources(p, q)[i];
        assert(bs[j] == p[j]);
    }
}

/// The branch rows keep the order of the branches they stand for.
pub proof fn law_branch_rows_keep_order(bs: Seq<BranchStatusView>, q: Seq<char>, i: int, k: int)
    requires
        0 <= i < k < branch_row_sources(bs, q).len(),
    ensures
        branch_row_sources(bs, q)[i] < branch_row_sources(bs, q)[k],
    decreases bs.len(),
{
    let p = bs.drop_last();
    if k < branch_row_sources(p, q).len() {
        law_branch_rows_keep_order(p, q, i, k);
    } else {
        lemma_branch_source_bounded(p, q, i);
    }
}

} // verus!
