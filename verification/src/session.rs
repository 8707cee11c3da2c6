//! The open repositories: the tabs, the selected one, the repository shown, and
//! how many commits of each repository's history are loaded.
use vstd::prelude::*;
use crate::model::strings_view;

verus! {

/// How many commits the history loads at a time.
pub const PAGE_SIZE: usize = 100;

/// How many recently opened repositories the menu lists.
pub const RECENTS_LIMIT: usize = 10;

/// The first position at or after `i` that holds `p`, or -1.
pub open spec fn index_from(s: Seq<Seq<char>>, p: Seq<char>, i: nat) -> int
    decreases s.len() - i,
{
    if i >= s.len() {
        -1
    } else if s[i as int] == p {
        i as int
    } else {
        index_from(s, p, i + 1)
    }
}

/// The position of `p` in `s`, or -1 when it does not occur.
pub open spec fn index_of(s: Seq<Seq<char>>, p: Seq<char>) -> int {
    index_from(s, p, 0)
}

/// The keys of an association list.
pub open spec fn keys_of(l: Seq<(Seq<char>, usize)>) -> Seq<Seq<char>> {
    Seq::new(l.len(), |i: int| l[i].0)
}

/// The count recorded for a key, or zero.
pub open spec fn count_of(l: Seq<(Seq<char>, usize)>, k: Seq<char>) -> usize {
    let i = index_of(keys_of(l), k);
    if i >= 0 { l[i].1 } else { 0 }
}

/// The association list with `k` recorded as `v`.
pub open spec fn with_count(l: Seq<(Seq<char>, usize)>, k: Seq<char>, v: usize) -> Seq<(Seq<char>, usize)> {
    let i = index_of(keys_of(l), k);
    if i >= 0 { l.update(i, (k, v)) } else { l.push((k, v)) }
}

/// The association list without `k`.
pub open spec fn without_key(l: Seq<(Seq<char>, usize)>, k: Seq<char>) -> Seq<(Seq<char>, usize)> {
    let i = index_of(keys_of(l), k);
    if i >= 0 { l.remove(i) } else { l }
}

/// Whether no element occurs twice.
pub open spec fn distinct(s: Seq<Seq<char>>) -> bool {
    forall|i: int, j: int| 0 <= i < j < s.len() ==> s[i] != s[j]
}

pub struct SessionView {
    /// The repository shown.
    pub repo_path: Option<Seq<char>>,
    /// For each repository, how many commits of its history are loaded.
    pub loaded: Seq<(Seq<char>, usize)>,
    /// The repositories open in tabs, in tab order.
    pub repos: Seq<Seq<char>>,
    /// The selected tab.
    pub current_idx: Option<usize>,
}

impl SessionView {
    /// The session is well formed: no tab is open twice, no repository has two
    /// counts, and the selected tab exists and is the tab of the repository shown.
    pub open spec fn wf(self) -> bool {
        &&& distinct(self.repos)
        &&& distinct(keys_of(self.loaded))
        &&& self.current_idx matches Some(c) ==> c < self.repos.len() && self.repo_path == Some(self.repos[c as int])
    }

    /// The tabs after adding a repository that is not open yet, with its tab
    /// selected and its repository the one shown.
    pub open spec fn add_or_select(self, p: Seq<char>) -> SessionView {
        let repos = if index_of(self.repos, p) >= 0 { self.repos } else { self.repos.push(p) };
        SessionView { repos, current_idx: Some(index_of(repos, p) as usize), repo_path: Some(p), ..self }
    }

    /// The session after a repository was opened and shown, its history not yet loaded.
    pub open spec fn enter(self, p: Seq<char>) -> SessionView {
        let s = self.add_or_select(p);
        SessionView { repo_path: Some(p), loaded: with_count(s.loaded, p, 0), ..s }
    }

    /// The session after closing the tab of `p`, what is to be shown next, and
    /// whether the view must be reloaded.
    pub open spec fn close(self, p: Seq<char>) -> (SessionView, Option<Seq<char>>, bool) {
        let idx = index_of(self.repos, p);
        if idx < 0 {
            (self, self.repo_path, false)
        } else {
            let repos = self.repos.remove(idx);
            let loaded = without_key(self.loaded, p);
            match self.current_idx {
                Some(cur) => if cur == idx {
                    if repos.len() == 0 {
                        (SessionView { repos, loaded, current_idx: None, repo_path: None }, None, true)
                    } else {
                        let ni = if idx >= repos.len() { repos.len() - 1 } else { idx };
                        let np = repos[ni];
                        (SessionView { repos, loaded, current_idx: Some(ni as usize), repo_path: Some(np) }, Some(np), true)
                    }
                } else {
                    let ni = if cur > idx { cur - 1 } else { cur as int };
                    (SessionView { repos, loaded, current_idx: Some(ni as usize), ..self }, self.repo_path, false)
                },
                None => (SessionView { repos, loaded, ..self }, None, false),
            }
        }
    }
}

/// What to do when a repository is chosen for opening.
#[derive(Debug, Clone, Copy, PartialEq, Eq, Structural)]
pub enum OpenChoice {
    /// Open it in a tab of its own, or select its tab.
    AddOrSelect,
    /// Ask whether to replace the one open repository or to add a tab.
    AskReplaceOrAdd,
}

/// Opening from the new-tab button always adds; otherwise, with exactly one
/// repository open the user is asked.
pub fn open_choice(open_count: usize, force_add: bool) -> (r: OpenChoice)
    ensures
        r == (if !force_add && open_count == 1 { OpenChoice::AskReplaceOrAdd } else { OpenChoice::AddOrSelect }),
{
    if !force_add && open_count == 1 {
        OpenChoice::AskReplaceOrAdd
    } else {
        OpenChoice::AddOrSelect
    }
}

/// Whether a page of history of this size leaves more to load.
pub fn more_available(page_len: usize) -> (r: bool)
    ensures
        r == (page_len == PAGE_SIZE),
{
    page_len == PAGE_SIZE
}

/// What closing a tab asks of the view.
#[derive(Debug)]
pub struct CloseOutcome {
    /// The repository to show after the close.
    pub next: Option<String>,
    /// Whether the view must show `next` (or nothing, when it is `None`).
    pub reload: bool,
}

/// The open repositories of a window.
#[derive(Debug)]
pub struct Session {
    repo_path: Option<String>,
    loaded: Vec<(String, usize)>,
    repos: Vec<String>,
    current_idx: Option<usize>,
}

pub open spec fn pairs_view(v: Seq<(String, usize)>) -> Seq<(Seq<char>, usize)> {
    Seq::new(v.len(), |i: int| (v[i].0@, v[i].1))
}

impl View for Session {
    type V = SessionView;

    closed spec fn view(&self) -> SessionView {
        SessionView {
            repo_path: crate::model::opt_str_view(self.repo_path),
            loaded: pairs_view(self.loaded@),
            repos: strings_view(self.repos@),
            current_idx: self.current_idx,
        }
    }
}

fn position(v: &Vec<String>, p: &str) -> (r: Option<usize>)
    ensures
        r matches Some(i) ==> i as int == index_of(strings_view(v@), p@) && i < v@.len() && v@[i as int]@ == p@,
        r is None ==> index_of(strings_view(v@), p@) == -1,
{
    let ghost s = strings_view(v@);
    let ps = String::from_str(p);
    let mut i: usize = 0;
    while i < v.len()
        invariant
            i <= v.len(),
            s == strings_view(v@),
            ps@ == p@,
            index_from(s, p@, 0) == index_from(s, p@, i as nat),
        decreases v.len() - i,
    {
        assert(s[i as int] == v@[i as int]@);
        if v[i] == ps {
            return Some(i);
        }
        i = i + 1;
    }
    None
}

fn key_position(v: &Vec<(String, usize)>, p: &str) -> (r: Option<usize>)
    ensures
        r matches Some(i) ==> i as int == index_of(keys_of(pairs_view(v@)), p@) && i < v@.len() && v@[i as int].0@ == p@,
        r is None ==> index_of(keys_of(pairs_view(v@)), p@) == -1,
{
    let ghost s = keys_of(pairs_view(v@));
    let ps = String::from_str(p);
    let mut i: usize = 0;
    while i < v.len()
        invariant
            i <= v.len(),
            s == keys_of(pairs_view(v@)),
            ps@ == p@,
            index_from(s, p@, 0) == index_from(s, p@, i as nat),
        decreases v.len() - i,
    {
        assert(s[i as int] == v@[i as int].0@);
        if v[i].0 == ps {
            return Some(i);
        }
        i = i + 1;
    }
    None
}

/// What `index_from` finds.
pub proof fn lemma_index_from(s: Seq<Seq<char>>, p: Seq<char>, i: nat)
    requires
        i <= s.len(),
    ensures
        index_from(s, p, i) == -1 || (i <= index_from(s, p, i) < s.len() && s[index_from(s, p, i)] == p),
        index_from(s, p, i) == -1 ==> forall|j: int| i <= j < s.len() ==> s[j] != p,
        forall|j: int| i <= j < index_from(s, p, i) ==> s[j] != p,
    decreases s.len() - i,
{
    if i < s.len() && s[i as int] != p {
        lemma_index_from(s, p, i + 1);
    }
}

/// In a list without repetitions, the position of an element is where it stands.
pub proof fn lemma_index_distinct(s: Seq<Seq<char>>, i: int)
    requires
        distinct(s),
        0 <= i < s.len(),
    ensures
        index_of(s, s[i]) == i,
{
    lemma_index_from(s, s[i], 0);
}

proof fn lemma_push_distinct(s: Seq<Seq<char>>, p: Seq<char>)
    requires
        distinct(s),
        index_of(s, p) == -1,
    ensures
        distinct(s.push(p)),
        index_of(s.push(p), p) == s.len(),
{
    lemma_index_from(s, p, 0);
    lemma_index_from(s.push(p), p, 0);
    assert(s.push(p)[s.len() as int] == p);
}

proof fn lemma_remove_distinct(s: Seq<Seq<char>>, i: int)
    requires
        distinct(s),
        0 <= i < s.len(),
    ensures
        distinct(s.remove(i)),
        index_of(s.remove(i), s[i]) == -1,
{
    let r = s.remove(i);
    assert forall|a: int, b: int| 0 <= a < b < r.len() implies r[a] != r[b] by {
        let a2 = if a < i { a } else { a + 1 };
        let b2 = if b < i { b } else { b + 1 };
        assert(r[a] == s[a2]);
        assert(r[b] == s[b2]);
    }
    lemma_index_from(r, s[i], 0);
    if index_of(r, s[i]) != -1 {
        let k = index_of(r, s[i]);
        let k2 = if k < i { k } else { k + 1 };
        assert(r[k] == s[k2]);
    }
}

proof fn lemma_with_count(l: Seq<(Seq<char>, usize)>, k: Seq<char>, v: usize)
    requires
        distinct(keys_of(l)),
    ensures
        distinct(keys_of(with_count(l, k, v))),
        count_of(with_count(l, k, v), k) == v,
{
    let ks = keys_of(l);
    lemma_index_from(ks, k, 0);
    let r = with_count(l, k, v);
    if index_of(ks, k) >= 0 {
        assert(keys_of(r) =~= ks);
        lemma_index_distinct(ks, index_of(ks, k));
    } else {
        assert(keys_of(r) =~= ks.push(k));
        lemma_push_distinct(ks, k);
    }
}

proof fn lemma_without_key(l: Seq<(Seq<char>, usize)>, k: Seq<char>)
    requires
        distinct(keys_of(l)),
    ensures
        distinct(keys_of(without_key(l, k))),
        index_of(keys_of(without_key(l, k)), k) == -1,
{
    let ks = keys_of(l);
    lemma_index_from(ks, k, 0);
    let i = index_of(ks, k);
    if i >= 0 {
        assert(keys_of(l.remove(i)) =~= ks.remove(i));
        lemma_remove_distinct(ks, i);
    }
}

impl Session {
    /// A window with no repository open.
    pub fn new() -> (r: Session)
        ensures
            r@.wf(),
            r@.repos.len() == 0,
            r@.loaded.len() == 0,
            r@.repo_path is None,
            r@.current_idx is None,
    {
        let r = Session { repo_path: None, loaded: Vec::new(), repos: Vec::new(), current_idx: None };
        assert(r@.repos =~= Seq::<Seq<char>>::empty());
        assert(r@.loaded =~= Seq::<(Seq<char>, usize)>::empty());
        r
    }

    /// The repository shown.
    pub fn repo_path(&self) -> (r: Option<String>)
        ensures
            crate::model::opt_str_view(r) == self@.repo_path,
    {
        match &self.repo_path {
            Some(p) => Some(p.clone()),
            None => None,
        }
    }

    /// The repositories open in tabs.
    pub fn repos(&self) -> (r: Vec<String>)
        ensures
            strings_view(r@) == self@.repos,
    {
        crate::model::copy_strings(&self.repos)
    }

    /// The selected tab.
    pub fn current_index(&self) -> (r: Option<usize>)
        ensures
            r == self@.current_idx,
    {
        self.current_idx
    }

    /// How many commits of a repository's history are loaded.
    pub fn loaded_count(&self, path: &str) -> (r: usize)
        ensures
            r == count_of(self@.loaded, path@),
    {
        match key_position(&self.loaded, path) {
            Some(i) => self.loaded[i].1,
            None => 0,
        }
    }

    fn set_count(&mut self, path: &str, n: usize)
        ensures
            final(self)@ == (SessionView { loaded: with_count(old(self)@.loaded, path@, n), ..old(self)@ }),
    {
        let ghost before = self.loaded@;
        match key_position(&self.loaded, path) {
            Some(i) => {
                self.loaded.set(i, (String::from_str(path), n));
                assert(pairs_view(self.loaded@) =~= pairs_view(before).update(i as int, (path@, n)));
            },
            None => {
                self.loaded.push((String::from_str(path), n));
                assert(pairs_view(self.loaded@) =~= pairs_view(before).push((path@, n)));
            },
        }
    }

    /// Adds a tab for a repository unless one is open, and selects its tab.
    pub fn add_or_select(&mut self, path: &str)
        requires
            old(self)@.wf(),
        ensures
            final(self)@ == old(self)@.add_or_select(path@),
            final(self)@.wf(),
    {
        let ghost before = self.repos@;
        proof {
            lemma_index_from(self@.repos, path@, 0);
        }
        self.repo_path = Some(String::from_str(path));
        match position(&self.repos, path) {
            Some(i) => {
                self.current_idx = Some(i);
            },
            None => {
                self.repos.push(String::from_str(path));
                proof {
                    assert(strings_view(self.repos@) =~= strings_view(before).push(path@));
                    lemma_push_distinct(strings_view(before), path@);
                }
                self.current_idx = Some(self.repos.len() - 1);
            },
        }
    }

    /// Records that a repository was opened and is shown, with none of its
    /// history loaded yet.
    pub fn enter(&mut self, path: &str)
        requires
            old(self)@.wf(),
        ensures
            final(self)@ == old(self)@.enter(path@),
            final(self)@.wf(),
    {
        self.add_or_select(path);
        proof {
            lemma_with_count(self@.loaded, path@, 0);
        }
        self.set_count(path, 0);
    }

    /// Records how many commits of a repository's history are loaded.
    pub fn set_loaded(&mut self, path: &str, n: usize)
        requires
            old(self)@.wf(),
        ensures
            final(self)@ == (SessionView { loaded: with_count(old(self)@.loaded, path@, n), ..old(self)@ }),
            final(self)@.wf(),
            count_of(final(self)@.loaded, path@) == n,
    {
        proof {
            lemma_with_count(self@.loaded, path@, n);
        }
        self.set_count(path, n);
    }

    /// Where the next page of the shown repository's history starts.
    pub fn next_page(&self) -> (r: Option<(String, usize)>)
        ensures
            self@.repo_path is None ==> r is None,
            self@.repo_path matches Some(p) ==> (r matches Some((q, n)) && q@ == p && n == count_of(self@.loaded, p)),
    {
        match &self.repo_path {
            Some(p) => Some((p.clone(), self.loaded_count(p.as_str()))),
            None => None,
        }
    }

    /// Records that `n` more commits of a repository's history were loaded.
    pub fn add_loaded(&mut self, path: &str, n: usize)
        requires
            old(self)@.wf(),
            count_of(old(self)@.loaded, path@) + n <= usize::MAX,
        ensures
            final(self)@ == (SessionView {
                loaded: with_count(old(self)@.loaded, path@, (count_of(old(self)@.loaded, path@) + n) as usize),
                ..old(self)@
            }),
            final(self)@.wf(),
    {
        let c = self.loaded_count(path);
        self.set_loaded(path, c + n);
    }

    /// Shows a repository whose tab was clicked.
    pub fn select_tab(&mut self, path: &str)
        requires
            old(self)@.wf(),
        ensures
            final(self)@ == (SessionView {
                repo_path: Some(path@),
                current_idx: if index_of(old(self)@.repos, path@) >= 0 {
                    Some(index_of(old(self)@.repos, path@) as usize)
                } else {
                    None
                },
                ..old(self)@
            }),
            final(self)@.wf(),
    {
        proof {
            lemma_index_from(self@.repos, path@, 0);
        }
        self.repo_path = Some(String::from_str(path));
        self.current_idx = position(&self.repos, path);
    }

    /// Replaces all tabs by one for the given repository, selected.
    pub fn replace_all(&mut self, path: &str)
        requires
            old(self)@.wf(),
        ensures
            final(self)@ == (SessionView { repos: seq![path@], current_idx: Some(0), repo_path: Some(path@), ..old(self)@ }),
            final(self)@.wf(),
    {
        self.repo_path = Some(String::from_str(path));
        self.repos = Vec::new();
        self.repos.push(String::from_str(path));
        assert(strings_view(self.repos@) =~= seq![path@]);
        self.current_idx = Some(0);
    }

    /// Closes the tab of a repository.
    pub fn close_tab(&mut self, path: &str) -> (r: CloseOutcome)
        requires
            old(self)@.wf(),
        ensures
            (final(self)@, crate::model::opt_str_view(r.next), r.reload) == old(self)@.close(path@),
            final(self)@.wf(),
    {
        proof {
            lemma_index_from(self@.repos, path@, 0);
        }
        let idx = match position(&self.repos, path) {
            Some(i) => i,
            None => {
                return CloseOutcome { next: self.repo_path(), reload: false };
            },
        };
        let ghost before = self@;
        proof {
            lemma_remove_distinct(before.repos, idx as int);
            lemma_without_key(before.loaded, path@);
        }
        let ghost old_repos = self.repos@;
        self.repos.remove(idx);
        assert(strings_view(self.repos@) =~= before.repos.remove(idx as int));
        match key_position(&self.loaded, path) {
            Some(k) => {
                let ghost old_loaded = self.loaded@;
                self.loaded.remove(k);
                assert(pairs_view(self.loaded@) =~= pairs_view(old_loaded).remove(k as int));
            },
            None => {},
        }
        assert(self@.loaded == without_key(before.loaded, path@));
        match self.current_idx {
            Some(cur) => {
                if cur == idx {
                    if self.repos.len() == 0 {
                        self.current_idx = None;
                        self.repo_path = None;
                        CloseOutcome { next: None, reload: true }
                    } else {
                        let ni = if idx >= self.repos.len() { self.repos.len() - 1 } else { idx };
                        self.current_idx = Some(ni);
                        let np = self.repos[ni].clone();
                        self.repo_path = Some(np.clone());
                        CloseOutcome { next: Some(np), reload: true }
                    }
                } else {
                    let ni = if cur > idx { cur - 1 } else { cur };
                    proof {
                        let old_repos = before.repos;
                        if cur > idx {
                            assert(self@.repos[ni as int] == old_repos[cur as int]);
                        } else {
                            assert(self@.repos[ni as int] == old_repos[cur as int]);
                        }
                    }
                    self.current_idx = Some(ni);
                    CloseOutcome { next: self.repo_path(), reload: false }
                }
            },
            None => CloseOutcome { next: None, reload: false },
        }
    }
}


/// Opening a repository shows it, selects its tab, starts its history from
/// nothing, and never opens a second tab for a repository already open.
pub proof fn law_enter_shows_repo(s: SessionView, p: Seq<char>)
    requires
        s.wf(),
        s.repos.len() < usize::MAX,
    ensures
        ({
            let t = s.enter(p);
            &&& t.repo_path == Some(p)
            &&& t.current_idx matches Some(c) && c < t.repos.len() && t.repos[c as int] == p
            &&& count_of(t.loaded, p) == 0
            &&& index_of(s.repos, p) >= 0 ==> t.repos == s.repos
            &&& index_of(s.repos, p) < 0 ==> t.repos == s.repos.push(p)
            &&& t.enter(p).repos == t.repos
        }),
{
    lemma_index_from(s.repos, p, 0);
    let t = s.enter(p);
    if index_of(s.repos, p) < 0 {
        lemma_push_distinct(s.repos, p);
    }
    lemma_index_from(t.repos, p, 0);
    lemma_with_count(s.loaded, p, 0);
    let c = index_of(t.repos, p);
    assert(0 <= c < t.repos.len());
    assert((c as usize) as int == c);
}

/// Closing a repository's tab removes that tab and only it, keeping the order
/// of the others, and forgets how much of its history was loaded.
pub proof fn law_close_removes_tab(s: SessionView, p: Seq<char>)
    requires
        s.wf(),
        index_of(s.repos, p) >= 0,
    ensures
        ({
            let t = s.close(p).0;
            &&& t.repos == s.repos.remove(index_of(s.repos, p))
            &&& index_of(t.repos, p) == -1
            &&& count_of(t.loaded, p) == 0
        }),
{
    lemma_index_from(s.repos, p, 0);
    lemma_remove_distinct(s.repos, index_of(s.repos, p));
    lemma_without_key(s.loaded, p);
}

/// Closing the selected tab selects the tab now at its place (or the last one)
/// and shows its repository; closing the last tab shows nothing.
pub proof fn law_close_selected_tab(s: SessionView, p: Seq<char>)
    requires
        s.wf(),
        index_of(s.repos, p) >= 0,
        s.current_idx matches Some(c) && c as int == index_of(s.repos, p),
    ensures
        ({
            let (t, next, reload) = s.close(p);
            &&& reload
            &&& t.repo_path == next
            &&& t.repos.len() == 0 ==> next is None && t.current_idx is None
            &&& t.repos.len() > 0 ==> (t.current_idx matches Some(c) && next == Some(t.repos[c as int]))
        }),
{
    lemma_index_from(s.repos, p, 0);
    let idx = index_of(s.repos, p);
    let cur = s.current_idx->0;
    assert(cur as int == idx);
    let repos = s.repos.remove(idx);
    if repos.len() > 0 {
        let ni = if idx >= repos.len() { repos.len() - 1 } else { idx };
        assert(0 <= ni < repos.len());
        assert((ni as usize) as int == ni);
    }
}

/// Opening a repository that was not open and then closing its tab leaves the
/// tabs as they were.
pub proof fn law_enter_then_close(s: SessionView, p: Seq<char>)
    requires
        s.wf(),
        index_of(s.repos, p) < 0,
    ensures
        s.enter(p).close(p).0.repos == s.repos,
{
    lemma_index_from(s.repos, p, 0);
    lemma_push_distinct(s.repos, p);
    let t = s.enter(p);
    assert(t.repos == s.repos.push(p));
    assert(index_of(t.repos, p) == s.repos.len());
    assert(t.repos.remove(s.repos.len() as int) =~= s.repos);
}

/// Recording the loaded count of one repository leaves the others' counts as they were.
pub proof fn law_counts_independent(l: Seq<(Seq<char>, usize)>, k: Seq<char>, v: usize, other: Seq<char>)
    requires
        distinct(keys_of(l)),
        other != k,
    ensures
        count_of(with_count(l, k, v), other) == count_of(l, other),
        count_of(with_count(l, k, v), k) == v,
{
    lemma_with_count(l, k, v);
    let ks = keys_of(l);
    lemma_index_from(ks, k, 0);
    lemma_index_from(ks, other, 0);
    let r = with_count(l, k, v);
    lemma_index_from(keys_of(r), other, 0);
    if index_of(ks, k) >= 0 {
        assert(keys_of(r) =~= ks);
    } else {
        assert(keys_of(r) =~= ks.push(k));
        if index_of(ks, other) < 0 {
            assert(index_of(keys_of(r), other) == -1) by {
                if index_of(keys_of(r), other) >= 0 {
                    let j = index_of(keys_of(r), other);
                    if j < ks.len() {
                        assert(ks[j] == other);
                    }
                }
            }
        } else {
            let j = index_of(ks, other);
            assert(keys_of(r)[j] == other);
            assert(forall|m: int| 0 <= m < j ==> keys_of(r)[m] == ks[m]);
            lemma_push_distinct(ks, k);
            lemma_index_distinct(keys_of(r), j);
        }
    }
}

/// Closing a tab keeps the session well formed; closing a tab other than the
/// selected one keeps the shown repository and its tab selected and asks for
/// no reload.
pub proof fn law_close_keeps_selection(s: SessionView, p: Seq<char>)
    requires
        s.wf(),
    ensures
        s.close(p).0.wf(),
        index_of(s.repos, p) >= 0 && (s.current_idx matches Some(c) && c as int != index_of(s.repos, p)) ==> ({
            let (t, next, reload) = s.close(p);
            &&& !reload
            &&& next == s.repo_path
            &&& t.repo_path == s.repo_path
            &&& t.current_idx matches Some(d) && t.repos[d as int] == s.repos[s.current_idx->0 as int]
        }),
{
    lemma_index_from(s.repos, p, 0);
    let idx = index_of(s.repos, p);
    if idx >= 0 {
        lemma_remove_distinct(s.repos, idx);
        lemma_without_key(s.loaded, p);
        let repos = s.repos.remove(idx);
        match s.current_idx {
            Some(cur) => {
                if cur as int == idx {
                    if repos.len() > 0 {
                        let ni = if idx >= repos.len() { repos.len() - 1 } else { idx };
                        assert((ni as usize) as int == ni);
                    }
                } else {
                    let ni = if cur > idx { cur - 1 } else { cur as int };
                    assert((ni as usize) as int == ni);
                    assert(repos[ni] == s.repos[cur as int]);
                }
            },
            None => {},
        }
    }
}

/// The counts of a repository's history after its pages were added one after
/// another, as each "load more" adds the length of the page it read.
pub open spec fn after_pages(l: Seq<(Seq<char>, usize)>, p: Seq<char>, pages: Seq<usize>) -> Seq<(Seq<char>, usize)>
    decreases pages.len(),
{
    if pages.len() == 0 {
        l
    } else {
        let prev = after_pages(l, p, pages.drop_last());
        with_count(prev, p, (count_of(prev, p) + pages.last()) as usize)
    }
}

/// The sum of the lengths of the pages.
pub open spec fn total_of(pages: Seq<usize>) -> int
    decreases pages.len(),
{
    if pages.len() == 0 { 0 } else { total_of(pages.drop_last()) + pages.last() }
}

proof fn lemma_total_grows(pages: Seq<usize>)
    ensures
        pages.len() > 0 ==> total_of(pages.drop_last()) <= total_of(pages),
        total_of(pages) >= 0,
    decreases pages.len(),
{
    if pages.len() > 0 {
        lemma_total_grows(pages.drop_last());
    }
}

/// After a repository was opened (its count back to zero) and pages of its
/// history were loaded one after another, the count recorded for it is the sum
/// of the pages' lengths, and the other repositories' counts are unchanged.
pub proof fn law_pages_add_up(l: Seq<(Seq<char>, usize)>, p: Seq<char>, pages: Seq<usize>, other: Seq<char>)
    requires
        distinct(keys_of(l)),
        count_of(l, p) == 0,
        total_of(pages) <= usize::MAX,
        other != p,
    ensures
        distinct(keys_of(after_pages(l, p, pages))),
        count_of(after_pages(l, p, pages), p) == total_of(pages),
        count_of(after_pages(l, p, pages), other) == count_of(l, other),
    decreases pages.len(),
{
    if pages.len() > 0 {
        lemma_total_grows(pages);
        lemma_total_grows(pages.drop_last());
        law_pages_add_up(l, p, pages.drop_last(), other);
        let prev = after_pages(l, p, pages.drop_last());
        let v = (count_of(prev, p) + pages.last()) as usize;
        lemma_with_count(prev, p, v);
        law_counts_independent(prev, p, v, other);
    }
}

/// Closing the selected tab shows the tab to its right, which takes its place,
/// and only when the closed tab was the last one the tab to its left.
pub proof fn law_close_selected_picks_neighbour(s: SessionView, p: Seq<char>)
    requires
        s.wf(),
        index_of(s.repos, p) >= 0,
        s.current_idx matches Some(c) && c as int == index_of(s.repos, p),
        s.repos.len() >= 2,
    ensures
        ({
            let idx = index_of(s.repos, p);
            let (t, next, reload) = s.close(p);
            &&& reload
            &&& idx + 1 < s.repos.len() ==> t.current_idx == Some(idx as usize) && next == Some(s.repos[idx + 1])
            &&& idx + 1 == s.repos.len() ==> t.current_idx == Some((idx - 1) as usize) && next == Some(s.repos[idx - 1])
        }),
{
    lemma_index_from(s.repos, p, 0);
    let idx = index_of(s.repos, p);
    let repos = s.repos.remove(idx);
    if idx + 1 < s.repos.len() {
        assert(repos[idx] == s.repos[idx + 1]);
    } else {
        assert(repos[idx - 1] == s.repos[idx - 1]);
    }
}

} // verus!
