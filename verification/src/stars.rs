//! The favourites of a repository: a set of branches and commits, and what
//! changed between two versions of it.
use vstd::prelude::*;
use crate::model::{StarredItem, StarredItemView};

verus! {

/// The views of a list of items.
pub open spec fn items_view(v: Seq<StarredItem>) -> Seq<StarredItemView> {
    Seq::new(v.len(), |i: int| v[i]@)
}

/// Whether no item occurs twice.
pub open spec fn no_repeats(s: Seq<StarredItemView>) -> bool {
    forall|i: int, j: int| 0 <= i < j < s.len() ==> s[i] != s[j]
}

/// A set of favourites, kept in the order they were added.
#[derive(Debug)]
pub struct StarSet {
    items: Vec<StarredItem>,
}

impl View for StarSet {
    type V = Seq<StarredItemView>;

    closed spec fn view(&self) -> Seq<StarredItemView> {
        items_view(self.items@)
    }
}

fn position(items: &Vec<StarredItem>, item: &StarredItem) -> (r: Option<usize>)
    ensures
        r matches Some(i) ==> i < items@.len() && items@[i as int]@ == item@,
        r is None ==> !items_view(items@).contains(item@),
{
    let mut i: usize = 0;
    while i < items.len()
        invariant
            i <= items.len(),
            forall|j: int| 0 <= j < i ==> items@[j]@ != item@,
        decreases items.len() - i,
    {
        if items[i].same_as(item) {
            return Some(i);
        }
        i = i + 1;
    }
    proof {
        if items_view(items@).contains(item@) {
            let w = choose|w: int| 0 <= w < items_view(items@).len() && items_view(items@)[w] == item@;
            assert(items@[w]@ == item@);
        }
    }
    None
}

proof fn lemma_remove_keeps_others(s: Seq<StarredItemView>, i: int, x: StarredItemView)
    requires
        no_repeats(s),
        0 <= i < s.len(),
    ensures
        no_repeats(s.remove(i)),
        s.remove(i).contains(x) <==> (s.contains(x) && x != s[i]),
{
    let r = s.remove(i);
    assert forall|a: int, b: int| 0 <= a < b < r.len() implies r[a] != r[b] by {
        let a2 = if a < i { a } else { a + 1 };
        let b2 = if b < i { b } else { b + 1 };
        assert(r[a] == s[a2]);
        assert(r[b] == s[b2]);
    }
    if r.contains(x) {
        let w = choose|w: int| 0 <= w < r.len() && r[w] == x;
        let w2 = if w < i { w } else { w + 1 };
        assert(s[w2] == x);
    }
    if s.contains(x) && x != s[i] {
        let w = choose|w: int| 0 <= w < s.len() && s[w] == x;
        if w < i {
            assert(r[w] == x);
        } else {
            assert(r[w - 1] == x);
        }
    }
}

proof fn lemma_push_keeps_others(s: Seq<StarredItemView>, y: StarredItemView, x: StarredItemView)
    requires
        no_repeats(s),
        !s.contains(y),
    ensures
        no_repeats(s.push(y)),
        s.push(y).contains(x) <==> (s.contains(x) || x == y),
{
    let r = s.push(y);
    assert forall|a: int, b: int| 0 <= a < b < r.len() implies r[a] != r[b] by {
        if b == s.len() {
            assert(r[a] == s[a]);
            assert(s.contains(s[a]));
        }
    }
    if r.contains(x) {
        let w = choose|w: int| 0 <= w < r.len() && r[w] == x;
        if w < s.len() {
            assert(s[w] == x);
        }
    }
    if s.contains(x) {
        let w = choose|w: int| 0 <= w < s.len() && s[w] == x;
        assert(r[w] == x);
    }
    if x == y {
        assert(r[s.len() as int] == y);
    }
}

impl StarSet {
    /// No item occurs twice in a set.
    #[verifier::type_invariant]
    spec fn wf(&self) -> bool {
        no_repeats(self@)
    }

    /// An empty set.
    pub fn new() -> (r: StarSet)
        ensures
            r@.len() == 0,
    {
        let r = StarSet { items: Vec::new() };
        assert(r@ =~= Seq::<StarredItemView>::empty());
        r
    }

    /// Whether an item is a favourite.
    pub fn contains(&self, item: &StarredItem) -> (r: bool)
        ensures
            r == self@.contains(item@),
    {
        match position(&self.items, item) {
            Some(i) => {
                assert(self@[i as int] == item@);
                true
            },
            None => false,
        }
    }

    /// Makes an item a favourite; nothing changes when it already is one.
    pub fn insert(&mut self, item: StarredItem)
        ensures
            forall|x: StarredItemView| final(self)@.contains(x) <==> (old(self)@.contains(x) || x == item@),
            old(self)@.contains(item@) ==> final(self)@ == old(self)@,
            !old(self)@.contains(item@) ==> final(self)@ == old(self)@.push(item@),
    {
        proof {
            use_type_invariant(&*self);
        }
        if self.contains(&item) {
            return;
        }
        let ghost before = self@;
        let ghost iv = item@;
        let mut items: Vec<StarredItem> = Vec::new();
        std::mem::swap(&mut items, &mut self.items);
        items.push(item);
        assert(items_view(items@) =~= before.push(iv));
        proof {
            lemma_push_keeps_others(before, iv, iv);
        }
        self.items = items;
        assert(self@ =~= before.push(iv));
        assert forall|x: StarredItemView| self@.contains(x) <==> (before.contains(x) || x == iv) by {
            lemma_push_keeps_others(before, iv, x);
        }
        proof {
            lemma_push_keeps_others(before, iv, iv);
        }
    }

    /// Stops an item being a favourite; nothing changes when it is not one.
    pub fn remove(&mut self, item: &StarredItem)
        ensures
            forall|x: StarredItemView| final(self)@.contains(x) <==> (old(self)@.contains(x) && x != item@),
            !old(self)@.contains(item@) ==> final(self)@ == old(self)@,
    {
        proof {
            use_type_invariant(&*self);
        }
        match position(&self.items, item) {
            Some(i) => {
                let ghost before = self@;
                let mut items: Vec<StarredItem> = Vec::new();
                std::mem::swap(&mut items, &mut self.items);
                items.remove(i);
                assert(items_view(items@) =~= before.remove(i as int));
                proof {
                    lemma_remove_keeps_others(before, i as int, item@);
                }
                self.items = items;
                assert(self@ =~= before.remove(i as int));
                assert forall|x: StarredItemView| self@.contains(x) <==> (before.contains(x) && x != item@) by {
                    lemma_remove_keeps_others(before, i as int, x);
                }
                proof {
                    lemma_remove_keeps_others(before, i as int, item@);
                }
            },
            None => {},
        }
    }

    /// Adds an item that is not a favourite, removes one that is, and tells
    /// whether it is one afterwards.
    pub fn toggle(&mut self, item: StarredItem) -> (now: bool)
        ensures
            now == !old(self)@.contains(item@),
            forall|x: StarredItemView| x != item@ ==> (final(self)@.contains(x) <==> old(self)@.contains(x)),
            final(self)@.contains(item@) == now,
    {
        if self.contains(&item) {
            self.remove(&item);
            false
        } else {
            let ghost iv = item@;
            self.insert(item);
            assert(self@.contains(iv));
            true
        }
    }

    /// The favourites, in the order they were added.
    pub fn items(&self) -> (r: Vec<StarredItem>)
        ensures
            items_view(r@) == self@,
    {
        let mut r: Vec<StarredItem> = Vec::new();
        let mut i: usize = 0;
        while i < self.items.len()
            invariant
                i <= self.items.len(),
                r@.len() == i,
                forall|j: int| 0 <= j < i ==> r@[j]@ == self.items@[j]@,
            decreases self.items.len() - i,
        {
            r.push(self.items[i].duplicate());
            i = i + 1;
        }
        assert(items_view(r@) =~= items_view(self.items@));
        r
    }

    /// A set with the given items, each once.
    pub fn from_items(items: Vec<StarredItem>) -> (r: StarSet)
        ensures
            forall|x: StarredItemView| r@.contains(x) <==> items_view(items@).contains(x),
    {
        let mut r = StarSet::new();
        let mut i: usize = 0;
        while i < items.len()
            invariant
                i <= items.len(),
                forall|x: StarredItemView| r@.contains(x) <==> items_view(items@).take(i as int).contains(x),
            decreases items.len() - i,
        {
            let ghost t = items_view(items@).take(i + 1);
            assert(t =~= items_view(items@).take(i as int).push(items@[i as int]@));
            assert forall|x: StarredItemView| t.contains(x) <==> (items_view(items@).take(i as int).contains(x) || x == items@[i as int]@) by {
                if t.contains(x) {
                    let w = choose|w: int| 0 <= w < t.len() && t[w] == x;
                    if w < i {
                        assert(items_view(items@).take(i as int)[w] == x);
                    }
                }
                if items_view(items@).take(i as int).contains(x) {
                    let w = choose|w: int| 0 <= w < i && items_view(items@).take(i as int)[w] == x;
                    assert(t[w] == x);
                }
                if x == items@[i as int]@ {
                    assert(t[i as int] == x);
                }
            }
            r.insert(items[i].duplicate());
            i = i + 1;
        }
        assert(items_view(items@).take(items.len() as int) =~= items_view(items@));
        r
    }
}

/// What changed between two versions of the favourites.
#[derive(Debug)]
pub struct StarChanges {
    /// The items that became favourites.
    pub added: Vec<StarredItem>,
    /// The items that stopped being favourites.
    pub removed: Vec<StarredItem>,
}

/// The items of `s` that are not in `b`, in order.
pub open spec fn missing_from(s: Seq<StarredItemView>, b: Seq<StarredItemView>) -> Seq<StarredItemView>
    decreases s.len(),
{
    if s.len() == 0 {
        Seq::empty()
    } else {
        let rest = missing_from(s.drop_last(), b);
        if b.contains(s.last()) { rest } else { rest.push(s.last()) }
    }
}

proof fn lemma_missing_from(s: Seq<StarredItemView>, b: Seq<StarredItemView>, x: StarredItemView)
    ensures
        missing_from(s, b).contains(x) <==> (s.contains(x) && !b.contains(x)),
    decreases s.len(),
{
    if s.len() > 0 {
        let p = s.drop_last();
        lemma_missing_from(p, b, x);
        let rest = missing_from(p, b);
        if s.contains(x) && x != s.last() {
            let w = choose|w: int| 0 <= w < s.len() && s[w] == x;
            assert(p[w] == x);
        }
        if p.contains(x) {
            let w = choose|w: int| 0 <= w < p.len() && p[w] == x;
            assert(s[w] == x);
        }
        if x == s.last() {
            assert(s[s.len() - 1] == x);
        }
        if !b.contains(s.last()) {
            if rest.push(s.last()).contains(x) {
                let w = choose|w: int| 0 <= w < rest.len() + 1 && rest.push(s.last())[w] == x;
                if w < rest.len() {
                    assert(rest[w] == x);
                }
            }
            if rest.contains(x) {
                let w = choose|w: int| 0 <= w < rest.len() && rest[w] == x;
                assert(rest.push(s.last())[w] == x);
            }
            if x == s.last() {
                assert(rest.push(s.last())[rest.len() as int] == x);
            }
        }
    }
}

fn only_in(a: &StarSet, b: &StarSet) -> (r: Vec<StarredItem>)
    ensures
        items_view(r@) == missing_from(a@, b@),
        forall|x: StarredItemView| items_view(r@).contains(x) <==> (a@.contains(x) && !b@.contains(x)),
{
    let items = a.items();
    let mut r: Vec<StarredItem> = Vec::new();
    let mut i: usize = 0;
    assert(items_view(r@) =~= Seq::<StarredItemView>::empty());
    while i < items.len()
        invariant
            i <= items.len(),
            items_view(items@) == a@,
            items_view(r@) == missing_from(items_view(items@).take(i as int), b@),
        decreases items.len() - i,
    {
        let ghost t = items_view(items@).take(i + 1);
        let ghost before = items_view(r@);
        assert(t.drop_last() =~= items_view(items@).take(i as int));
        assert(t.last() == items@[i as int]@);
        if !b.contains(&items[i]) {
            r.push(items[i].duplicate());
            assert(items_view(r@) =~= before.push(items@[i as int]@));
        }
        i = i + 1;
    }
    assert(items_view(items@).take(items.len() as int) =~= items_view(items@));
    assert forall|x: StarredItemView| items_view(r@).contains(x) <==> (a@.contains(x) && !b@.contains(x)) by {
        lemma_missing_from(a@, b@, x);
    }
    r
}

/// The items added to and removed from the favourites between two versions.
pub fn star_changes(prev: &StarSet, next: &StarSet) -> (r: StarChanges)
    ensures
        items_view(r.added@) == missing_from(next@, prev@),
        items_view(r.removed@) == missing_from(prev@, next@),
        forall|x: StarredItemView| items_view(r.added@).contains(x) <==> (next@.contains(x) && !prev@.contains(x)),
        forall|x: StarredItemView| items_view(r.removed@).contains(x) <==> (prev@.contains(x) && !next@.contains(x)),
{
    StarChanges { added: only_in(next, prev), removed: only_in(prev, next) }
}

/// Applying the changes between two versions of the favourites to the first
/// gives the second: an item is a favourite afterwards exactly when it was one
/// and was not removed, or was added.
pub proof fn law_changes_replay(prev: Seq<StarredItemView>, next: Seq<StarredItemView>, added: Seq<StarredItemView>, removed: Seq<StarredItemView>)
    requires
        forall|x: StarredItemView| added.contains(x) <==> (next.contains(x) && !prev.contains(x)),
        forall|x: StarredItemView| removed.contains(x) <==> (prev.contains(x) && !next.contains(x)),
    ensures
        forall|x: StarredItemView| ((prev.contains(x) && !removed.contains(x)) || added.contains(x)) <==> next.contains(x),
        forall|x: StarredItemView| !(added.contains(x) && removed.contains(x)),
{
}

/// Storing the changes between two versions of the favourites: the first
/// version with the added items inserted and the removed items taken out holds
/// exactly the items of the second.
pub proof fn law_changes_store_next(prev: Seq<StarredItemView>, next: Seq<StarredItemView>)
    ensures
        prev.to_set().union(missing_from(next, prev).to_set()).difference(missing_from(prev, next).to_set())
            == next.to_set(),
{
    assert forall|x: StarredItemView| #![trigger next.to_set().contains(x)]
        prev.to_set().union(missing_from(next, prev).to_set()).difference(missing_from(prev, next).to_set()).contains(x)
            <==> next.to_set().contains(x) by {
        lemma_missing_from(next, prev, x);
        lemma_missing_from(prev, next, x);
    }
    assert(prev.to_set().union(missing_from(next, prev).to_set()).difference(missing_from(prev, next).to_set())
        =~= next.to_set());
}

/// Toggling an item twice leaves every item's membership as it was.
pub proof fn law_toggle_twice(s: Seq<StarredItemView>, item: StarredItemView, once: Seq<StarredItemView>, twice: Seq<StarredItemView>)
    requires
        once.contains(item) == !s.contains(item),
        forall|x: StarredItemView| x != item ==> (once.contains(x) <==> s.contains(x)),
        twice.contains(item) == !once.contains(item),
        forall|x: StarredItemView| x != item ==> (twice.contains(x) <==> once.contains(x)),
    ensures
        forall|x: StarredItemView| twice.contains(x) <==> s.contains(x),
{
}

} // verus!
