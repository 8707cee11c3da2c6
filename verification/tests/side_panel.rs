use librefork::model::{BranchStatus, StarredItem};
use librefork::sidebar::{
    activation_name, branch_row_label, checkout_request, side_panel_tree, star_menu_label,
    star_target, CheckoutRequest, SidePanel, TreeSection,
};
use librefork::stars::{star_changes, StarSet};

fn names(v: &[&str]) -> Vec<String> {
    v.iter().map(|s| s.to_string()).collect()
}

fn rows(section: &TreeSection) -> Vec<(String, String, String)> {
    section.rows.iter().map(|r| (r.star.clone(), r.label.clone(), r.kind.clone())).collect()
}

fn row(star: &str, label: &str, kind: &str) -> (String, String, String) {
    (star.to_string(), label.to_string(), kind.to_string())
}

#[test]
fn tree_lists_every_section_in_order() {
    let mut stars = StarSet::new();
    stars.insert(StarredItem::Branch("main".to_string()));
    stars.insert(StarredItem::Commit("0123456789abcdef".to_string()));
    let branches = vec![
        BranchStatus { name: "main".to_string(), ahead: 1, behind: 2 },
        BranchStatus { name: "feature/x".to_string(), ahead: 0, behind: 0 },
    ];
    let tree = side_panel_tree(
        "",
        &stars,
        &branches,
        &names(&["origin"]),
        &names(&["refs/tags/v1"]),
        &names(&["stash@{0}"]),
        &names(&["vendor/lib"]),
    );
    let titles: Vec<&str> = tree.iter().map(|s| s.title.as_str()).collect();
    assert_eq!(titles, vec!["Starred", "Branches", "Remotes", "Tags", "Stashes", "Submodules"]);
    assert_eq!(rows(&tree[0]), vec![row("★", "main", "branch"), row("★", "0123456", "commit")]);
    assert_eq!(
        rows(&tree[1]),
        vec![row("★", "main (+1, -2)", "branch"), row("☆", "feature/x (+0, -0)", "branch")]
    );
    assert_eq!(rows(&tree[2]), vec![row("", "origin", "remote")]);
    assert_eq!(rows(&tree[3]), vec![row("", "refs/tags/v1", "tag")]);
    assert_eq!(rows(&tree[4]), vec![row("", "stash@{0}", "stash")]);
    assert_eq!(rows(&tree[5]), vec![row("", "vendor/lib", "submodule")]);
}

#[test]
fn search_filters_favourites_and_branches_only() {
    let mut stars = StarSet::new();
    stars.insert(StarredItem::Branch("Main".to_string()));
    stars.insert(StarredItem::Commit("ABCDEF0123".to_string()));
    let branches = vec![
        BranchStatus { name: "Main".to_string(), ahead: 0, behind: 0 },
        BranchStatus { name: "dev".to_string(), ahead: 0, behind: 0 },
    ];
    let tree = side_panel_tree("MAI", &stars, &branches, &names(&["origin"]), &names(&[]), &names(&[]), &names(&[]));
    assert_eq!(rows(&tree[0]), vec![row("★", "Main", "branch")]);
    assert_eq!(rows(&tree[1]), vec![row("★", "Main (+0, -0)", "branch")]);
    assert_eq!(rows(&tree[2]), vec![row("", "origin", "remote")]);
    let tree = side_panel_tree("cdef", &stars, &branches, &names(&[]), &names(&[]), &names(&[]), &names(&[]));
    assert_eq!(rows(&tree[0]), vec![row("★", "ABCDEF0", "commit")]);
    assert!(rows(&tree[1]).is_empty());
}

#[test]
fn panel_reloads_what_it_was_given() {
    let mut panel = SidePanel::new();
    let stars = StarSet::new();
    panel.load_branches(&vec![BranchStatus { name: "main".to_string(), ahead: 3, behind: 0 }]);
    panel.load_remotes(&names(&["origin", "fork"]));
    panel.load_tags(&names(&["v1"]));
    let tree = panel.reload("", &stars);
    assert_eq!(rows(&tree[1]), vec![row("☆", "main (+3, -0)", "branch")]);
    assert_eq!(rows(&tree[2]).len(), 2);
    assert_eq!(rows(&tree[3]), vec![row("", "v1", "tag")]);
    assert!(rows(&tree[4]).is_empty());
    panel.load_remotes(&names(&[]));
    let tree = panel.reload("", &stars);
    assert!(rows(&tree[2]).is_empty());
    assert_eq!(rows(&tree[1]).len(), 1);
    panel.load_stashes(&names(&["WIP"]));
    panel.load_submodules(&names(&["sub"]));
    let tree = panel.reload("zzz", &stars);
    assert!(rows(&tree[1]).is_empty());
    assert_eq!(rows(&tree[4]), vec![row("", "WIP", "stash")]);
    assert_eq!(rows(&tree[5]), vec![row("", "sub", "submodule")]);
}

#[test]
fn branch_labels_show_the_distance() {
    let b = BranchStatus { name: "topic".to_string(), ahead: 12, behind: 0 };
    assert_eq!(branch_row_label(&b), "topic (+12, -0)");
}

#[test]
fn double_click_names() {
    assert_eq!(activation_name("branch", "main (+1, -2)"), "main");
    assert_eq!(activation_name("branch", "odd (name) (+0, -0)"), "odd");
    assert_eq!(activation_name("tag", "v1 (x)"), "v1 (x)");
    assert_eq!(activation_name("branch", "plain"), "plain");
}

#[test]
fn double_click_requests() {
    assert!(matches!(checkout_request("branch", "main"), Some(CheckoutRequest::Branch(n)) if n == "main"));
    assert!(matches!(checkout_request("tag", "v1"), Some(CheckoutRequest::Tag(n)) if n == "v1"));
    assert!(checkout_request("remote", "origin").is_none());
    assert!(checkout_request("commit", "abc").is_none());
}

#[test]
fn starring_rows() {
    assert_eq!(star_target("branch", "main"), Some(StarredItem::Branch("main".to_string())));
    assert_eq!(star_target("commit", "abc"), Some(StarredItem::Commit("abc".to_string())));
    assert_eq!(star_target("tag", "v1"), None);
    assert_eq!(star_menu_label(true), "Retirer des favoris");
    assert_eq!(star_menu_label(false), "Ajouter aux favoris");
}

#[test]
fn star_set_keeps_each_item_once() {
    let mut s = StarSet::new();
    let main = StarredItem::Branch("main".to_string());
    s.insert(main.clone());
    s.insert(main.clone());
    assert_eq!(s.items().len(), 1);
    assert!(s.contains(&main));
    assert!(!s.contains(&StarredItem::Commit("main".to_string())));
    s.remove(&main);
    assert!(!s.contains(&main));
    assert!(s.items().is_empty());
    let from = StarSet::from_items(vec![main.clone(), main.clone(), StarredItem::Commit("c".to_string())]);
    assert_eq!(from.items().len(), 2);
}

#[test]
fn toggling_twice_restores_the_set() {
    let mut s = StarSet::new();
    let a = StarredItem::Commit("a".to_string());
    s.insert(StarredItem::Branch("b".to_string()));
    assert!(s.toggle(a.clone()));
    assert!(s.contains(&a));
    assert!(!s.toggle(a.clone()));
    assert!(!s.contains(&a));
    assert_eq!(s.items(), vec![StarredItem::Branch("b".to_string())]);
}

#[test]
fn changes_between_two_sets_replay() {
    let prev = StarSet::from_items(vec![
        StarredItem::Branch("main".to_string()),
        StarredItem::Commit("c1".to_string()),
    ]);
    let next = StarSet::from_items(vec![
        StarredItem::Commit("c1".to_string()),
        StarredItem::Branch("dev".to_string()),
    ]);
    let ch = star_changes(&prev, &next);
    assert_eq!(ch.added, vec![StarredItem::Branch("dev".to_string())]);
    assert_eq!(ch.removed, vec![StarredItem::Branch("main".to_string())]);
    let mut replay = StarSet::from_items(prev.items());
    for r in &ch.removed {
        replay.remove(r);
    }
    for a in &ch.added {
        replay.insert(a.clone());
    }
    for item in next.items() {
        assert!(replay.contains(&item));
    }
    assert_eq!(replay.items().len(), next.items().len());
}

#[test]
fn empty_search_lists_every_favourite_and_branch() {
    let mut stars = StarSet::new();
    stars.insert(StarredItem::Commit("ABCDEF0123".to_string()));
    stars.insert(StarredItem::Branch("Ünïcode".to_string()));
    let branches = vec![
        BranchStatus { name: "ÉTÉ".to_string(), ahead: 0, behind: 4 },
        BranchStatus { name: "Ünïcode".to_string(), ahead: 1, behind: 0 },
    ];
    let tree = side_panel_tree("", &stars, &branches, &names(&[]), &names(&[]), &names(&[]), &names(&[]));
    assert_eq!(rows(&tree[0]), vec![row("★", "ABCDEF0", "commit"), row("★", "Ünïcode", "branch")]);
    assert_eq!(
        rows(&tree[1]),
        vec![row("☆", "ÉTÉ (+0, -4)", "branch"), row("★", "Ünïcode (+1, -0)", "branch")]
    );
}

#[test]
fn stored_changes_give_the_new_favourites() {
    let prev = StarSet::from_items(vec![
        StarredItem::Branch("a".to_string()),
        StarredItem::Branch("b".to_string()),
    ]);
    let next = StarSet::from_items(vec![
        StarredItem::Branch("b".to_string()),
        StarredItem::Commit("c".to_string()),
    ]);
    let ch = star_changes(&prev, &next);
    let mut store: Vec<StarredItem> = prev.items();
    for a in &ch.added {
        if !store.contains(a) {
            store.push(a.clone());
        }
    }
    store.retain(|x| !ch.removed.contains(x));
    assert_eq!(store.len(), 2);
    for item in next.items() {
        assert!(store.contains(&item));
    }
}
