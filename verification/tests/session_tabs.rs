use librefork::model::BranchStatus;
use librefork::session::{more_available, open_choice, OpenChoice, Session, PAGE_SIZE, RECENTS_LIMIT};
use librefork::status::{
    activity_after, closed_status, idle_status, repo_argument, repo_label, status_bar, theme_menu_label,
    window_title, OperationEvent,
};

#[test]
fn entering_repositories_opens_one_tab_each() {
    let mut s = Session::new();
    assert_eq!(s.repo_path(), None);
    assert_eq!(s.current_index(), None);
    s.enter("/r/a");
    s.enter("/r/b");
    s.enter("/r/a");
    assert_eq!(s.repos(), vec!["/r/a".to_string(), "/r/b".to_string()]);
    assert_eq!(s.current_index(), Some(0));
    assert_eq!(s.repo_path(), Some("/r/a".to_string()));
    assert_eq!(s.loaded_count("/r/a"), 0);
}

#[test]
fn pages_of_history_are_counted_per_repository() {
    let mut s = Session::new();
    s.enter("/r/a");
    s.set_loaded("/r/a", PAGE_SIZE);
    s.add_loaded("/r/a", 40);
    assert_eq!(s.loaded_count("/r/a"), 140);
    assert_eq!(s.loaded_count("/r/b"), 0);
    assert_eq!(s.next_page(), Some(("/r/a".to_string(), 140)));
    s.enter("/r/b");
    assert_eq!(s.loaded_count("/r/a"), 140);
    assert_eq!(s.next_page(), Some(("/r/b".to_string(), 0)));
    s.enter("/r/a");
    assert_eq!(s.loaded_count("/r/a"), 0);
    assert_eq!(Session::new().next_page(), None);
}

#[test]
fn closing_the_selected_tab_shows_its_neighbour() {
    let mut s = Session::new();
    s.enter("/r/a");
    s.enter("/r/b");
    s.enter("/r/c");
    s.select_tab("/r/b");
    let out = s.close_tab("/r/b");
    assert_eq!(out.next, Some("/r/c".to_string()));
    assert!(out.reload);
    assert_eq!(s.repos(), vec!["/r/a".to_string(), "/r/c".to_string()]);
    assert_eq!(s.current_index(), Some(1));
    assert_eq!(s.repo_path(), Some("/r/c".to_string()));
    let out = s.close_tab("/r/c");
    assert_eq!(out.next, Some("/r/a".to_string()));
    assert_eq!(s.current_index(), Some(0));
    let out = s.close_tab("/r/a");
    assert_eq!(out.next, None);
    assert!(out.reload);
    assert!(s.repos().is_empty());
    assert_eq!(s.current_index(), None);
    assert_eq!(s.repo_path(), None);
}

#[test]
fn closing_another_tab_keeps_the_view() {
    let mut s = Session::new();
    s.enter("/r/a");
    s.enter("/r/b");
    s.enter("/r/c");
    let out = s.close_tab("/r/a");
    assert!(!out.reload);
    assert_eq!(out.next, Some("/r/c".to_string()));
    assert_eq!(s.repo_path(), Some("/r/c".to_string()));
    assert_eq!(s.current_index(), Some(1));
    let out = s.close_tab("/r/zzz");
    assert!(!out.reload);
    assert_eq!(s.repos().len(), 2);
}

#[test]
fn closing_forgets_the_loaded_count() {
    let mut s = Session::new();
    s.enter("/r/a");
    s.set_loaded("/r/a", 7);
    s.enter("/r/b");
    s.close_tab("/r/a");
    assert_eq!(s.loaded_count("/r/a"), 0);
}

#[test]
fn replacing_keeps_one_tab() {
    let mut s = Session::new();
    s.enter("/r/a");
    s.enter("/r/b");
    s.replace_all("/r/c");
    assert_eq!(s.repos(), vec!["/r/c".to_string()]);
    assert_eq!(s.current_index(), Some(0));
    assert_eq!(s.repo_path(), Some("/r/c".to_string()));
}

#[test]
fn adding_selects_an_open_tab() {
    let mut s = Session::new();
    s.add_or_select("/r/a");
    s.add_or_select("/r/b");
    assert_eq!(s.current_index(), Some(1));
    s.add_or_select("/r/a");
    assert_eq!(s.current_index(), Some(0));
    assert_eq!(s.repos().len(), 2);
    assert_eq!(s.repo_path(), Some("/r/a".to_string()));
}

#[test]
fn opening_asks_only_with_one_repository_open() {
    assert_eq!(open_choice(1, false), OpenChoice::AskReplaceOrAdd);
    assert_eq!(open_choice(1, true), OpenChoice::AddOrSelect);
    assert_eq!(open_choice(0, false), OpenChoice::AddOrSelect);
    assert_eq!(open_choice(2, false), OpenChoice::AddOrSelect);
}

#[test]
fn a_full_page_leaves_more_to_load() {
    assert_eq!(PAGE_SIZE, 100);
    assert_eq!(RECENTS_LIMIT, 10);
    assert!(more_available(100));
    assert!(!more_available(99));
    assert!(!more_available(0));
}

#[test]
fn labels_of_repositories() {
    assert_eq!(repo_label("/home/me/my_repo"), "my__repo");
    assert_eq!(repo_label("/home/me/project/"), "project");
    assert_eq!(repo_label("relative"), "relative");
    assert_eq!(repo_label("/"), "/");
    assert_eq!(repo_label("a/.."), "a/..");
}

#[test]
fn window_titles() {
    assert_eq!(window_title("main"), "LibreFork - main");
}

#[test]
fn status_bar_for_a_branch_with_upstream() {
    let branches = vec![
        BranchStatus { name: "dev".to_string(), ahead: 1, behind: 0 },
        BranchStatus { name: "main".to_string(), ahead: 2, behind: 3 },
        BranchStatus { name: "main".to_string(), ahead: 9, behind: 9 },
    ];
    let s = status_bar(Some("main"), Some(&branches));
    assert_eq!(s.branch_text, "⎇ main —");
    let b = s.sync.unwrap();
    assert_eq!(b.label, "🗘 3↓ 2↑");
    assert!(b.enabled);
    assert_eq!(b.tooltip, "Pull 3 et push 2 vers main");
}

#[test]
fn status_bar_leaves_the_button_for_an_unknown_branch() {
    let branches = vec![BranchStatus { name: "dev".to_string(), ahead: 1, behind: 0 }];
    let s = status_bar(Some("abc123"), Some(&branches));
    assert_eq!(s.branch_text, "⎇ abc123 —");
    assert!(s.sync.is_none());
    assert!(status_bar(Some("dev"), None).sync.is_none());
}

#[test]
fn status_bar_without_a_branch() {
    let s = status_bar(None, None);
    assert_eq!(s.branch_text, "Aucun dépôt ouvert");
    let b = s.sync.unwrap();
    assert_eq!(b.label, "🗘 0↓ 0↑");
    assert!(!b.enabled);
    assert_eq!(b.tooltip, "Aucun dépôt ouvert");
    let i = idle_status();
    assert_eq!(i.branch_text, "Aucun dépôt ouvert");
    let c = closed_status();
    assert_eq!(c.branch_text, "Aucun dépôt ouvert");
    assert_eq!(c.sync.unwrap().tooltip, "No repository open");
}

#[test]
fn activity_line_follows_an_operation() {
    let a = activity_after("Fetch", &OperationEvent::Started);
    assert_eq!((a.text.as_str(), a.spinning, a.reload), ("Fetch en cours…", true, false));
    let a = activity_after("Fetch", &OperationEvent::Succeeded);
    assert_eq!((a.text.as_str(), a.spinning, a.reload), ("Prêt", false, true));
    let a = activity_after("Pull", &OperationEvent::Failed("no remote".to_string()));
    assert_eq!((a.text.as_str(), a.spinning, a.reload), ("Pull: no remote", false, true));
    let a = activity_after("Stash", &OperationEvent::ChannelClosed);
    assert_eq!((a.text.as_str(), a.spinning, a.reload), ("Stash: channel fermé", false, false));
}

fn args(v: &[&str]) -> Vec<String> {
    v.iter().map(|s| s.to_string()).collect()
}

#[test]
fn repository_named_on_the_command_line() {
    assert_eq!(repo_argument(&args(&["librefork", "--repo", "/x/y"])), Some("/x/y".to_string()));
    assert_eq!(repo_argument(&args(&["librefork", "--repo"])), None);
    assert_eq!(repo_argument(&args(&["librefork", "/x/y"])), None);
    assert_eq!(repo_argument(&args(&["--repo", "--repo", "z"])), Some("--repo".to_string()));
    assert_eq!(repo_argument(&args(&[])), None);
}

#[test]
fn theme_entry_offers_the_other_theme() {
    assert_eq!(theme_menu_label(true), "Switch to light theme");
    assert_eq!(theme_menu_label(false), "Switch to dark theme");
}

#[test]
fn closing_a_tab_left_of_the_selected_one_keeps_the_selection() {
    let mut s = Session::new();
    s.enter("/r/a");
    s.enter("/r/b");
    s.enter("/r/c");
    s.select_tab("/r/b");
    let out = s.close_tab("/r/a");
    assert!(!out.reload);
    assert_eq!(out.next, Some("/r/b".to_string()));
    assert_eq!(s.repos(), vec!["/r/b".to_string(), "/r/c".to_string()]);
    assert_eq!(s.current_index(), Some(0));
    assert_eq!(s.repo_path(), Some("/r/b".to_string()));
    let out = s.close_tab("/r/c");
    assert!(!out.reload);
    assert_eq!(s.current_index(), Some(0));
    assert_eq!(s.repo_path(), Some("/r/b".to_string()));
}

#[test]
fn pages_of_history_add_up() {
    let mut s = Session::new();
    s.enter("/r/a");
    s.set_loaded("/r/a", 100);
    s.add_loaded("/r/a", 100);
    s.add_loaded("/r/a", 37);
    assert_eq!(s.loaded_count("/r/a"), 237);
    assert!(!more_available(37));
}
