use librefork::graph::compute_graph;
use librefork::history::{
    action_label, action_plan, commit_matches_query, commit_menu, commit_row_menu, commit_star, date_label,
    copy_summary_text, filter_commits, lane_color_index, patch_file_name, summary_warns, ActionPlan,
    CommitList, MenuEntry,
};
use librefork::model::{CommitContextAction, CommitInfo, StarredItem};
use librefork::stars::StarSet;

fn commit(oid: &str, summary: &str, author: &str, parents: &[&str]) -> CommitInfo {
    CommitInfo {
        oid: oid.to_string(),
        short_id: oid.chars().take(7).collect(),
        summary: summary.to_string(),
        author: author.to_string(),
        email: String::new(),
        time: String::new(),
        parents: parents.iter().map(|p| p.to_string()).collect(),
        refs: Vec::new(),
    }
}

fn lanes(v: &[Option<&str>]) -> Vec<Option<String>> {
    v.iter().map(|o| o.map(|s| s.to_string())).collect()
}

#[test]
fn graph_of_a_straight_history_keeps_one_lane() {
    let commits = vec![
        commit("c3", "third", "ann", &["c2"]),
        commit("c2", "second", "ann", &["c1"]),
        commit("c1", "first", "ann", &[]),
    ];
    let rows = compute_graph(&commits);
    assert_eq!(rows.len(), 3);
    assert_eq!(rows[0].active_before, lanes(&[]));
    assert_eq!(rows[0].node_lane, 0);
    assert_eq!(rows[0].parent_lanes, vec![0]);
    assert_eq!(rows[0].lane_count, 1);
    assert_eq!(rows[1].active_before, lanes(&[Some("c2")]));
    assert_eq!(rows[1].node_lane, 0);
    assert_eq!(rows[1].parent_lanes, vec![0]);
    assert_eq!(rows[2].active_before, lanes(&[Some("c1")]));
    assert_eq!(rows[2].node_lane, 0);
    assert!(rows[2].parent_lanes.is_empty());
    assert_eq!(rows[2].lane_count, 1);
    for r in &rows {
        assert!(r.incoming_lanes.is_empty());
    }
}

#[test]
fn graph_of_a_merge_opens_and_joins_a_lane() {
    let commits = vec![
        commit("m", "merge", "ann", &["a", "b"]),
        commit("a", "left", "ann", &["base"]),
        commit("b", "right", "bob", &["base"]),
        commit("base", "root", "bob", &[]),
    ];
    let rows = compute_graph(&commits);
    assert_eq!(rows.len(), 4);
    assert_eq!(rows[0].node_lane, 0);
    assert_eq!(rows[0].parent_lanes, vec![0, 1]);
    assert_eq!(rows[0].lane_count, 2);
    assert_eq!(rows[1].active_before, lanes(&[Some("a"), Some("b")]));
    assert_eq!(rows[1].node_lane, 0);
    assert_eq!(rows[1].parent_lanes, vec![0]);
    assert_eq!(rows[2].active_before, lanes(&[Some("base"), Some("b")]));
    assert_eq!(rows[2].node_lane, 1);
    assert_eq!(rows[2].parent_lanes, vec![1]);
    assert!(rows[2].incoming_lanes.is_empty());
    assert_eq!(rows[3].active_before, lanes(&[Some("base"), Some("base")]));
    assert_eq!(rows[3].node_lane, 0);
    assert_eq!(rows[3].incoming_lanes, vec![1]);
    assert!(rows[3].parent_lanes.is_empty());
    assert_eq!(rows[3].lane_count, 2);
}

#[test]
fn graph_of_no_commits_is_empty() {
    let rows = compute_graph(&[]);
    assert!(rows.is_empty());
}

#[test]
fn graph_rows_hand_each_parent_a_lane_that_exists() {
    let commits = vec![
        commit("m", "merge", "ann", &["a", "b", "c"]),
        commit("a", "x", "ann", &["c"]),
        commit("b", "y", "ann", &["c"]),
        commit("c", "z", "ann", &[]),
    ];
    let rows = compute_graph(&commits);
    for (c, r) in commits.iter().zip(rows.iter()) {
        assert_eq!(r.parent_lanes.len(), c.parents.len());
        for &l in &r.parent_lanes {
            assert!(l < r.lane_count);
        }
        assert!(r.node_lane < r.lane_count);
    }
}

#[test]
fn matching_looks_at_summary_author_and_ids() {
    let c = commit("abcdef1234", "Fix Crash in parser", "Zoé Martin", &[]);
    assert!(commit_matches_query(&c, "crash"));
    assert!(commit_matches_query(&c, "zoé"));
    assert!(commit_matches_query(&c, "abcdef1"));
    assert!(commit_matches_query(&c, "1234"));
    assert!(!commit_matches_query(&c, "Crash"));
    assert!(!commit_matches_query(&c, "nothing"));
}

#[test]
fn filter_with_empty_query_keeps_everything() {
    let all = vec![commit("a1", "one", "ann", &[]), commit("b2", "two", "bob", &[])];
    let shown = filter_commits(&all, "");
    assert_eq!(shown.len(), 2);
    assert_eq!(shown[0].oid, "a1");
    assert_eq!(shown[1].oid, "b2");
}

#[test]
fn filter_lowers_the_query_and_keeps_order() {
    let all = vec![
        commit("a1", "Add parser", "ann", &[]),
        commit("b2", "Docs", "Bob", &[]),
        commit("c3", "PARSER crash", "carl", &[]),
    ];
    let shown = filter_commits(&all, "PARSER");
    let ids: Vec<&str> = shown.iter().map(|c| c.oid.as_str()).collect();
    assert_eq!(ids, vec!["a1", "c3"]);
    let by_author = filter_commits(&all, "BOB");
    assert_eq!(by_author.len(), 1);
    assert_eq!(by_author[0].oid, "b2");
    assert!(filter_commits(&all, "zzz").is_empty());
}

#[test]
fn filter_keeps_exactly_the_matching_commits() {
    let all = vec![
        commit("a1", "alpha", "ann", &[]),
        commit("b2", "beta", "bob", &[]),
        commit("c3", "gamma", "ann", &[]),
    ];
    let shown = filter_commits(&all, "Ann");
    for c in &all {
        let kept = shown.iter().any(|s| s.oid == c.oid);
        assert_eq!(kept, commit_matches_query(c, "ann"));
    }
}

#[test]
fn commit_list_loads_appends_and_filters() {
    let mut list = CommitList::new();
    let shown = list.load(vec![commit("a1", "one", "ann", &[])]);
    assert_eq!(shown.len(), 1);
    let shown = list.append(vec![commit("b2", "two", "bob", &[]), commit("c3", "three", "ann", &[])]);
    let ids: Vec<&str> = shown.iter().map(|c| c.oid.as_str()).collect();
    assert_eq!(ids, vec!["a1", "b2", "c3"]);
    let filtered = list.filter("ann");
    let ids: Vec<&str> = filtered.iter().map(|c| c.oid.as_str()).collect();
    assert_eq!(ids, vec!["a1", "c3"]);
    let shown = list.load(vec![commit("d4", "four", "dan", &[])]);
    assert_eq!(shown.len(), 1);
    assert_eq!(list.filter("").len(), 1);
}

#[test]
fn star_of_a_commit_row() {
    let mut stars = StarSet::new();
    assert_eq!(commit_star(&stars, "abc"), "☆");
    stars.insert(StarredItem::Commit("abc".to_string()));
    assert_eq!(commit_star(&stars, "abc"), "★");
    stars.insert(StarredItem::Branch("main".to_string()));
    assert_eq!(commit_star(&stars, "main"), "☆");
}

#[test]
fn summaries_that_mention_a_crash_warn() {
    assert!(summary_warns("Fix CRASH on start"));
    assert!(summary_warns("crashed twice"));
    assert!(!summary_warns("Fix crush"));
    assert!(!summary_warns(""));
}

#[test]
fn lanes_cycle_through_eight_colours() {
    assert_eq!(lane_color_index(0), 0);
    assert_eq!(lane_color_index(7), 7);
    assert_eq!(lane_color_index(8), 0);
    assert_eq!(lane_color_index(13), 5);
}

#[test]
fn menu_lists_the_actions_with_separators() {
    let menu = commit_menu();
    assert_eq!(menu.len(), 23);
    assert_eq!(menu[0], MenuEntry::Action(CommitContextAction::Revert));
    assert_eq!(menu[6], MenuEntry::Separator);
    assert_eq!(menu[7], MenuEntry::Action(CommitContextAction::CreateBranch));
    assert_eq!(menu[10], MenuEntry::Separator);
    assert_eq!(menu[17], MenuEntry::Action(CommitContextAction::CopyPatch));
    assert_eq!(menu[18], MenuEntry::Separator);
    assert_eq!(menu[22], MenuEntry::Action(CommitContextAction::CopyMessage));
    let row = commit_row_menu();
    assert_eq!(row.len(), 25);
    assert_eq!(row[23], MenuEntry::Separator);
    assert_eq!(row[24], MenuEntry::ToggleStar);
    for i in 0..23 {
        assert_eq!(row[i], menu[i]);
    }
}

#[test]
fn menu_labels() {
    assert_eq!(action_label(CommitContextAction::Revert), "Revert Commit…");
    assert_eq!(
        action_label(CommitContextAction::AiRebasePreview),
        "AI Rebase Current Branch onto Commit (Preview)…"
    );
    assert_eq!(action_label(CommitContextAction::CompareToFromHead), "Compare to/from HEAD");
    assert_eq!(action_label(CommitContextAction::CopyPatch), "Copy Changes (Patch)");
    assert_eq!(action_label(CommitContextAction::CopySha), "Copy SHA");
}

#[test]
fn actions_ask_for_what_the_window_does() {
    assert_eq!(action_plan(CommitContextAction::OpenChanges), ActionPlan::ShowDetails);
    assert_eq!(action_plan(CommitContextAction::InspectDetails), ActionPlan::ShowDetails);
    assert_eq!(action_plan(CommitContextAction::CopySha), ActionPlan::CopyId);
    assert_eq!(action_plan(CommitContextAction::Copy), ActionPlan::CopySummary);
    assert_eq!(action_plan(CommitContextAction::CopyMessage), ActionPlan::CopyMessage);
    assert_eq!(action_plan(CommitContextAction::ResetTo), ActionPlan::ConfirmReset);
    assert_eq!(action_plan(CommitContextAction::ResetToPrevious), ActionPlan::ResetToParent);
    assert_eq!(action_plan(CommitContextAction::SwitchTo), ActionPlan::CheckoutCommit);
    assert_eq!(action_plan(CommitContextAction::Share), ActionPlan::NotAvailable);
    assert_eq!(action_plan(CommitContextAction::Revert), ActionPlan::NotAvailable);
}

#[test]
fn copy_text_brackets_the_short_id() {
    let c = commit("1234567890", "Add tests", "ann", &[]);
    assert_eq!(copy_summary_text(&c), "[1234567] Add tests");
}

#[test]
fn patch_file_is_named_after_seven_bytes_of_the_id() {
    assert_eq!(patch_file_name("0123456789abcdef"), "0123456.patch");
    assert_eq!(patch_file_name("abc"), "abc.patch");
    assert_eq!(patch_file_name(""), ".patch");
    assert_eq!(patch_file_name("ééé"), "ééé.patch");
    assert_eq!(patch_file_name("aéééé"), "aééé.patch");
}

#[test]
fn menu_offers_each_action_once() {
    let all = [
        CommitContextAction::Revert,
        CommitContextAction::ResetTo,
        CommitContextAction::ResetToPrevious,
        CommitContextAction::AiRebasePreview,
        CommitContextAction::RebaseOnto,
        CommitContextAction::SwitchTo,
        CommitContextAction::CreateBranch,
        CommitContextAction::CreatePatch,
        CommitContextAction::CreateTag,
        CommitContextAction::ExplainChanges,
        CommitContextAction::OpenChanges,
        CommitContextAction::InspectDetails,
        CommitContextAction::OpenOnRemote,
        CommitContextAction::CompareToFromHead,
        CommitContextAction::CompareWorkingTreeToHere,
        CommitContextAction::CopyPatch,
        CommitContextAction::Share,
        CommitContextAction::Copy,
        CommitContextAction::CopySha,
        CommitContextAction::CopyMessage,
    ];
    let menu = commit_menu();
    for a in all {
        assert_eq!(menu.iter().filter(|e| **e == MenuEntry::Action(a)).count(), 1);
    }
}

#[test]
fn dates_that_cannot_be_read_are_shown_as_stored() {
    assert_eq!(date_label("not a date", None), "not a date");
    assert_eq!(date_label("2023-11-14T22:13:20Z", Some("mar. 14 nov. 2023".to_string())), "mar. 14 nov. 2023");
}
