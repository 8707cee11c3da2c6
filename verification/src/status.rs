//! The texts around the history: the window title, the status bar with the
//! current branch and its distance to upstream, the labels of tabs and recent
//! repositories, and the line that follows a background operation.
use vstd::prelude::*;
use crate::model::{branches_view, strings_view, BranchStatus, BranchStatusView};
use crate::text::{append_decimal, append_str, decimal, escape_mnemonics, escape_underscores, string_of};

verus! {

/// The name for what `std::path::Path::file_name` gives for a path written as
/// text, taken as text again.
pub uninterp spec fn path_file_name(p: Seq<char>) -> Option<Seq<char>>;

/// Calls `std::path::Path::file_name` on the path and turns the name back into
/// text; the result is named `path_file_name` of the path.
#[verifier::external_body]
fn file_name_of(path: &str) -> (r: Option<String>)
    ensures
        match r {
            Some(s) => path_file_name(path@) == Some(s@),
            None => path_file_name(path@) is None,
        },
{
    std::path::Path::new(path).file_name().and_then(|s| s.to_str()).map(|s| s.to_string())
}

/// The label of a repository in the tab bar and in the recent list: the last
/// component of its path (the whole path when there is none), with each
/// underscore doubled so that it is not read as a mnemonic.
pub open spec fn repo_label_of(path: Seq<char>) -> Seq<char> {
    escape_underscores(
        match path_file_name(path) {
            Some(n) => n,
            None => path,
        },
    )
}

/// The label of a repository in the tab bar and in the recent list.
pub fn repo_label(path: &str) -> (r: String)
    ensures
        r@ == repo_label_of(path@),
{
    match file_name_of(path) {
        Some(name) => escape_mnemonics(name.as_str()),
        None => escape_mnemonics(path),
    }
}

/// The title of the window once a repository shows a branch.
pub fn window_title(branch: &str) -> (r: String)
    ensures
        r@ == "LibreFork - "@ + branch@,
{
    let mut v: Vec<char> = Vec::new();
    append_str(&mut v, "LibreFork - ");
    append_str(&mut v, branch);
    string_of(&v)
}

/// The sync button of the status bar: its label, whether it can be pressed,
/// and its tooltip.
#[derive(Debug)]
pub struct SyncButton {
    pub label: String,
    pub enabled: bool,
    pub tooltip: String,
}

pub struct SyncButtonView {
    pub label: Seq<char>,
    pub enabled: bool,
    pub tooltip: Seq<char>,
}

impl View for SyncButton {
    type V = SyncButtonView;

    open spec fn view(&self) -> SyncButtonView {
        SyncButtonView { label: self.label@, enabled: self.enabled, tooltip: self.tooltip@ }
    }
}

/// The status bar after a repository is loaded: the text about the branch, and
/// the sync button, or nothing when the button is left as it was.
#[derive(Debug)]
pub struct StatusBar {
    pub branch_text: String,
    pub sync: Option<SyncButton>,
}

pub struct StatusBarView {
    pub branch_text: Seq<char>,
    pub sync: Option<SyncButtonView>,
}

impl View for StatusBar {
    type V = StatusBarView;

    open spec fn view(&self) -> StatusBarView {
        StatusBarView {
            branch_text: self.branch_text@,
            sync: match self.sync {
                Some(b) => Some(b@),
                None => None,
            },
        }
    }
}

/// The sync button for a branch: what a pull brings and a push sends.
pub open spec fn sync_button_of(b: BranchStatusView) -> SyncButtonView {
    SyncButtonView {
        label: "🗘 "@ + decimal(b.behind as nat) + "↓ "@ + decimal(b.ahead as nat) + "↑"@,
        enabled: true,
        tooltip: "Pull "@ + decimal(b.behind as nat) + " et push "@ + decimal(b.ahead as nat) + " vers "@ + b.name,
    }
}

/// The position of the first branch with the given name, from `i` on.
pub open spec fn first_named(bs: Seq<BranchStatusView>, name: Seq<char>, i: nat) -> Option<int>
    decreases bs.len() - i,
{
    if i >= bs.len() {
        None
    } else if bs[i as int].name == name {
        Some(i as int)
    } else {
        first_named(bs, name, i + 1)
    }
}

/// The status bar when no branch can be shown.
pub open spec fn idle_status_of() -> StatusBarView {
    StatusBarView {
        branch_text: "Aucun dépôt ouvert"@,
        sync: Some(SyncButtonView { label: "🗘 0↓ 0↑"@, enabled: false, tooltip: "Aucun dépôt ouvert"@ }),
    }
}

/// The status bar for the branch that HEAD names, if any, and the branches
/// with their distance to upstream, when they could be listed.
pub open spec fn status_bar_of(head: Option<Seq<char>>, branches: Option<Seq<BranchStatusView>>) -> StatusBarView {
    match head {
        None => idle_status_of(),
        Some(b) => StatusBarView {
            branch_text: "⎇ "@ + b + " —"@,
            sync: match branches {
                Some(bs) => match first_named(bs, b, 0) {
                    Some(k) => Some(sync_button_of(bs[k])),
                    None => None,
                },
                None => None,
            },
        },
    }
}

fn sync_button(b: &BranchStatus) -> (r: SyncButton)
    ensures
        r@ == sync_button_of(b@),
{
    let mut label: Vec<char> = Vec::new();
    append_str(&mut label, "🗘 ");
    append_decimal(&mut label, b.behind);
    append_str(&mut label, "↓ ");
    append_decimal(&mut label, b.ahead);
    append_str(&mut label, "↑");
    let mut tip: Vec<char> = Vec::new();
    append_str(&mut tip, "Pull ");
    append_decimal(&mut tip, b.behind);
    append_str(&mut tip, " et push ");
    append_decimal(&mut tip, b.ahead);
    append_str(&mut tip, " vers ");
    append_str(&mut tip, b.name.as_str());
    SyncButton { label: string_of(&label), enabled: true, tooltip: string_of(&tip) }
}

fn find_named(bs: &Vec<BranchStatus>, name: &str) -> (r: Option<usize>)
    ensures
        match r {
            Some(k) => k < bs@.len() && first_named(branches_view(bs@), name@, 0) == Some(k as int),
            None => first_named(branches_view(bs@), name@, 0) is None,
        },
{
    let ghost bv = branches_view(bs@);
    let mut i: usize = 0;
    while i < bs.len()
        invariant
            i <= bs.len(),
            bv == branches_view(bs@),
            first_named(bv, name@, 0) == first_named(bv, name@, i as nat),
        decreases bs.len() - i,
    {
        if crate::text::str_eq(bs[i].name.as_str(), name) {
            assert(bv[i as int].name == name@);
            return Some(i);
        }
        i = i + 1;
    }
    None
}

/// The status bar when no repository shows a branch.
pub fn idle_status() -> (r: StatusBar)
    ensures
        r@ == idle_status_of(),
{
    StatusBar {
        branch_text: String::from_str("Aucun dépôt ouvert"),
        sync: Some(SyncButton {
            label: String::from_str("🗘 0↓ 0↑"),
            enabled: false,
            tooltip: String::from_str("Aucun dépôt ouvert"),
        }),
    }
}

/// The status bar once a repository is loaded, from the branch HEAD names (if
/// HEAD is on a branch) and the branches with their distance to upstream.
pub fn status_bar(head: Option<&str>, branches: Option<&Vec<BranchStatus>>) -> (r: StatusBar)
    ensures
        r@ == status_bar_of(
            match head {
                Some(h) => Some(h@),
                None => None,
            },
            match branches {
                Some(bs) => Some(branches_view(bs@)),
                None => None,
            },
        ),
{
    match head {
        None => {
            let r = idle_status();
            assert(r@ == idle_status_of());
            r
        },
        Some(b) => {
            let mut v: Vec<char> = Vec::new();
            append_str(&mut v, "⎇ ");
            append_str(&mut v, b);
            append_str(&mut v, " —");
            let sync = match branches {
                Some(bs) => match find_named(bs, b) {
                    Some(k) => Some(sync_button(&bs[k])),
                    None => None,
                },
                None => None,
            };
            StatusBar { branch_text: string_of(&v), sync }
        },
    }
}

/// The status bar once the last tab is closed.
pub fn closed_status() -> (r: StatusBar)
    ensures
        r@ == (StatusBarView {
            branch_text: "Aucun dépôt ouvert"@,
            sync: Some(SyncButtonView { label: "🗘 0↓ 0↑"@, enabled: false, tooltip: "No repository open"@ }),
        }),
{
    StatusBar {
        branch_text: String::from_str("Aucun dépôt ouvert"),
        sync: Some(SyncButton {
            label: String::from_str("🗘 0↓ 0↑"),
            enabled: false,
            tooltip: String::from_str("No repository open"),
        }),
    }
}

/// What happens to a background operation on the repository.
#[derive(Debug)]
pub enum OperationEvent {
    /// It was started.
    Started,
    /// It finished without error.
    Succeeded,
    /// It finished with the given error.
    Failed(String),
    /// The channel it reports on closed before it reported.
    ChannelClosed,
}

/// What the window shows after an event of an operation: the text of the
/// activity line, whether the spinner turns, and whether the repository is
/// loaded again.
#[derive(Debug)]
pub struct ActivityStep {
    pub text: String,
    pub spinning: bool,
    pub reload: bool,
}

pub struct ActivityStepView {
    pub text: Seq<char>,
    pub spinning: bool,
    pub reload: bool,
}

impl View for ActivityStep {
    type V = ActivityStepView;

    open spec fn view(&self) -> ActivityStepView {
        ActivityStepView { text: self.text@, spinning: self.spinning, reload: self.reload }
    }
}

/// The activity line after each event of an operation with the given name.
pub open spec fn activity_of(op: Seq<char>, ev: OperationEvent) -> ActivityStepView {
    match ev {
        OperationEvent::Started => ActivityStepView { text: op + " en cours…"@, spinning: true, reload: false },
        OperationEvent::Succeeded => ActivityStepView { text: "Prêt"@, spinning: false, reload: true },
        OperationEvent::Failed(e) => ActivityStepView { text: op + ": "@ + e@, spinning: false, reload: true },
        OperationEvent::ChannelClosed => ActivityStepView {
            text: op + ": channel fermé"@,
            spinning: false,
            reload: false,
        },
    }
}

/// The activity line after an event of the operation with the given name.
pub fn activity_after(op: &str, ev: &OperationEvent) -> (r: ActivityStep)
    ensures
        r@ == activity_of(op@, *ev),
{
    let mut v: Vec<char> = Vec::new();
    match ev {
        OperationEvent::Started => {
            append_str(&mut v, op);
            append_str(&mut v, " en cours…");
            ActivityStep { text: string_of(&v), spinning: true, reload: false }
        },
        OperationEvent::Succeeded => ActivityStep { text: String::from_str("Prêt"), spinning: false, reload: true },
        OperationEvent::Failed(e) => {
            append_str(&mut v, op);
            append_str(&mut v, ": ");
            append_str(&mut v, e.as_str());
            ActivityStep { text: string_of(&v), spinning: false, reload: true }
        },
        OperationEvent::ChannelClosed => {
            append_str(&mut v, op);
            append_str(&mut v, ": channel fermé");
            ActivityStep { text: string_of(&v), spinning: false, reload: false }
        },
    }
}

/// The label of the theme entry of the View menu: it offers the other theme.
pub fn theme_menu_label(dark: bool) -> (r: &'static str)
    ensures
        dark ==> r@ == "Switch to light theme"@,
        !dark ==> r@ == "Switch to dark theme"@,
{
    if dark { "Switch to light theme" } else { "Switch to dark theme" }
}

/// The position of the first `--repo` among the arguments, from `i` on, or -1.
pub open spec fn repo_flag_from(args: Seq<Seq<char>>, i: nat) -> int
    decreases args.len() - i,
{
    if i >= args.len() {
        -1
    } else if args[i as int] == "--repo"@ {
        i as int
    } else {
        repo_flag_from(args, i + 1)
    }
}

/// The repository named on the command line: the argument after the first
/// `--repo`, if there is one.
pub open spec fn repo_argument_of(args: Seq<Seq<char>>) -> Option<Seq<char>> {
    let k = repo_flag_from(args, 0);
    if k >= 0 && k + 1 < args.len() { Some(args[k + 1]) } else { None }
}

/// The repository to open at start-up, from the command-line arguments.
pub fn repo_argument(args: &Vec<String>) -> (r: Option<String>)
    ensures
        crate::model::opt_str_view(r) == repo_argument_of(strings_view(args@)),
{
    let ghost a = strings_view(args@);
    let mut i: usize = 0;
    while i < args.len()
        invariant
            i <= args.len(),
            a == strings_view(args@),
            repo_flag_from(a, 0) == repo_flag_from(a, i as nat),
        decreases args.len() - i,
    {
        if crate::text::str_eq(args[i].as_str(), "--repo") {
            if i + 1 < args.len() {
                return Some(args[i + 1].clone());
            }
            return None;
        }
        i = i + 1;
    }
    None
}

} // verus!
