//! The names of references that checkout and pull work on, and the order in
//! which fetching asks for credentials.
use vstd::prelude::*;
use vstd::utf8::{decode_utf8, valid_utf8};
use crate::model::strings_view;
use crate::text::{chars_of, concat2, starts_with_chars};

verus! {

/// The remote that fetch and pull talk to.
pub fn default_remote() -> (r: &'static str)
    ensures
        r@ == "origin"@,
{
    "origin"
}

/// The reflog message of a fast-forward.
pub fn fast_forward_message() -> (r: &'static str)
    ensures
        r@ == "fast-forward"@,
{
    "fast-forward"
}

/// The full name of a local branch.
pub fn branch_ref(name: &str) -> (r: String)
    ensures
        r@ == "refs/heads/"@ + name@,
{
    concat2("refs/heads/", name)
}

/// The full name of the branch of `origin` that tracks a local branch.
pub fn remote_branch_ref(name: &str) -> (r: String)
    ensures
        r@ == "refs/remotes/origin/"@ + name@,
{
    concat2("refs/remotes/origin/", name)
}

/// The full name of a tag: the name as given when it is already a full tag
/// name, else the name under `refs/tags/`.
pub open spec fn tag_ref_of(name: Seq<char>) -> Seq<char> {
    if "refs/tags/"@.is_prefix_of(name) {
        name
    } else {
        "refs/tags/"@ + name
    }
}

/// The full name of a tag given by its name or its full name.
pub fn tag_ref(name: &str) -> (r: String)
    ensures
        r@ == tag_ref_of(name@),
{
    let cs = chars_of(name);
    let prefix = chars_of("refs/tags/");
    if starts_with_chars(&cs, &prefix) {
        String::from_str(name)
    } else {
        concat2("refs/tags/", name)
    }
}

/// The references that a pull of the checked-out branch fast-forwards: the
/// local branch, to where its `origin` counterpart points.
pub fn fast_forward_refs(branch: &str) -> (r: (String, String))
    ensures
        r.0@ == "refs/heads/"@ + branch@,
        r.1@ == "refs/remotes/origin/"@ + branch@,
{
    (branch_ref(branch), remote_branch_ref(branch))
}

/// The kinds of credentials that a server accepts for a connection.
#[derive(Debug, Clone, Copy, PartialEq, Eq, Structural)]
pub struct AllowedCredentials {
    pub ssh_key: bool,
    pub user_pass_plaintext: bool,
    pub username: bool,
}

/// The key files tried after the SSH agent, in the user's `.ssh` directory.
#[derive(Debug, Clone, Copy, PartialEq, Eq, Structural)]
pub enum KeyFile {
    Ed25519,
    Rsa,
}

/// The file name of a key file.
pub fn key_file_name(k: KeyFile) -> (r: &'static str)
    ensures
        k == KeyFile::Ed25519 ==> r@ == "id_ed25519"@,
        k == KeyFile::Rsa ==> r@ == "id_rsa"@,
{
    match k {
        KeyFile::Ed25519 => "id_ed25519",
        KeyFile::Rsa => "id_rsa",
    }
}

/// One way of obtaining credentials.
#[derive(Debug, Clone, Copy, PartialEq, Eq, Structural)]
pub enum CredentialAttempt {
    /// A key from the running SSH agent.
    SshAgent,
    /// A key file, if it exists.
    SshKeyFile(KeyFile),
    /// The credential helpers of the git configuration.
    CredentialHelper,
    /// The user name alone; its outcome is final.
    Username,
    /// libgit2's platform default; its outcome is final.
    PlatformDefault,
}

/// Whether an attempt's outcome is returned whatever it is.
pub open spec fn is_final_attempt(a: CredentialAttempt) -> bool {
    a == CredentialAttempt::Username || a == CredentialAttempt::PlatformDefault
}

/// The attempts in the order fetching makes them: the SSH agent then the key
/// files when SSH keys are accepted (the files only when the home directory is
/// known), the credential helpers when plain-text passwords are accepted and a
/// configuration was loaded, then the user name alone when it is accepted, else
/// the platform default. The first attempt that succeeds is used.
pub open spec fn credential_plan(allowed: AllowedCredentials, home_known: bool, config_loaded: bool) -> Seq<CredentialAttempt> {
    let ssh = if allowed.ssh_key {
        if home_known {
            seq![
                CredentialAttempt::SshAgent,
                CredentialAttempt::SshKeyFile(KeyFile::Ed25519),
                CredentialAttempt::SshKeyFile(KeyFile::Rsa),
            ]
        } else {
            seq![CredentialAttempt::SshAgent]
        }
    } else {
        Seq::empty()
    };
    let helper = if allowed.user_pass_plaintext && config_loaded {
        seq![CredentialAttempt::CredentialHelper]
    } else {
        Seq::empty()
    };
    let last = if allowed.username { CredentialAttempt::Username } else { CredentialAttempt::PlatformDefault };
    ssh + helper + seq![last]
}

/// What the order of attempts holds for a request: the SSH agent, first, when
/// SSH keys are accepted; the key files, right after it, when the home
/// directory is also known; the credential helpers, right after the SSH
/// attempts, exactly when plain-text passwords are accepted and a configuration
/// was loaded, whatever else is accepted; and last the user name alone when
/// user names are accepted, else the platform default.
pub proof fn law_credential_order(allowed: AllowedCredentials, home_known: bool, config_loaded: bool)
    ensures
        ({
            let plan = credential_plan(allowed, home_known, config_loaded);
            let ssh = if allowed.ssh_key { if home_known { 3int } else { 1int } } else { 0int };
            &&& allowed.ssh_key ==> plan[0] == CredentialAttempt::SshAgent
            &&& allowed.ssh_key && home_known ==> plan[1] == CredentialAttempt::SshKeyFile(KeyFile::Ed25519)
                && plan[2] == CredentialAttempt::SshKeyFile(KeyFile::Rsa)
            &&& plan.contains(CredentialAttempt::CredentialHelper) <==> (allowed.user_pass_plaintext && config_loaded)
            &&& allowed.user_pass_plaintext && config_loaded ==> plan[ssh] == CredentialAttempt::CredentialHelper
            &&& plan.contains(CredentialAttempt::SshAgent) <==> allowed.ssh_key
            &&& plan.len() == ssh + (if allowed.user_pass_plaintext && config_loaded { 1int } else { 0int }) + 1
            &&& plan.last() == (if allowed.username { CredentialAttempt::Username } else { CredentialAttempt::PlatformDefault })
        }),
{
    let plan = credential_plan(allowed, home_known, config_loaded);
    let ssh = if allowed.ssh_key { if home_known { 3int } else { 1int } } else { 0int };
    let helper = allowed.user_pass_plaintext && config_loaded;
    if helper {
        assert(plan[ssh] == CredentialAttempt::CredentialHelper);
    } else {
        assert forall|i: int| 0 <= i < plan.len() implies plan[i] != CredentialAttempt::CredentialHelper by {}
    }
    if allowed.ssh_key {
        assert(plan[0] == CredentialAttempt::SshAgent);
    } else {
        assert forall|i: int| 0 <= i < plan.len() implies plan[i] != CredentialAttempt::SshAgent by {}
    }
}

/// The attempts to make, in order, for a credentials request.
pub fn credential_attempts(allowed: AllowedCredentials, home_known: bool, config_loaded: bool) -> (r: Vec<CredentialAttempt>)
    ensures
        r@ == credential_plan(allowed, home_known, config_loaded),
        r@.len() >= 1,
        is_final_attempt(r@.last()),
        forall|i: int| 0 <= i < r@.len() - 1 ==> !is_final_attempt(#[trigger] r@[i]),
{
    let mut r: Vec<CredentialAttempt> = Vec::new();
    if allowed.ssh_key {
        r.push(CredentialAttempt::SshAgent);
        if home_known {
            r.push(CredentialAttempt::SshKeyFile(KeyFile::Ed25519));
            r.push(CredentialAttempt::SshKeyFile(KeyFile::Rsa));
        }
    }
    if allowed.user_pass_plaintext && config_loaded {
        r.push(CredentialAttempt::CredentialHelper);
    }
    if allowed.username {
        r.push(CredentialAttempt::Username);
    } else {
        r.push(CredentialAttempt::PlatformDefault);
    }
    assert(r@ =~= credential_plan(allowed, home_known, config_loaded));
    r
}

/// Calls `git2::CredentialType::from_bits_truncate` and asks the set, with
/// `contains`, for the three kinds that fetching tries. libgit2 gives plain-text
/// passwords the bit 1, SSH keys the bit 2 and user names the bit 32, and
/// truncation keeps those bits.
#[verifier::external_body]
fn credential_kinds(bits: u32) -> (r: AllowedCredentials)
    ensures
        r.user_pass_plaintext == ((bits & 1) != 0),
        r.ssh_key == ((bits & 2) != 0),
        r.username == ((bits & 32) != 0),
{
    let t = git2::CredentialType::from_bits_truncate(bits);
    AllowedCredentials {
        ssh_key: t.contains(git2::CredentialType::SSH_KEY),
        user_pass_plaintext: t.contains(git2::CredentialType::USER_PASS_PLAINTEXT),
        username: t.contains(git2::CredentialType::USERNAME),
    }
}

/// The kinds of credentials that libgit2's bits accept.
pub open spec fn allowed_of_bits(bits: u32) -> AllowedCredentials {
    AllowedCredentials {
        ssh_key: (bits & 2) != 0,
        user_pass_plaintext: (bits & 1) != 0,
        username: (bits & 32) != 0,
    }
}

/// The attempts to make, in order, for a credentials request that accepts the
/// kinds given by libgit2's bits.
pub fn credential_attempts_for(bits: u32, home_known: bool, config_loaded: bool) -> (r: Vec<CredentialAttempt>)
    ensures
        r@ == credential_plan(allowed_of_bits(bits), home_known, config_loaded),
{
    let allowed = credential_kinds(bits);
    credential_attempts(allowed, home_known, config_loaded)
}

/// The names that listing the tags keeps: each raw name that is valid UTF-8,
/// decoded, in order.
pub open spec fn tag_names_of(raw: Seq<Seq<u8>>) -> Seq<Seq<char>>
    decreases raw.len(),
{
    if raw.len() == 0 {
        Seq::empty()
    } else {
        let rest = tag_names_of(raw.drop_last());
        if valid_utf8(raw.last()) {
            rest.push(decode_utf8(raw.last()))
        } else {
            rest
        }
    }
}

/// The byte strings of a list.
pub open spec fn byte_strings_view(v: Seq<Vec<u8>>) -> Seq<Seq<u8>> {
    Seq::new(v.len(), |i: int| v[i]@)
}

/// The names of the tags from their raw names; names that are not UTF-8 are
/// left out.
pub fn tag_names(raw: &Vec<Vec<u8>>) -> (r: Vec<String>)
    ensures
        strings_view(r@) == tag_names_of(byte_strings_view(raw@)),
{
    let ghost rv = byte_strings_view(raw@);
    let mut out: Vec<String> = Vec::new();
    let mut i: usize = 0;
    assert(strings_view(out@) =~= tag_names_of(rv.take(0)));
    while i < raw.len()
        invariant
            i <= raw.len(),
            rv == byte_strings_view(raw@),
            strings_view(out@) == tag_names_of(rv.take(i as int)),
        decreases raw.len() - i,
    {
        assert(rv.take(i + 1).drop_last() =~= rv.take(i as int));
        assert(rv.take(i + 1).last() == raw@[i as int]@);
        let ghost before = out@;
        match crate::diff::utf8_text(raw[i].as_slice()) {
            Some(name) => {
                out.push(name);
                assert(strings_view(out@) =~= strings_view(before).push(out@.last()@));
            },
            None => {},
        }
        i = i + 1;
    }
    assert(rv.take(raw.len() as int) =~= rv);
    out
}

/// The user name to authenticate as: the one in the URL, else `git`.
pub fn credential_username(from_url: Option<&str>) -> (r: String)
    ensures
        from_url matches Some(u) ==> r@ == u@,
        from_url is None ==> r@ == "git"@,
{
    match from_url {
        Some(u) => String::from_str(u),
        None => String::from_str("git"),
    }
}

/// The URL that credential helpers are asked about: the remote's configured URL
/// when it has one, else the URL of the request.
pub fn credential_url(hint: Option<&str>, url: &str) -> (r: String)
    ensures
        hint matches Some(h) ==> r@ == h@,
        hint is None ==> r@ == url@,
{
    match hint {
        Some(h) => String::from_str(h),
        None => String::from_str(url),
    }
}

/// Naming a tag by its full name gives that name again: the full name of a
/// tag's full name is that full name.
pub proof fn law_tag_ref_idempotent(name: Seq<char>)
    ensures
        tag_ref_of(tag_ref_of(name)) == tag_ref_of(name),
{
    reveal_strlit("refs/tags/");
    if !"refs/tags/"@.is_prefix_of(name) {
        let full = "refs/tags/"@ + name;
        assert(full.take("refs/tags/"@.len() as int) =~= "refs/tags/"@);
    }
}

} // verus!
