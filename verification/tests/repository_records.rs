use librefork::commit::{
    branch_status, commit_info, commit_time_text, head_label, parse_commit_id, refs_pointing_at,
    stash_label, CommitIdError, RefTarget,
};
use librefork::diff::{
    delta_path, delta_status, diff_line_from, file_diff_lines, hunk_patch, DeltaKind, PatchError,
    PatchLine,
};
use librefork::refs::{
    branch_ref, credential_attempts, credential_attempts_for, credential_url, credential_username,
    default_remote, fast_forward_message, fast_forward_refs, key_file_name, remote_branch_ref,
    tag_names, tag_ref, AllowedCredentials, CredentialAttempt, KeyFile,
};

#[test]
fn commit_dates_are_rfc3339_in_utc() {
    assert_eq!(commit_time_text(0), "1970-01-01T00:00:00Z");
    assert_eq!(commit_time_text(1_700_000_000), "2023-11-14T22:13:20Z");
    assert_eq!(commit_time_text(-86_400), "1969-12-31T00:00:00Z");
}

#[test]
fn commit_dates_out_of_range_fall_back() {
    assert_eq!(commit_time_text(i64::MAX), "1970-01-01T00:00:00Z");
    assert_eq!(commit_time_text(i64::MIN), "1970-01-01T00:00:00Z");
    assert_eq!(commit_time_text(-62_167_219_201), "");
    assert_eq!(commit_time_text(-62_167_219_200), "0000-01-01T00:00:00Z");
}

#[test]
fn commit_record_fills_in_defaults() {
    let c = commit_info(
        "abc".to_string(),
        None,
        None,
        None,
        None,
        0,
        vec!["p".to_string()],
        vec!["main".to_string()],
    );
    assert_eq!(c.oid, "abc");
    assert_eq!(c.short_id, "");
    assert_eq!(c.summary, "<no subject>");
    assert_eq!(c.author, "unknown");
    assert_eq!(c.email, "");
    assert_eq!(c.time, "1970-01-01T00:00:00Z");
    assert_eq!(c.parents, vec!["p".to_string()]);
    assert_eq!(c.refs, vec!["main".to_string()]);
    let d = commit_info(
        "def".to_string(),
        Some("de".to_string()),
        Some("Subject".to_string()),
        Some("Ann".to_string()),
        Some("ann@x.org".to_string()),
        1_700_000_000,
        Vec::new(),
        Vec::new(),
    );
    assert_eq!(d.short_id, "de");
    assert_eq!(d.summary, "Subject");
    assert_eq!(d.author, "Ann");
    assert_eq!(d.email, "ann@x.org");
    assert_eq!(d.time, "2023-11-14T22:13:20Z");
}

#[test]
fn references_at_a_commit_keep_their_order() {
    let refs = vec![
        RefTarget { target: Some("a".to_string()), shorthand: Some("main".to_string()) },
        RefTarget { target: Some("b".to_string()), shorthand: Some("dev".to_string()) },
        RefTarget { target: None, shorthand: Some("HEAD".to_string()) },
        RefTarget { target: Some("a".to_string()), shorthand: None },
        RefTarget { target: Some("a".to_string()), shorthand: Some("v1.0".to_string()) },
    ];
    let at_a = refs_pointing_at(&refs, &"a".to_string());
    assert_eq!(at_a, vec!["main".to_string(), "v1.0".to_string()]);
    assert!(refs_pointing_at(&refs, &"z".to_string()).is_empty());
}

#[test]
fn stash_labels() {
    assert_eq!(stash_label(0, ""), "stash@{0}");
    assert_eq!(stash_label(12, ""), "stash@{12}");
    assert_eq!(stash_label(3, "WIP on main"), "WIP on main");
}

#[test]
fn branch_distance_defaults_to_zero() {
    let b = branch_status("main".to_string(), Some((2, 5)));
    assert_eq!((b.name.as_str(), b.ahead, b.behind), ("main", 2, 5));
    let c = branch_status("topic".to_string(), None);
    assert_eq!((c.name.as_str(), c.ahead, c.behind), ("topic", 0, 0));
}

#[test]
fn head_is_a_branch_name_or_a_commit_id() {
    assert_eq!(head_label(true, Some("main".to_string()), Some("abc".to_string())), Some("main".to_string()));
    assert_eq!(head_label(false, Some("main".to_string()), Some("abc".to_string())), Some("abc".to_string()));
    assert_eq!(head_label(false, None, None), None);
    assert_eq!(head_label(true, None, Some("abc".to_string())), None);
}

#[test]
fn commit_ids_are_canonical_and_lower_case() {
    let full = "0123456789abcdef0123456789ABCDEF01234567";
    assert_eq!(parse_commit_id(full), Ok("0123456789abcdef0123456789abcdef01234567".to_string()));
    assert_eq!(parse_commit_id("ABC"), Ok(format!("abc{}", "0".repeat(37))));
}

#[test]
fn invalid_commit_ids_are_refused() {
    assert_eq!(parse_commit_id("xyz"), Err(CommitIdError::Invalid));
    assert_eq!(parse_commit_id(""), Err(CommitIdError::Invalid));
    assert_eq!(parse_commit_id(&"a".repeat(41)), Err(CommitIdError::Invalid));
    assert_eq!(parse_commit_id("12 4"), Err(CommitIdError::Invalid));
}

#[test]
fn diff_lines_by_origin() {
    let l = diff_line_from('-', b"old\n").unwrap();
    assert_eq!((l.left, l.right), (Some("old".to_string()), None));
    let l = diff_line_from('+', b"new").unwrap();
    assert_eq!((l.left, l.right), (None, Some("new".to_string())));
    let l = diff_line_from(' ', b"same\n\n").unwrap();
    assert_eq!((l.left, l.right), (Some("same".to_string()), Some("same".to_string())));
    assert!(diff_line_from('F', b"header").is_none());
    let l = diff_line_from('-', &[0xff, 0xfe]).unwrap();
    assert_eq!(l.left, Some(String::new()));
}

#[test]
fn file_rows_skip_other_origins() {
    let lines = vec![
        PatchLine { origin: '-', content: b"old\n".to_vec() },
        PatchLine { origin: 'H', content: b"@@ -1 +1 @@\n".to_vec() },
        PatchLine { origin: '+', content: "nouveau\n".as_bytes().to_vec() },
        PatchLine { origin: ' ', content: b"ctx\n".to_vec() },
    ];
    let rows = file_diff_lines(&lines);
    assert_eq!(rows.len(), 3);
    assert_eq!(rows[0].left.as_deref(), Some("old"));
    assert_eq!(rows[1].right.as_deref(), Some("nouveau"));
    assert_eq!(rows[2].left.as_deref(), Some("ctx"));
    assert_eq!(rows[2].right.as_deref(), Some("ctx"));
}

#[test]
fn status_letters_and_paths_of_changes() {
    assert_eq!(delta_status(DeltaKind::Added), "A");
    assert_eq!(delta_status(DeltaKind::Deleted), "D");
    assert_eq!(delta_status(DeltaKind::Modified), "M");
    assert_eq!(delta_status(DeltaKind::Other), "?");
    assert_eq!(delta_path(Some("new.rs".to_string()), Some("old.rs".to_string())), "new.rs");
    assert_eq!(delta_path(None, Some("old.rs".to_string())), "old.rs");
}

#[test]
fn hunk_patches_are_read_by_libgit2() {
    let patch = "diff --git a/f.txt b/f.txt\n--- a/f.txt\n+++ b/f.txt\n@@ -1 +1 @@\n-old\n+new\n";
    assert!(hunk_patch(patch).is_ok());
    assert!(matches!(hunk_patch("this is not a patch\n"), Err(PatchError::Unreadable)));
}

#[test]
fn reference_names() {
    assert_eq!(default_remote(), "origin");
    assert_eq!(fast_forward_message(), "fast-forward");
    assert_eq!(branch_ref("main"), "refs/heads/main");
    assert_eq!(remote_branch_ref("main"), "refs/remotes/origin/main");
    assert_eq!(
        fast_forward_refs("dev"),
        ("refs/heads/dev".to_string(), "refs/remotes/origin/dev".to_string())
    );
    assert_eq!(tag_ref("v1.0"), "refs/tags/v1.0");
    assert_eq!(tag_ref("refs/tags/v1.0"), "refs/tags/v1.0");
    assert_eq!(tag_ref("refs/heads/x"), "refs/tags/refs/heads/x");
}

#[test]
fn tag_names_drop_what_is_not_utf8() {
    let raw = vec![b"refs/tags/v1".to_vec(), vec![0xff, 0xfe], "refs/tags/été".as_bytes().to_vec()];
    assert_eq!(tag_names(&raw), vec!["refs/tags/v1".to_string(), "refs/tags/été".to_string()]);
}

#[test]
fn credential_order() {
    let ssh_only = AllowedCredentials { ssh_key: true, user_pass_plaintext: false, username: false };
    assert_eq!(
        credential_attempts(ssh_only, true, true),
        vec![
            CredentialAttempt::SshAgent,
            CredentialAttempt::SshKeyFile(KeyFile::Ed25519),
            CredentialAttempt::SshKeyFile(KeyFile::Rsa),
            CredentialAttempt::PlatformDefault,
        ]
    );
    assert_eq!(
        credential_attempts(ssh_only, false, true),
        vec![CredentialAttempt::SshAgent, CredentialAttempt::PlatformDefault]
    );
    let https = AllowedCredentials { ssh_key: false, user_pass_plaintext: true, username: true };
    assert_eq!(
        credential_attempts(https, true, true),
        vec![CredentialAttempt::CredentialHelper, CredentialAttempt::Username]
    );
    assert_eq!(credential_attempts(https, true, false), vec![CredentialAttempt::Username]);
    assert_eq!(key_file_name(KeyFile::Ed25519), "id_ed25519");
    assert_eq!(key_file_name(KeyFile::Rsa), "id_rsa");
}

#[test]
fn credential_order_from_libgit2_bits() {
    assert_eq!(
        credential_attempts_for(2, true, true),
        vec![
            CredentialAttempt::SshAgent,
            CredentialAttempt::SshKeyFile(KeyFile::Ed25519),
            CredentialAttempt::SshKeyFile(KeyFile::Rsa),
            CredentialAttempt::PlatformDefault,
        ]
    );
    assert_eq!(
        credential_attempts_for(1 | 32, false, true),
        vec![CredentialAttempt::CredentialHelper, CredentialAttempt::Username]
    );
    assert_eq!(credential_attempts_for(0, true, true), vec![CredentialAttempt::PlatformDefault]);
    assert_eq!(credential_attempts_for(1 << 10, true, true), vec![CredentialAttempt::PlatformDefault]);
    assert_eq!(credential_attempts_for(8, true, true), vec![CredentialAttempt::PlatformDefault]);
}

#[test]
fn credential_user_and_url() {
    assert_eq!(credential_username(Some("alice")), "alice");
    assert_eq!(credential_username(None), "git");
    assert_eq!(credential_url(Some("https://a/r.git"), "https://b"), "https://a/r.git");
    assert_eq!(credential_url(None, "https://b"), "https://b");
}

#[test]
fn a_parsed_commit_id_parses_to_itself() {
    for text in ["ABC", "0123456789abcdef0123456789ABCDEF01234567", "f"] {
        let once = parse_commit_id(text).unwrap();
        assert_eq!(parse_commit_id(&once), Ok(once.clone()));
    }
}

#[test]
fn a_full_tag_name_is_kept() {
    for name in ["v1", "refs/tags/v2", "refs/heads/main", ""] {
        let once = tag_ref(name);
        assert_eq!(tag_ref(&once), once);
    }
}
