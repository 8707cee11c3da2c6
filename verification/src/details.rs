//! The texts of the commit details pane: the author line, the parents, the
//! avatar initials and the avatar address.
use vstd::prelude::*;
use crate::model::{strings_view, CommitInfo};
use crate::text::{
    append_str, chars_of, concat2, concat3, ends_with_chars, is_white_space, is_whitespace,
    lowercase, string_of, to_lower, trim_chars, trimmed, upper_char, uppercase_char,
};

verus! {

/// The strings of a list joined with a separator between consecutive ones.
pub open spec fn joined(list: Seq<Seq<char>>, sep: Seq<char>) -> Seq<char>
    decreases list.len(),
{
    if list.len() == 0 {
        Seq::empty()
    } else if list.len() == 1 {
        list[0]
    } else {
        joined(list.drop_last(), sep) + sep + list.last()
    }
}

/// The strings of `list` joined with `sep`, as `join` on a slice of strings gives it.
pub fn join_strings(list: &Vec<String>, sep: &str) -> (r: String)
    ensures
        r@ == joined(strings_view(list@), sep@),
{
    let ghost l = strings_view(list@);
    let mut out: Vec<char> = Vec::new();
    let mut i: usize = 0;
    assert(l.take(0) =~= Seq::<Seq<char>>::empty());
    while i < list.len()
        invariant
            i <= list.len(),
            l == strings_view(list@),
            out@ == joined(l.take(i as int), sep@),
        decreases list.len() - i,
    {
        assert(l.take(i + 1).drop_last() =~= l.take(i as int));
        assert(l.take(i + 1).last() == list@[i as int]@);
        if i > 0 {
            append_str(&mut out, sep);
        } else {
            assert(out@ =~= Seq::<char>::empty());
        }
        append_str(&mut out, list[i].as_str());
        if i == 0 {
            assert(out@ =~= l.take(1)[0]);
        }
        i = i + 1;
    }
    assert(l.take(list.len() as int) =~= l);
    string_of(&out)
}

/// The line under the author's name: the email, the date and, when there are
/// any, the references that point at the commit.
pub open spec fn author_meta_text(c: crate::model::CommitInfoView) -> Seq<char> {
    let refs = if c.refs.len() == 0 { Seq::empty() } else { " • refs: "@ + joined(c.refs, ", "@) };
    c.email + " • "@ + c.time + refs
}

/// The author line of a commit.
pub fn author_meta(info: &CommitInfo) -> (r: String)
    ensures
        r@ == author_meta_text(info@),
{
    let refs = if info.refs.len() == 0 {
        String::new()
    } else {
        let j = join_strings(&info.refs, ", ");
        concat2(" • refs: ", j.as_str())
    };
    let head = concat3(info.email.as_str(), " • ", info.time.as_str());
    concat2(head.as_str(), refs.as_str())
}

/// The parents of a commit as the details pane lists them.
pub open spec fn parents_text_of(parents: Seq<Seq<char>>) -> Seq<char> {
    if parents.len() == 0 { "<root>"@ } else { joined(parents, ", "@) }
}

/// The parents of a commit, or `<root>` for a commit without parents.
pub fn parents_text(info: &CommitInfo) -> (r: String)
    ensures
        r@ == parents_text_of(info@.parents),
{
    if info.parents.len() == 0 {
        String::from_str("<root>")
    } else {
        join_strings(&info.parents, ", ")
    }
}

/// The first character of each run of non-white-space characters.
pub open spec fn word_initials(s: Seq<char>) -> Seq<char>
    decreases s.len(),
{
    if s.len() == 0 {
        Seq::empty()
    } else {
        let rest = word_initials(s.drop_last());
        let i = s.len() - 1;
        if !is_white_space(s[i]) && (i == 0 || is_white_space(s[i - 1])) {
            rest.push(s[i])
        } else {
            rest
        }
    }
}

/// The initials shown in place of an avatar: the upper-cased first letters of
/// the first two words of the name, `?` for a name without words.
pub open spec fn initials_of(name: Seq<char>) -> Seq<char> {
    let w = word_initials(name);
    let first = if w.len() > 0 { w[0] } else { '?' };
    let second = if w.len() > 1 { w[1] } else { '\0' };
    if second == '\0' {
        uppercase_char(first)
    } else {
        uppercase_char(first) + uppercase_char(second)
    }
}

/// The avatar initials for an author name.
pub fn initials_from_name(name: &str) -> (r: String)
    ensures
        r@ == initials_of(name@),
{
    let cs = chars_of(name);
    let mut inits: Vec<char> = Vec::new();
    let mut i: usize = 0;
    while i < cs.len()
        invariant
            i <= cs.len(),
            cs@ == name@,
            inits@ == word_initials(cs@.take(i as int)),
        decreases cs.len() - i,
    {
        let ghost t = cs@.take(i + 1);
        assert(t.drop_last() =~= cs@.take(i as int));
        assert(t[i as int] == cs@[i as int]);
        assert(i > 0 ==> t[i - 1] == cs@[i - 1]);
        if !is_whitespace(cs[i]) && (i == 0 || is_whitespace(cs[i - 1])) {
            inits.push(cs[i]);
        }
        i = i + 1;
    }
    assert(cs@.take(cs.len() as int) =~= cs@);
    let first = if inits.len() > 0 { inits[0] } else { '?' };
    let second = if inits.len() > 1 { inits[1] } else { '\0' };
    if second == '\0' {
        upper_char(first)
    } else {
        let a = upper_char(first);
        let b = upper_char(second);
        concat2(a.as_str(), b.as_str())
    }
}

/// The position of the last occurrence of `c`, or -1.
pub open spec fn last_index_of(s: Seq<char>, c: char) -> int
    decreases s.len(),
{
    if s.len() == 0 {
        -1
    } else if s.last() == c {
        s.len() - 1
    } else {
        last_index_of(s.drop_last(), c)
    }
}

proof fn lemma_last_index(s: Seq<char>, c: char)
    ensures
        -1 <= last_index_of(s, c) < s.len(),
    decreases s.len(),
{
    if s.len() > 0 && s.last() != c {
        lemma_last_index(s.drop_last(), c);
    }
}

/// The suffix of the no-reply addresses that GitHub gives its users.
pub open spec fn github_noreply_suffix() -> Seq<char> {
    "@users.noreply.github.com"@
}

/// The avatar address for an email: the GitHub picture of the user for a GitHub
/// no-reply address (`user@…` or `id+user@…`), and none otherwise.
pub open spec fn avatar_url_of(email: Seq<char>) -> Option<Seq<char>> {
    let lower = lowercase(trimmed(email));
    let suffix = github_noreply_suffix();
    if suffix.is_suffix_of(lower) {
        let local = lower.subrange(0, lower.len() - suffix.len());
        let user = local.subrange(last_index_of(local, '+') + 1, local.len() as int);
        if user.len() > 0 {
            Some("https://github.com/"@ + user + ".png"@)
        } else {
            None
        }
    } else {
        None
    }
}

/// The avatar address for an author's email, if one can be inferred.
pub fn compute_avatar_url(email: &str) -> (r: Option<String>)
    ensures
        r matches Some(u) ==> avatar_url_of(email@) == Some(u@),
        r is None ==> avatar_url_of(email@) is None,
{
    let cs = chars_of(email);
    let t = trim_chars(&cs);
    let ts = string_of(&t);
    let lower_s = to_lower(ts.as_str());
    let lower = chars_of(lower_s.as_str());
    let suffix = chars_of("@users.noreply.github.com");
    if !ends_with_chars(&lower, &suffix) {
        return None;
    }
    let local_len = lower.len() - suffix.len();
    let ghost local = lower@.subrange(0, local_len as int);
    let mut k: usize = local_len;
    assert(local.take(local_len as int) =~= local);
    while k > 0 && lower[k - 1] != '+'
        invariant
            k <= local_len <= lower@.len(),
            local == lower@.subrange(0, local_len as int),
            last_index_of(local, '+') == last_index_of(local.take(k as int), '+'),
        decreases k,
    {
        assert(local.take(k as int).drop_last() =~= local.take(k - 1));
        assert(local.take(k as int).last() == lower@[k - 1]);
        k = k - 1;
    }
    proof {
        if k > 0 {
            assert(local.take(k as int).last() == lower@[k - 1]);
            assert(local.take(k as int).last() == '+');
        } else {
            assert(local.take(0) =~= Seq::<char>::empty());
        }
    }
    let mut user: Vec<char> = Vec::new();
    let mut i: usize = k;
    while i < local_len
        invariant
            k <= i <= local_len <= lower@.len(),
            user@ == lower@.subrange(k as int, i as int),
        decreases local_len - i,
    {
        user.push(lower[i]);
        assert(lower@.subrange(k as int, i + 1) =~= lower@.subrange(k as int, i as int).push(lower@[i as int]));
        i = i + 1;
    }
    assert(user@ =~= local.subrange(last_index_of(local, '+') + 1, local.len() as int));
    if user.len() == 0 {
        return None;
    }
    let us = string_of(&user);
    Some(concat3("https://github.com/", us.as_str(), ".png"))
}

} // verus!
