//! Text operations on strings taken as sequences of characters.
use vstd::prelude::*;
use vstd::std_specs::iter::IteratorSpec;

verus! {

/// The name for what `str::to_lowercase` returns for a string.
pub uninterp spec fn lowercase(s: Seq<char>) -> Seq<char>;

/// The name for the characters that `char::to_uppercase` yields for a character.
pub uninterp spec fn uppercase_char(c: char) -> Seq<char>;

/// The characters of a string, in order.
pub(crate) fn chars_of(s: &str) -> (r: Vec<char>)
    ensures
        r@ == s@,
{
    let mut it = s.chars();
    let mut v: Vec<char> = Vec::new();
    loop
        invariant
            v@ + it.remaining() == s@,
            it.decrease() is Some,
        ensures
            v@ == s@,
        decreases it.decrease()->0,
    {
        match it.next() {
            Some(c) => {
                v.push(c);
            },
            None => {
                break;
            },
        }
    }
    v
}

/// Calls `String::push`, which appends one character.
#[verifier::external_body]
pub(crate) fn push_char(s: &mut String, c: char)
    ensures
        final(s)@ == old(s)@.push(c),
{
    s.push(c)
}

/// Whether every character of a text is ASCII.
pub open spec fn all_ascii(s: Seq<char>) -> bool {
    forall|i: int| 0 <= i < s.len() ==> (s[i] as u32) < 128
}

/// The lower case of an ASCII character: `A` to `Z` become `a` to `z`, the
/// others stay.
pub open spec fn ascii_lower_char(c: char) -> char {
    if 'A' <= c <= 'Z' {
        ((c as int) + 32) as char
    } else {
        c
    }
}

/// The upper case of an ASCII character: `a` to `z` become `A` to `Z`, the
/// others stay.
pub open spec fn ascii_upper_char(c: char) -> char {
    if 'a' <= c <= 'z' {
        ((c as int) - 32) as char
    } else {
        c
    }
}

/// Calls `str::to_lowercase`; its result is named `lowercase` of the argument.
/// As std documents the Unicode lower-case mapping, a text of ASCII characters
/// (the empty text among them) is lowered character by character, `A` to `Z`
/// becoming `a` to `z`; what other characters give is left to the name.
#[verifier::external_body]
pub(crate) fn to_lower(s: &str) -> (r: String)
    ensures
        r@ == lowercase(s@),
        all_ascii(s@) ==> r@ == Seq::new(s@.len(), |i: int| ascii_lower_char(s@[i])),
{
    s.to_lowercase()
}

/// Calls `char::to_uppercase` and collects what it yields; the result is named
/// `uppercase_char` of the argument. As std documents it, an ASCII letter `a`
/// to `z` gives `A` to `Z`, and another ASCII character, which has no
/// upper-case mapping, gives itself; what other characters give is left to the
/// name.
#[verifier::external_body]
pub(crate) fn upper_char(c: char) -> (r: String)
    ensures
        r@ == uppercase_char(c),
        (c as u32) < 128 ==> r@ == seq![ascii_upper_char(c)],
{
    c.to_uppercase().collect()
}

/// A string with the given characters.
pub fn string_of(v: &[char]) -> (r: String)
    ensures
        r@ == v@,
{
    let mut r = String::new();
    let mut i: usize = 0;
    while i < v.len()
        invariant
            i <= v.len(),
            r@ == v@.take(i as int),
        decreases v.len() - i,
    {
        push_char(&mut r, v[i]);
        assert(v@.take(i + 1) =~= v@.take(i as int).push(v@[i as int]));
        i = i + 1;
    }
    assert(v@.take(v.len() as int) =~= v@);
    r
}

/// Appends a string to a list of characters.
pub fn append_str(out: &mut Vec<char>, s: &str)
    ensures
        final(out)@ == old(out)@ + s@,
{
    let cs = chars_of(s);
    let ghost start = out@;
    let mut i: usize = 0;
    while i < cs.len()
        invariant
            i <= cs.len(),
            cs@ == s@,
            out@ == start + cs@.take(i as int),
        decreases cs.len() - i,
    {
        out.push(cs[i]);
        assert(cs@.take(i + 1) =~= cs@.take(i as int).push(cs@[i as int]));
        i = i + 1;
    }
    assert(cs@.take(cs.len() as int) =~= cs@);
}

/// The concatenation of two strings.
pub fn concat2(a: &str, b: &str) -> (r: String)
    ensures
        r@ == a@ + b@,
{
    let mut r = String::from_str(a);
    r.append(b);
    r
}

/// The concatenation of three strings.
pub fn concat3(a: &str, b: &str, c: &str) -> (r: String)
    ensures
        r@ == a@ + b@ + c@,
{
    let mut r = String::from_str(a);
    r.append(b);
    r.append(c);
    r
}

/// Whether a character is white space in the sense of Unicode's `White_Space`
/// property, which `char::is_whitespace` follows.
pub open spec fn is_white_space(c: char) -> bool {
    ||| '\t' <= c <= '\r'
    ||| c == ' '
    ||| c == '\u{85}'
    ||| c == '\u{a0}'
    ||| c == '\u{1680}'
    ||| '\u{2000}' <= c <= '\u{200a}'
    ||| c == '\u{2028}'
    ||| c == '\u{2029}'
    ||| c == '\u{202f}'
    ||| c == '\u{205f}'
    ||| c == '\u{3000}'
}

/// Whether a character is white space.
pub fn is_whitespace(c: char) -> (r: bool)
    ensures
        r == is_white_space(c),
{
    ('\t' <= c && c <= '\r') || c == ' ' || c == '\u{85}' || c == '\u{a0}' || c == '\u{1680}'
        || ('\u{2000}' <= c && c <= '\u{200a}') || c == '\u{2028}' || c == '\u{2029}'
        || c == '\u{202f}' || c == '\u{205f}' || c == '\u{3000}'
}

/// The first position at or after `i` that is not white space, or the length.
pub open spec fn skip_white(s: Seq<char>, i: nat) -> nat
    decreases s.len() - i,
{
    if i < s.len() && is_white_space(s[i as int]) {
        skip_white(s, i + 1)
    } else {
        i
    }
}

/// The length of the prefix `s[..j]` without its trailing white space.
pub open spec fn trim_end_at(s: Seq<char>, j: nat) -> nat
    decreases j,
{
    if 0 < j <= s.len() && is_white_space(s[j - 1]) {
        trim_end_at(s, (j - 1) as nat)
    } else {
        j
    }
}

/// A string without its leading and trailing white space, as `str::trim` gives it.
pub open spec fn trimmed(s: Seq<char>) -> Seq<char> {
    let a = skip_white(s, 0);
    let b = trim_end_at(s, s.len());
    if b <= a {
        Seq::empty()
    } else {
        s.subrange(a as int, b as int)
    }
}

proof fn lemma_skip_white(s: Seq<char>, i: nat)
    requires
        i <= s.len(),
    ensures
        i <= skip_white(s, i) <= s.len(),
    decreases s.len() - i,
{
    if i < s.len() && is_white_space(s[i as int]) {
        lemma_skip_white(s, i + 1);
    }
}

proof fn lemma_trim_end(s: Seq<char>, j: nat)
    requires
        j <= s.len(),
    ensures
        trim_end_at(s, j) <= j,
    decreases j,
{
    if 0 < j && is_white_space(s[j - 1]) {
        lemma_trim_end(s, (j - 1) as nat);
    }
}

/// The characters of `s` without leading and trailing white space.
pub fn trim_chars(s: &[char]) -> (r: Vec<char>)
    ensures
        r@ == trimmed(s@),
{
    let mut a: usize = 0;
    while a < s.len() && is_whitespace(s[a])
        invariant
            a <= s.len(),
            skip_white(s@, 0) == skip_white(s@, a as nat),
        decreases s.len() - a,
    {
        a = a + 1;
    }
    let mut b: usize = s.len();
    while b > 0 && is_whitespace(s[b - 1])
        invariant
            b <= s.len(),
            trim_end_at(s@, s@.len()) == trim_end_at(s@, b as nat),
        decreases b,
    {
        b = b - 1;
    }
    let mut r: Vec<char> = Vec::new();
    if b <= a {
        return r;
    }
    let mut i: usize = a;
    while i < b
        invariant
            a <= i <= b <= s.len(),
            r@ == s@.subrange(a as int, i as int),
        decreases b - i,
    {
        r.push(s[i]);
        assert(s@.subrange(a as int, i + 1) =~= s@.subrange(a as int, i as int).push(s@[i as int]));
        i = i + 1;
    }
    r
}

/// Whether `n` occurs in `h` as a run of consecutive characters.
pub open spec fn has_substring(h: Seq<char>, n: Seq<char>) -> bool {
    exists|i: int| 0 <= i && i + n.len() <= h.len() && #[trigger] h.subrange(i, i + n.len()) == n
}

fn matches_at(h: &[char], n: &[char], i: usize) -> (r: bool)
    requires
        i + n@.len() <= h@.len(),
    ensures
        r == (h@.subrange(i as int, i + n@.len()) == n@),
{
    let mut k: usize = 0;
    while k < n.len()
        invariant
            k <= n.len(),
            i + n@.len() <= h@.len(),
            forall|m: int| 0 <= m < k ==> h@[i + m] == n@[m],
        decreases n.len() - k,
    {
        let hl = h.len();
        assert(i + k < hl);
        if h[i + k] != n[k] {
            assert(h@.subrange(i as int, i + n@.len())[k as int] != n@[k as int]);
            return false;
        }
        k = k + 1;
    }
    assert(h@.subrange(i as int, i + n@.len()) =~= n@);
    true
}

/// Whether `n` occurs in `h`.
pub fn contains_chars(h: &[char], n: &[char]) -> (r: bool)
    ensures
        r == has_substring(h@, n@),
{
    if n.len() > h.len() {
        return false;
    }
    let last = h.len() - n.len();
    let mut i: usize = 0;
    loop
        invariant
            last == h@.len() - n@.len(),
            i <= last,
            forall|j: int| 0 <= j < i ==> #[trigger] h@.subrange(j, j + n@.len()) != n@,
        decreases last - i,
    {
        if matches_at(h, n, i) {
            return true;
        }
        if i == last {
            assert(forall|j: int| 0 <= j && j + n@.len() <= h@.len() ==> #[trigger] h@.subrange(j, j + n@.len()) != n@);
            return false;
        }
        i = i + 1;
    }
}

/// Whether the string `n` occurs in the string `h`.
pub fn contains_str(h: &str, n: &str) -> (r: bool)
    ensures
        r == has_substring(h@, n@),
{
    let hc = chars_of(h);
    let nc = chars_of(n);
    contains_chars(&hc, &nc)
}

/// Whether `s` begins with `p`.
pub fn starts_with_chars(s: &[char], p: &[char]) -> (r: bool)
    ensures
        r == p@.is_prefix_of(s@),
{
    if p.len() > s.len() {
        return false;
    }
    let r = matches_at(s, p, 0);
    assert(r == (s@.subrange(0, p@.len() as int) == p@));
    r
}

/// Whether `s` ends with `p`.
pub fn ends_with_chars(s: &[char], p: &[char]) -> (r: bool)
    ensures
        r == p@.is_suffix_of(s@),
{
    if p.len() > s.len() {
        return false;
    }
    matches_at(s, p, s.len() - p.len())
}

/// A string with each underscore doubled, so that a menu shows it instead of
/// reading it as a mnemonic marker.
pub open spec fn escape_underscores(s: Seq<char>) -> Seq<char>
    decreases s.len(),
{
    if s.len() == 0 {
        Seq::empty()
    } else if s.last() == '_' {
        escape_underscores(s.drop_last()) + seq!['_', '_']
    } else {
        escape_underscores(s.drop_last()).push(s.last())
    }
}

/// The string with each underscore doubled.
pub fn escape_mnemonics(s: &str) -> (r: String)
    ensures
        r@ == escape_underscores(s@),
{
    let cs = chars_of(s);
    let mut out: Vec<char> = Vec::new();
    let mut i: usize = 0;
    while i < cs.len()
        invariant
            i <= cs.len(),
            cs@ == s@,
            out@ == escape_underscores(cs@.take(i as int)),
        decreases cs.len() - i,
    {
        assert(cs@.take(i + 1).drop_last() =~= cs@.take(i as int));
        if cs[i] == '_' {
            out.push('_');
            out.push('_');
            assert(out@ =~= escape_underscores(cs@.take(i as int)) + seq!['_', '_']);
        } else {
            out.push(cs[i]);
        }
        i = i + 1;
    }
    assert(cs@.take(cs.len() as int) =~= cs@);
    string_of(&out)
}

/// A string padded with spaces on the right to at least `width` characters, as
/// the format `{:<width}` lays it out.
pub open spec fn padded_right(s: Seq<char>, width: nat) -> Seq<char> {
    if s.len() >= width {
        s
    } else {
        s + Seq::new((width - s.len()) as nat, |i: int| ' ')
    }
}

/// Appends `s` padded with spaces to at least `width` characters.
pub fn append_padded(out: &mut Vec<char>, s: &str, width: usize)
    ensures
        final(out)@ == old(out)@ + padded_right(s@, width as nat),
{
    let ghost start = out@;
    let cs = chars_of(s);
    append_str(out, s);
    let mut n: usize = cs.len();
    let ghost mid = out@;
    while n < width
        invariant
            cs@ == s@,
            cs@.len() <= n <= width || (n == cs@.len() && n >= width),
            mid == start + s@,
            out@ == mid + Seq::new((n - cs@.len()) as nat, |i: int| ' '),
        decreases width - n,
    {
        out.push(' ');
        assert(Seq::new((n + 1 - cs@.len()) as nat, |i: int| ' ') =~= Seq::new((n - cs@.len()) as nat, |i: int| ' ').push(' '));
        n = n + 1;
    }
    if cs.len() >= width {
        assert(out@ =~= start + s@);
    } else {
        assert(out@ =~= start + padded_right(s@, width as nat));
    }
}

/// The decimal digit character for a digit value below ten.
pub open spec fn digit_char(d: nat) -> char {
    if d == 0 { '0' } else if d == 1 { '1' } else if d == 2 { '2' } else if d == 3 { '3' }
    else if d == 4 { '4' } else if d == 5 { '5' } else if d == 6 { '6' } else if d == 7 { '7' }
    else if d == 8 { '8' } else { '9' }
}

/// The decimal representation of a number, as `Display` writes it.
pub open spec fn decimal(n: nat) -> Seq<char>
    decreases n,
{
    if n < 10 {
        seq![digit_char(n)]
    } else {
        decimal(n / 10).push(digit_char(n % 10))
    }
}

fn digit(d: usize) -> (c: char)
    requires
        d < 10,
    ensures
        c == digit_char(d as nat),
{
    match d {
        0 => '0',
        1 => '1',
        2 => '2',
        3 => '3',
        4 => '4',
        5 => '5',
        6 => '6',
        7 => '7',
        8 => '8',
        _ => '9',
    }
}

/// Appends the decimal representation of `n`.
pub fn append_decimal(out: &mut Vec<char>, n: usize)
    ensures
        final(out)@ == old(out)@ + decimal(n as nat),
    decreases n,
{
    if n >= 10 {
        append_decimal(out, n / 10);
    }
    out.push(digit(n % 10));
}

/// Whether two strings have the same characters.
pub fn str_eq(a: &str, b: &str) -> (r: bool)
    ensures
        r == (a@ == b@),
{
    let x = String::from_str(a);
    let y = String::from_str(b);
    x == y
}

/// The first `n` characters of a string, or all of them when it is shorter.
pub fn first_chars(s: &str, n: usize) -> (r: String)
    ensures
        r@ == s@.take(if s@.len() < n { s@.len() as int } else { n as int }),
{
    let cs = chars_of(s);
    let m = if cs.len() < n { cs.len() } else { n };
    let mut out: Vec<char> = Vec::new();
    let mut i: usize = 0;
    while i < m
        invariant
            i <= m <= cs@.len(),
            cs@ == s@,
            out@ == cs@.take(i as int),
        decreases m - i,
    {
        out.push(cs[i]);
        assert(cs@.take(i + 1) =~= cs@.take(i as int).push(cs@[i as int]));
        i = i + 1;
    }
    string_of(&out)
}

/// The position of the first occurrence of `pat` at or after `i`, or -1.
pub open spec fn find_from(s: Seq<char>, pat: Seq<char>, i: nat) -> int
    decreases s.len() + 1 - i,
{
    if i + pat.len() > s.len() {
        -1
    } else if s.subrange(i as int, (i + pat.len()) as int) == pat {
        i as int
    } else {
        find_from(s, pat, i + 1)
    }
}

/// The text before the first occurrence of `pat`, or the whole text when `pat`
/// does not occur: the first piece of `split(pat)`.
pub open spec fn before_first(s: Seq<char>, pat: Seq<char>) -> Seq<char> {
    let k = find_from(s, pat, 0);
    if k >= 0 { s.take(k) } else { s }
}

proof fn lemma_find_from(s: Seq<char>, pat: Seq<char>, i: nat)
    ensures
        find_from(s, pat, i) == -1 || (i <= find_from(s, pat, i) && find_from(s, pat, i) + pat.len() <= s.len()),
    decreases s.len() + 1 - i,
{
    if i + pat.len() <= s.len() && s.subrange(i as int, (i + pat.len()) as int) != pat {
        lemma_find_from(s, pat, i + 1);
    }
}

fn find_pattern(cs: &[char], pc: &[char]) -> (r: Option<usize>)
    ensures
        r matches Some(k) ==> k as int == find_from(cs@, pc@, 0),
        r is None ==> find_from(cs@, pc@, 0) == -1,
{
    if pc.len() > cs.len() {
        return None;
    }
    let last = cs.len() - pc.len();
    let mut i: usize = 0;
    loop
        invariant
            last == cs@.len() - pc@.len(),
            i <= last,
            find_from(cs@, pc@, 0) == find_from(cs@, pc@, i as nat),
        decreases last - i,
    {
        if matches_at(cs, pc, i) {
            return Some(i);
        }
        if i == last {
            assert(find_from(cs@, pc@, (i + 1) as nat) == -1);
            return None;
        }
        i = i + 1;
    }
}

/// The first piece of a string split at `pat`.
pub fn split_first(s: &str, pat: &str) -> (r: String)
    ensures
        r@ == before_first(s@, pat@),
{
    let cs = chars_of(s);
    let pc = chars_of(pat);
    proof {
        lemma_find_from(s@, pat@, 0);
    }
    match find_pattern(&cs, &pc) {
        Some(k) => {
            let mut out: Vec<char> = Vec::new();
            let mut j: usize = 0;
            while j < k
                invariant
                    j <= k <= cs@.len(),
                    out@ == cs@.take(j as int),
                decreases k - j,
            {
                out.push(cs[j]);
                assert(cs@.take(j + 1) =~= cs@.take(j as int).push(cs@[j as int]));
                j = j + 1;
            }
            string_of(&out)
        },
        None => String::from_str(s),
    }
}

} // verus!
