//! Windows path normalization, classification and shortening.

use vstd::prelude::*;
use crate::text::{
    ascii_lower, concat_chars, find_chars, first_occurrence, is_ascii_upper, occurs_at, lower_chars, sub_chars, to_ascii_lower,
    chars_of, contains_chars, contains_seq, ends_with, ends_with_chars, eq_chars, replace_char,
    replace_char_chars, starts_with, starts_with_chars, string_of, to_ascii_upper, upper_chars,
};

verus! {

/// Runs of consecutive backslashes collapsed into one.
pub open spec fn collapse_backslashes(s: Seq<char>) -> Seq<char>
    decreases s.len(),
{
    if s.len() == 0 {
        s
    } else {
        let t = collapse_backslashes(s.drop_last());
        if s.last() == '\\' && t.len() > 0 && t.last() == '\\' {
            t
        } else {
            t.push(s.last())
        }
    }
}

/// A path with every `/` turned into `\` and doubled separators collapsed.
pub open spec fn normalized_windows_path(s: Seq<char>) -> Seq<char> {
    collapse_backslashes(replace_char(s, '/', '\\'))
}

/// Forward slashes become backslashes and repeated backslashes are collapsed,
/// so that equal Windows paths compare equal as strings.
pub fn normalize_windows_path(path: &str) -> (out: String)
    ensures
        out@ == normalized_windows_path(path@),
{
    let v = normalize_windows_chars(&chars_of(path));
    string_of(&v)
}

pub fn normalize_windows_chars(path: &Vec<char>) -> (out: Vec<char>)
    ensures
        out@ == normalized_windows_path(path@),
{
    let s = replace_char_chars(path, '/', '\\');
    let mut out: Vec<char> = Vec::new();
    let n = s.len();
    for i in 0..n
        invariant
            n == s.len(),
            out@ == collapse_backslashes(s@.take(i as int)),
    {
        let c = s[i];
        assert(s@.take(i + 1).drop_last() == s@.take(i as int));
        if !(c == '\\' && out.len() > 0 && out[out.len() - 1] == '\\') {
            out.push(c);
        }
    }
    assert(s@.take(n as int) == s@);
    out
}

/// No two backslashes stand side by side.
pub open spec fn no_doubled_backslash(s: Seq<char>) -> bool {
    forall|i: int| 0 <= i < s.len() - 1 ==> !(#[trigger] s[i] == '\\' && s[i + 1] == '\\')
}

proof fn lemma_collapse_props(s: Seq<char>)
    ensures
        no_doubled_backslash(collapse_backslashes(s)),
        no_doubled_backslash(s) ==> collapse_backslashes(s) == s,
        collapse_backslashes(s).len() <= s.len(),
        s.len() > 0 ==> collapse_backslashes(s).len() > 0 && collapse_backslashes(s).last() == s.last(),
        forall|c: char| #[trigger] collapse_backslashes(s).contains(c) ==> s.contains(c),
    decreases s.len(),
{
    if s.len() > 0 {
        let p = s.drop_last();
        lemma_collapse_props(p);
        let t = collapse_backslashes(p);
        if no_doubled_backslash(s) {
            assert(no_doubled_backslash(p)) by {
                assert forall|i: int| 0 <= i < p.len() - 1 implies !(#[trigger] p[i] == '\\' && p[i + 1] == '\\') by {
                    assert(p[i] == s[i] && p[i + 1] == s[i + 1]);
                }
            }
            if p.len() > 0 {
                assert(s[p.len() - 1] == p.last());
            }
            assert(s == p.push(s.last()));
        }
        let r = collapse_backslashes(s);
        assert forall|c: char| #[trigger] r.contains(c) implies s.contains(c) by {
            let k = choose|k: int| 0 <= k < r.len() && r[k] == c;
            if k < t.len() {
                assert(t.contains(c));
                let m = choose|m: int| 0 <= m < p.len() && p[m] == c;
                assert(s[m] == c);
            } else {
                assert(s[s.len() - 1] == c);
            }
        }
    }
}

/// Normalizing twice gives what normalizing once gave, and a normalized path
/// holds no `/` and no doubled `\`.
pub proof fn law_normalize_windows_path_idempotent(s: Seq<char>)
    ensures
        normalized_windows_path(normalized_windows_path(s)) == normalized_windows_path(s),
        no_doubled_backslash(normalized_windows_path(s)),
        !normalized_windows_path(s).contains('/'),
{
    let r = replace_char(s, '/', '\\');
    let n = collapse_backslashes(r);
    lemma_collapse_props(r);
    assert(!r.contains('/')) by {
        if r.contains('/') {
            let k = choose|k: int| 0 <= k < r.len() && r[k] == '/';
            assert(r[k] == (if s[k] == '/' { '\\' } else { s[k] }));
        }
    }
    assert(!n.contains('/'));
    assert(replace_char(n, '/', '\\') =~= n) by {
        assert forall|k: int| 0 <= k < n.len() implies replace_char(n, '/', '\\')[k] == n[k] by {
            if n[k] == '/' {
                assert(n.contains('/'));
            }
        }
    }
    lemma_collapse_props(n);
}

/// The size category of a file, from where its path lies.
pub open spec fn category_of(path: Seq<char>) -> Seq<char> {
    let upper = to_ascii_upper(normalized_windows_path(path));
    if starts_with(upper, "C:\\WINDOWS\\"@) || upper == "C:\\WINDOWS"@ {
        "system"@
    } else if starts_with(upper, "C:\\PROGRAM FILES\\"@) || starts_with(upper, "C:\\PROGRAM FILES (X86)\\"@) {
        "program"@
    } else if contains_seq(upper, "\\DOCUMENTS\\"@) || contains_seq(upper, "\\PICTURES\\"@)
        || contains_seq(upper, "\\VIDEOS\\"@) {
        "user_doc"@
    } else if contains_seq(upper, "\\TEMP\\"@) || contains_seq(upper, "\\CACHE\\"@)
        || contains_seq(upper, "\\APPDATA\\LOCAL\\TEMP\\"@) {
        "cache_temp"@
    } else if contains_seq(upper, "\\DOWNLOADS\\"@) {
        "download"@
    } else {
        "other"@
    }
}

/// The category (`system`, `program`, `user_doc`, `cache_temp`, `download`,
/// `other`) a file's size counts towards.
pub fn classify_path(path: &str) -> (code: &'static str)
    ensures
        code@ == category_of(path@),
{
    let upper = upper_chars(&normalize_windows_chars(&chars_of(path)));
    if starts_with_chars(&upper, &chars_of("C:\\WINDOWS\\")) || eq_chars(&upper, &chars_of("C:\\WINDOWS")) {
        "system"
    } else if starts_with_chars(&upper, &chars_of("C:\\PROGRAM FILES\\"))
        || starts_with_chars(&upper, &chars_of("C:\\PROGRAM FILES (X86)\\")) {
        "program"
    } else if contains_chars(&upper, &chars_of("\\DOCUMENTS\\"))
        || contains_chars(&upper, &chars_of("\\PICTURES\\"))
        || contains_chars(&upper, &chars_of("\\VIDEOS\\")) {
        "user_doc"
    } else if contains_chars(&upper, &chars_of("\\TEMP\\"))
        || contains_chars(&upper, &chars_of("\\CACHE\\"))
        || contains_chars(&upper, &chars_of("\\APPDATA\\LOCAL\\TEMP\\")) {
        "cache_temp"
    } else if contains_chars(&upper, &chars_of("\\DOWNLOADS\\")) {
        "download"
    } else {
        "other"
    }
}

/// A normalized index path; a bare drive such as `D:` gets its root `\`.
pub open spec fn index_path(path: Seq<char>) -> Seq<char> {
    let n = normalized_windows_path(path);
    if n.len() == 2 && n[1] == ':' && (n[0] as u32) < 0x80 { n.push('\\') } else { n }
}

/// The path under which the index stores a directory given by the user.
pub fn normalize_index_path(path: &str) -> (out: String)
    ensures
        out@ == index_path(path@),
{
    let mut n = normalize_windows_chars(&chars_of(path));
    if n.len() == 2 && n[1] == ':' && (n[0] as u32) < 0x80 {
        n.push('\\');
    }
    string_of(&n)
}

/// The prefix that a scope query matches under: the index path, `C:\` when
/// empty, and always ending with `\`.
pub open spec fn scope_prefix(scope: Seq<char>) -> Seq<char> {
    let p = index_path(scope);
    let q = if p.len() == 0 { "C:\\"@ } else { p };
    if ends_with(q, "\\"@) { q } else { q.push('\\') }
}

pub fn normalize_scope(scope_path: &str) -> (out: String)
    ensures
        out@ == scope_prefix(scope_path@),
{
    let mut n = normalize_windows_chars(&chars_of(scope_path));
    if n.len() == 2 && n[1] == ':' && (n[0] as u32) < 0x80 {
        n.push('\\');
    }
    if n.len() == 0 {
        n = chars_of("C:\\");
    }
    if !ends_with_chars(&n, &chars_of("\\")) {
        n.push('\\');
    }
    string_of(&n)
}

/// The number of non-empty `\`-separated parts of `s`.
pub open spec fn segment_count(s: Seq<char>) -> nat
    decreases s.len(),
{
    if s.len() == 0 {
        0
    } else {
        segment_count(s.drop_last()) + if s.last() != '\\' && (s.len() == 1 || s[s.len() - 2] == '\\') {
            1nat
        } else {
            0nat
        }
    }
}

/// How many levels below `root` a path lies: 0 for the root itself, the
/// number of path components below it for a path inside it, and
/// `usize::MAX` for a path outside it.
pub open spec fn depth_below(path: Seq<char>, root: Seq<char>) -> int {
    let p = normalized_windows_path(path);
    let r = normalized_windows_path(root);
    if p == r {
        0
    } else if !starts_with(p, r) {
        usize::MAX as int
    } else {
        segment_count(p.skip(r.len() as int)) as int
    }
}

pub fn depth_from_root(path: &str, scan_root: &str) -> (d: usize)
    ensures
        d as int == depth_below(path@, scan_root@),
{
    let p = normalize_windows_chars(&chars_of(path));
    let r = normalize_windows_chars(&chars_of(scan_root));
    if eq_chars(&p, &r) {
        return 0;
    }
    if !starts_with_chars(&p, &r) {
        return usize::MAX;
    }
    let ghost suffix = p@.skip(r@.len() as int);
    let mut count: usize = 0;
    let mut i: usize = r.len();
    while i < p.len()
        invariant
            r@.len() <= i <= p@.len(),
            suffix == p@.skip(r@.len() as int),
            count as int == segment_count(suffix.take(i - r@.len())),
            count <= i - r@.len(),
        decreases p.len() - i,
    {
        let k: usize = i - r.len();
        proof {
            let t = suffix.take(k + 1);
            assert(t.drop_last() == suffix.take(k as int));
            assert(t.last() == p@[i as int]);
            if k > 0 {
                assert(t[t.len() - 2] == p@[i - 1]);
            }
        }
        if p[i] != '\\' && (k == 0 || p[i - 1] == '\\') {
            count += 1;
        }
        i += 1;
    }
    assert(suffix.take(suffix.len() as int) == suffix);
    count
}


/// The number of bytes that `c` takes in UTF-8.
pub open spec fn utf8_width(c: char) -> nat {
    if (c as u32) < 0x80 {
        1
    } else if (c as u32) < 0x800 {
        2
    } else if (c as u32) < 0x10000 {
        3
    } else {
        4
    }
}

/// The number of bytes that `s` takes in UTF-8.
pub open spec fn utf8_len(s: Seq<char>) -> nat
    decreases s.len(),
{
    if s.len() == 0 { 0 } else { utf8_len(s.drop_last()) + utf8_width(s.last()) }
}

/// Byte offset `b` of `s` falls between two characters.
pub open spec fn byte_boundary(s: Seq<char>, b: int) -> bool {
    exists|k: int| 0 <= k <= s.len() && utf8_len(s.take(k)) == b
}

/// The path with `/` turned into `\` and the user name after the first
/// `\Users\` (matched without regard to ASCII case) replaced by `{user}`.
pub open spec fn user_masked(path: Seq<char>) -> Seq<char> {
    let n = replace_char(path, '/', '\\');
    let lower = to_ascii_lower(n);
    if contains_seq(lower, "\\users\\"@) {
        let i = choose|i: int| first_occurrence(lower, "\\users\\"@, i);
        let a = i + 7;
        let rest = n.skip(a);
        if a < n.len() && contains_seq(rest, "\\"@) {
            let j = choose|j: int| first_occurrence(rest, "\\"@, j);
            n.take(a) + "{user}"@ + n.skip(a + j)
        } else {
            n
        }
    } else {
        n
    }
}

/// The masked path, shortened to its first 60 and last 40 bytes around
/// `...` when it is longer than 120 bytes.
pub open spec fn desensitized(path: Seq<char>) -> Seq<char> {
    let r = user_masked(path);
    if utf8_len(r) > 120 {
        let h = choose|k: int| 0 <= k <= r.len() && utf8_len(r.take(k)) == 60;
        let t = choose|k: int| 0 <= k <= r.len() && utf8_len(r.take(k)) == utf8_len(r) - 40;
        r.take(h) + "..."@ + r.skip(t)
    } else {
        r
    }
}

/// The cut points of a long masked path fall between characters (slicing a
/// string elsewhere would panic).
pub open spec fn desensitize_defined(path: Seq<char>) -> bool {
    let r = user_masked(path);
    utf8_len(r) <= 120 || (byte_boundary(r, 60) && byte_boundary(r, utf8_len(r) - 40))
}

pub fn utf8_width_of(c: char) -> (w: usize)
    ensures
        w as nat == utf8_width(c),
{
    let u = c as u32;
    if u < 0x80 {
        1
    } else if u < 0x800 {
        2
    } else if u < 0x10000 {
        3
    } else {
        4
    }
}

proof fn lemma_utf8_take_step(s: Seq<char>, k: int)
    requires
        0 <= k < s.len(),
    ensures
        utf8_len(s.take(k + 1)) == utf8_len(s.take(k)) + utf8_width(s[k]),
{
    assert(s.take(k + 1).drop_last() == s.take(k));
}

proof fn lemma_utf8_monotone(s: Seq<char>, k1: int, k2: int)
    requires
        0 <= k1 < k2 <= s.len(),
    ensures
        utf8_len(s.take(k1)) < utf8_len(s.take(k2)),
    decreases k2 - k1,
{
    lemma_utf8_take_step(s, k2 - 1);
    if k1 < k2 - 1 {
        lemma_utf8_monotone(s, k1, k2 - 1);
    }
}

proof fn lemma_utf8_split(s: Seq<char>, k: int)
    requires
        0 <= k <= s.len(),
    ensures
        utf8_len(s) == utf8_len(s.take(k)) + utf8_len(s.skip(k)),
    decreases s.len(),
{
    if k == s.len() {
        assert(s.take(k) == s);
        assert(s.skip(k).len() == 0);
    } else {
        let p = s.drop_last();
        lemma_utf8_split(p, k);
        assert(p.take(k) == s.take(k));
        assert(s.skip(k).drop_last() == p.skip(k));
        assert(s.skip(k).last() == s.last());
    }
}

proof fn lemma_first_unique(s: Seq<char>, p: Seq<char>, i: int, j: int)
    requires
        first_occurrence(s, p, i),
        first_occurrence(s, p, j),
    ensures
        i == j,
{
    if i < j {
        assert(!crate::text::occurs_at(s, p, i));
    } else if j < i {
        assert(!crate::text::occurs_at(s, p, j));
    }
}

fn mask_user(path: &str) -> (r: Vec<char>)
    ensures
        r@ == user_masked(path@),
{
    let n = replace_char_chars(&chars_of(path), '/', '\\');
    let lower = lower_chars(&n);
    let pat = chars_of("\\users\\");
    proof {
        reveal_strlit("\\users\\");
        reveal_strlit("\\");
    }
    match find_chars(&lower, &pat) {
        Some(i) => {
            proof {
                let c = choose|i: int| first_occurrence(lower@, "\\users\\"@, i);
                lemma_first_unique(lower@, pat@, i as int, c);
            }
            assert(pat@.len() == 7);
            assert(lower@.len() == n@.len());
            assert(crate::text::occurs_at(lower@, pat@, i as int));
            assert(i + 7 <= lower.len());
            let a = i + 7;
            if a < n.len() {
                let rest = sub_chars(&n, a, n.len());
                assert(rest@ == n@.skip(a as int));
                match find_chars(&rest, &chars_of("\\")) {
                    Some(j) => {
                        proof {
                            let c = choose|j: int| first_occurrence(rest@, "\\"@, j);
                            lemma_first_unique(rest@, "\\"@, j as int, c);
                        }
                        let head = sub_chars(&n, 0, a);
                        let tail = sub_chars(&n, a + j, n.len());
                        assert(head@ == n@.take(a as int));
                        assert(tail@ == n@.skip(a + j));
                        concat_chars(&concat_chars(&head, &chars_of("{user}")), &tail)
                    },
                    None => n,
                }
            } else {
                n
            }
        },
        None => n,
    }
}

/// Whether the characters take more than 120 bytes in UTF-8.
fn longer_than_120_bytes(r: &Vec<char>) -> (b: bool)
    ensures
        b == (utf8_len(r@) > 120),
{
    let ghost rs = r@;
    let n = r.len();
    let mut acc: usize = 0;
    let mut k: usize = 0;
    while k < n && acc <= 120
        invariant
            n == r.len(),
            rs == r@,
            k <= n,
            acc as int == utf8_len(rs.take(k as int)),
            acc <= 124,
        decreases n - k,
    {
        proof {
            lemma_utf8_take_step(rs, k as int);
        }
        acc += utf8_width_of(r[k]);
        k += 1;
    }
    proof {
        assert(rs.take(n as int) == rs);
        if k < n {
            lemma_utf8_monotone(rs, k as int, n as int);
        }
    }
    acc > 120
}

/// The character index at which the first 60 bytes end.
fn head_cut(r: &Vec<char>) -> (h: usize)
    requires
        utf8_len(r@) > 120,
        byte_boundary(r@, 60),
    ensures
        h <= r.len(),
        utf8_len(r@.take(h as int)) == 60,
{
    let ghost rs = r@;
    let n = r.len();
    let mut h: usize = 0;
    let mut hacc: usize = 0;
    assert(rs.take(0) =~= Seq::<char>::empty());
    while hacc < 60
        invariant
            n == r.len(),
            rs == r@,
            utf8_len(rs) > 120,
            h <= n,
            hacc as int == utf8_len(rs.take(h as int)),
            h > 0 ==> utf8_len(rs.take(h - 1)) < 60,
            hacc <= 63,
        decreases n - h,
    {
        proof {
            assert(rs.take(n as int) == rs);
            if h == n {
                assert(false);
            }
            lemma_utf8_take_step(rs, h as int);
        }
        hacc += utf8_width_of(r[h]);
        h += 1;
    }
    proof {
        let kk = choose|kk: int| 0 <= kk <= rs.len() && utf8_len(rs.take(kk)) == 60;
        if kk < h as int - 1 {
            lemma_utf8_monotone(rs, kk, h - 1);
        } else if kk > h as int {
            lemma_utf8_monotone(rs, h as int, kk);
        }
    }
    h
}

/// The character index at which the last 40 bytes begin.
fn tail_cut(r: &Vec<char>) -> (t: usize)
    requires
        utf8_len(r@) > 120,
        byte_boundary(r@, utf8_len(r@) - 40),
    ensures
        t <= r.len(),
        utf8_len(r@.take(t as int)) == utf8_len(r@) - 40,
{
    let ghost rs = r@;
    let n = r.len();
    let mut t: usize = n;
    let mut tacc: usize = 0;
    proof {
        assert(rs.skip(n as int).len() == 0);
    }
    while tacc < 40
        invariant
            n == r.len(),
            rs == r@,
            utf8_len(rs) > 120,
            t <= n,
            tacc as int == utf8_len(rs.skip(t as int)),
            t < n ==> utf8_len(rs.skip(t + 1)) < 40,
            tacc <= 43,
        decreases t,
    {
        proof {
            if t == 0 {
                assert(rs.skip(0) == rs);
                assert(false);
            }
            lemma_utf8_split(rs, t as int);
            lemma_utf8_split(rs, t - 1);
            lemma_utf8_take_step(rs, t - 1);
        }
        t -= 1;
        tacc += utf8_width_of(r[t]);
    }
    proof {
        let kk = choose|kk: int| 0 <= kk <= rs.len() && utf8_len(rs.take(kk)) == utf8_len(rs) - 40;
        lemma_utf8_split(rs, t as int);
        lemma_utf8_split(rs, kk);
        if t < n {
            lemma_utf8_split(rs, t + 1);
        }
        if kk < t as int {
            lemma_utf8_monotone(rs, kk, t as int);
        } else if kk > t as int + 1 {
            lemma_utf8_monotone(rs, t + 1, kk);
        }
    }
    t
}

proof fn lemma_cut_unique(s: Seq<char>, k: int, b: int)
    requires
        0 <= k <= s.len(),
        utf8_len(s.take(k)) == b,
    ensures
        (choose|j: int| 0 <= j <= s.len() && utf8_len(s.take(j)) == b) == k,
{
    let j = choose|j: int| 0 <= j <= s.len() && utf8_len(s.take(j)) == b;
    if j < k {
        lemma_utf8_monotone(s, j, k);
    } else if j > k {
        lemma_utf8_monotone(s, k, j);
    }
}

/// A path safe to show to an AI provider: the user name under `\Users\` is
/// replaced by `{user}`, and a path longer than 120 bytes keeps only its first
/// 60 and last 40 bytes around `...`.
pub fn desensitize_path(path: &str) -> (out: String)
    requires
        desensitize_defined(path@),
    ensures
        out@ == desensitized(path@),
{
    let r = mask_user(path);
    if !longer_than_120_bytes(&r) {
        return string_of(&r);
    }
    let h = head_cut(&r);
    let t = tail_cut(&r);
    proof {
        lemma_cut_unique(r@, h as int, 60);
        lemma_cut_unique(r@, t as int, utf8_len(r@) - 40);
    }
    let head = sub_chars(&r, 0, h);
    let tail = sub_chars(&r, t, r.len());
    assert(head@ == r@.take(h as int));
    assert(tail@ == r@.skip(t as int));
    let out = concat_chars(&concat_chars(&head, &chars_of("...")), &tail);
    string_of(&out)
}


/// The character index at which the first 60 bytes end, when there is one.
fn head_cut_checked(r: &Vec<char>) -> (h: Option<usize>)
    requires
        utf8_len(r@) > 120,
    ensures
        h matches Some(k) ==> k <= r.len() && utf8_len(r@.take(k as int)) == 60,
        h is None ==> !byte_boundary(r@, 60),
{
    let ghost rs = r@;
    let n = r.len();
    let mut h: usize = 0;
    let mut hacc: usize = 0;
    assert(rs.take(0) =~= Seq::<char>::empty());
    while hacc < 60
        invariant
            n == r.len(),
            rs == r@,
            utf8_len(rs) > 120,
            h <= n,
            hacc as int == utf8_len(rs.take(h as int)),
            h > 0 ==> utf8_len(rs.take(h - 1)) < 60,
            hacc <= 63,
        decreases n - h,
    {
        proof {
            assert(rs.take(n as int) == rs);
            if h == n {
                assert(false);
            }
            lemma_utf8_take_step(rs, h as int);
        }
        hacc += utf8_width_of(r[h]);
        h += 1;
    }
    if hacc == 60 {
        return Some(h);
    }
    proof {
        if byte_boundary(rs, 60) {
            let kk = choose|kk: int| 0 <= kk <= rs.len() && utf8_len(rs.take(kk)) == 60;
            if kk < h as int - 1 {
                lemma_utf8_monotone(rs, kk, h - 1);
            } else if kk > h as int {
                lemma_utf8_monotone(rs, h as int, kk);
            }
        }
    }
    None
}

/// The character index at which the last 40 bytes begin, when there is one.
fn tail_cut_checked(r: &Vec<char>) -> (t: Option<usize>)
    requires
        utf8_len(r@) > 120,
    ensures
        t matches Some(k) ==> k <= r.len() && utf8_len(r@.take(k as int)) == utf8_len(r@) - 40,
        t is None ==> !byte_boundary(r@, utf8_len(r@) - 40),
{
    let ghost rs = r@;
    let n = r.len();
    let mut t: usize = n;
    let mut tacc: usize = 0;
    proof {
        assert(rs.skip(n as int).len() == 0);
    }
    while tacc < 40
        invariant
            n == r.len(),
            rs == r@,
            utf8_len(rs) > 120,
            t <= n,
            tacc as int == utf8_len(rs.skip(t as int)),
            t < n ==> utf8_len(rs.skip(t + 1)) < 40,
            tacc <= 43,
        decreases t,
    {
        proof {
            if t == 0 {
                assert(rs.skip(0) == rs);
                assert(false);
            }
            lemma_utf8_split(rs, t as int);
            lemma_utf8_split(rs, t - 1);
            lemma_utf8_take_step(rs, t - 1);
        }
        t -= 1;
        tacc += utf8_width_of(r[t]);
    }
    proof {
        lemma_utf8_split(rs, t as int);
        if t < n {
            lemma_utf8_split(rs, t + 1);
        }
    }
    if tacc == 40 {
        return Some(t);
    }
    proof {
        if byte_boundary(rs, utf8_len(rs) - 40) {
            let kk = choose|kk: int| 0 <= kk <= rs.len() && utf8_len(rs.take(kk)) == utf8_len(rs) - 40;
            lemma_utf8_split(rs, kk);
            if kk < t as int {
                lemma_utf8_monotone(rs, kk, t as int);
            } else if kk > t as int + 1 {
                lemma_utf8_monotone(rs, t + 1, kk);
            }
        }
    }
    None
}

proof fn lemma_utf8_concat(a: Seq<char>, b: Seq<char>)
    ensures
        utf8_len(a + b) == utf8_len(a) + utf8_len(b),
{
    lemma_utf8_split(a + b, a.len() as int);
    assert((a + b).take(a.len() as int) == a);
    assert((a + b).skip(a.len() as int) == b);
}

/// A desensitized path never takes more than 120 bytes: a longer masked
/// path keeps 60 + 40 of its bytes around the three dots.
pub proof fn law_desensitized_fits(path: Seq<char>)
    requires
        desensitize_defined(path),
    ensures
        utf8_len(desensitized(path)) <= 120,
        utf8_len(user_masked(path)) > 120 ==> utf8_len(desensitized(path)) == 103,
{
    let r = user_masked(path);
    if utf8_len(r) > 120 {
        let h = choose|k: int| 0 <= k <= r.len() && utf8_len(r.take(k)) == 60;
        let t = choose|k: int| 0 <= k <= r.len() && utf8_len(r.take(k)) == utf8_len(r) - 40;
        let dots = "..."@;
        assert(dots.len() == 3 && dots[0] == '.' && dots[1] == '.' && dots[2] == '.') by {
            reveal_strlit("...");
        }
        assert(utf8_len(dots) == 3) by {
            reveal_with_fuel(utf8_len, 4);
            assert(('.' as u32) < 0x80);
            assert(dots.drop_last().drop_last().drop_last().len() == 0);
            assert(dots.drop_last().drop_last().last() == '.');
            assert(dots.drop_last().last() == '.');
            assert(dots.last() == '.');
        }
        lemma_utf8_split(r, t);
        lemma_utf8_concat(r.take(h), dots);
        lemma_utf8_concat(r.take(h) + dots, r.skip(t));
    }
}

/// [`desensitize_path`] where its cuts fall between characters, and `None`
/// where slicing the text there would panic.
pub fn desensitize_path_checked(path: &str) -> (out: Option<String>)
    ensures
        out is Some <==> desensitize_defined(path@),
        out matches Some(o) ==> o@ == desensitized(path@),
{
    let r = mask_user(path);
    if !longer_than_120_bytes(&r) {
        return Some(string_of(&r));
    }
    let h = match head_cut_checked(&r) {
        Some(h) => h,
        None => return None,
    };
    let t = match tail_cut_checked(&r) {
        Some(t) => t,
        None => return None,
    };
    proof {
        lemma_cut_unique(r@, h as int, 60);
        lemma_cut_unique(r@, t as int, utf8_len(r@) - 40);
    }
    let head = sub_chars(&r, 0, h);
    let tail = sub_chars(&r, t, r.len());
    assert(head@ == r@.take(h as int));
    assert(tail@ == r@.skip(t as int));
    let out = concat_chars(&concat_chars(&head, &chars_of("...")), &tail);
    Some(string_of(&out))
}

/// `part` put below `base`: `base` and `part` with a path separator between
/// them, or none where `base` already ends with one (or is empty or a bare
/// drive).
pub open spec fn joined_below(base: Seq<char>, part: Seq<char>, r: Seq<char>) -> bool {
    r == base + part || r == base + seq!['/'] + part || r == base + seq!['\\'] + part
}

/// A plain relative part: not empty, not `.` or `..`, with no drive colon,
/// and not starting with a separator or `?`.
pub open spec fn plain_part(part: Seq<char>) -> bool {
    &&& part.len() > 0
    &&& part[0] != '/' && part[0] != '\\' && !part.contains(':')
    &&& part != seq!['.'] && part != seq!['.', '.']
    &&& part[0] != '?'
}

/// The text does not start like a Windows verbatim prefix (`\\?\`), under
/// which `Path::join` normalizes what it joins.
pub open spec fn not_verbatim(p: Seq<char>) -> bool {
    !starts_with(p, seq!['\\', '\\', '?'])
}

/// `Path::join` of a plain relative `part`, as text (`to_string_lossy`).
/// Claimed, where `base` does not start like a verbatim prefix: the text is
/// `base`, perhaps a separator (`/` or `\`), then `part`. Which separator the
/// platform uses is not stated; for a verbatim `base` nothing is stated.
#[verifier::external_body]
pub(crate) fn path_join(base: &str, part: &str) -> (r: String)
    requires
        plain_part(part@),
    ensures
        not_verbatim(base@) ==> joined_below(base@, part@, r@),
{
    std::path::Path::new(base).join(part).to_string_lossy().into_owned()
}

/// Joining a plain part below a base that does not start like a verbatim
/// prefix gives one that does not either.
pub proof fn lemma_join_not_verbatim(base: Seq<char>, part: Seq<char>, r: Seq<char>)
    requires
        plain_part(part),
        not_verbatim(base),
        joined_below(base, part, r),
    ensures
        not_verbatim(r),
{
    let v = seq!['\\', '\\', '?'];
    if starts_with(r, v) {
        assert(r.take(3) == v);
        if base.len() >= 3 {
            assert(base.take(3) == r.take(3));
        } else {
            assert(r[0] == v[0] && r[1] == v[1] && r[2] == v[2]);
        }
    }
}

/// Everything under `C:\Program Files\` or `C:\Program Files (x86)\`
/// (in any letter case, with either slash) counts as a program.
pub proof fn law_program_files_are_programs(path: Seq<char>)
    requires
        starts_with(to_ascii_upper(normalized_windows_path(path)), "C:\\PROGRAM FILES\\"@)
            || starts_with(to_ascii_upper(normalized_windows_path(path)), "C:\\PROGRAM FILES (X86)\\"@),
    ensures
        category_of(path) == "program"@,
{
    let upper = to_ascii_upper(normalized_windows_path(path));
    reveal_strlit("C:\\PROGRAM FILES\\");
    reveal_strlit("C:\\PROGRAM FILES (X86)\\");
    reveal_strlit("C:\\WINDOWS\\");
    reveal_strlit("C:\\WINDOWS");
    assert(upper[3] == 'P') by {
        if starts_with(upper, "C:\\PROGRAM FILES\\"@) {
            assert(upper.take(16)[3] == "C:\\PROGRAM FILES\\"@[3]);
        } else {
            assert(upper.take(22)[3] == "C:\\PROGRAM FILES (X86)\\"@[3]);
        }
    }
    assert(!starts_with(upper, "C:\\WINDOWS\\"@)) by {
        if starts_with(upper, "C:\\WINDOWS\\"@) {
            assert(upper.take(11)[3] == "C:\\WINDOWS\\"@[3]);
        }
    }
    assert(upper != "C:\\WINDOWS"@) by {
        if upper == "C:\\WINDOWS"@ {
            assert("C:\\WINDOWS"@[3] == 'W');
        }
    }
}

/// Everything under `C:\Windows\`, and that folder itself (in any letter
/// case, with either slash), counts as the system's.
pub proof fn law_windows_is_system(path: Seq<char>)
    requires
        starts_with(to_ascii_upper(normalized_windows_path(path)), "C:\\WINDOWS\\"@)
            || to_ascii_upper(normalized_windows_path(path)) == "C:\\WINDOWS"@,
    ensures
        category_of(path) == "system"@,
{
}

/// A path under `C:\Users\` (in any letter case, with either slash) lies
/// neither under `C:\Windows` nor under a program folder.
proof fn lemma_users_not_system(upper: Seq<char>)
    requires
        starts_with(upper, "C:\\USERS\\"@),
    ensures
        !starts_with(upper, "C:\\WINDOWS\\"@),
        upper != "C:\\WINDOWS"@,
        !starts_with(upper, "C:\\PROGRAM FILES\\"@),
        !starts_with(upper, "C:\\PROGRAM FILES (X86)\\"@),
{
    reveal_strlit("C:\\USERS\\");
    reveal_strlit("C:\\PROGRAM FILES\\");
    reveal_strlit("C:\\PROGRAM FILES (X86)\\");
    reveal_strlit("C:\\WINDOWS\\");
    reveal_strlit("C:\\WINDOWS");
    assert(upper.take(9)[3] == 'U');
    assert(upper[3] == 'U');
    if starts_with(upper, "C:\\WINDOWS\\"@) {
        assert(upper.take(11)[3] == 'W');
    }
    if starts_with(upper, "C:\\PROGRAM FILES\\"@) {
        assert(upper.take(16)[3] == 'P');
    }
    if starts_with(upper, "C:\\PROGRAM FILES (X86)\\"@) {
        assert(upper.take(22)[3] == 'P');
    }
}

/// In a user's folders: documents, pictures and videos count as user
/// documents; otherwise temp and cache folders as cache; otherwise
/// downloads as downloads.
pub proof fn law_user_folders_categories(path: Seq<char>)
    requires
        starts_with(to_ascii_upper(normalized_windows_path(path)), "C:\\USERS\\"@),
    ensures
        ({
            let upper = to_ascii_upper(normalized_windows_path(path));
            let doc = contains_seq(upper, "\\DOCUMENTS\\"@) || contains_seq(upper, "\\PICTURES\\"@)
                || contains_seq(upper, "\\VIDEOS\\"@);
            let tmp = contains_seq(upper, "\\TEMP\\"@) || contains_seq(upper, "\\CACHE\\"@);
            &&& doc ==> category_of(path) == "user_doc"@
            &&& !doc && tmp ==> category_of(path) == "cache_temp"@
            &&& !doc && !tmp && contains_seq(upper, "\\DOWNLOADS\\"@) ==> category_of(path) == "download"@
        }),
{
    let upper = to_ascii_upper(normalized_windows_path(path));
    lemma_users_not_system(upper);
    if contains_seq(upper, "\\APPDATA\\LOCAL\\TEMP\\"@) {
        reveal_strlit("\\APPDATA\\LOCAL\\TEMP\\");
        reveal_strlit("\\TEMP\\");
        let i = choose|i: int| occurs_at(upper, "\\APPDATA\\LOCAL\\TEMP\\"@, i);
        let pat = "\\APPDATA\\LOCAL\\TEMP\\"@;
        assert(upper.subrange(i, i + 20) == pat);
        assert(pat.subrange(14, 20) =~= "\\TEMP\\"@);
        assert(upper.subrange(i + 14, i + 20) =~= upper.subrange(i, i + 20).subrange(14, 20));
        assert(occurs_at(upper, "\\TEMP\\"@, i + 14));
    }
}

/// A bare drive such as `D:` is stored as its root `D:\`; any other path
/// as its normalized form. A scope always ends with `\`, and an empty one
/// means `C:\`.
pub proof fn law_index_path_roots(path: Seq<char>)
    ensures
        normalized_windows_path(path).len() == 2 && normalized_windows_path(path)[1] == ':'
            && (normalized_windows_path(path)[0] as u32) < 0x80 ==> index_path(path)
            == normalized_windows_path(path).push('\\'),
        !(normalized_windows_path(path).len() == 2 && normalized_windows_path(path)[1] == ':')
            ==> index_path(path) == normalized_windows_path(path),
        ends_with(scope_prefix(path), "\\"@),
        index_path(path).len() == 0 ==> scope_prefix(path) == "C:\\"@,
        index_path(path).len() > 0 ==> starts_with(scope_prefix(path), index_path(path)),
{
    let p = index_path(path);
    let q = if p.len() == 0 { "C:\\"@ } else { p };
    reveal_strlit("\\");
    reveal_strlit("C:\\");
    if p.len() == 0 {
        assert("C:\\"@.skip(2) =~= "\\"@);
        assert(ends_with(q, "\\"@));
    }
    if !ends_with(q, "\\"@) {
        assert(q.push('\\').skip(q.len() as int) =~= "\\"@);
        assert(q.push('\\').take(q.len() as int) =~= q);
    } else {
        assert(q.take(q.len() as int) =~= q);
    }
}

/// `c` is not `\`, and its ASCII lower case is not either.
proof fn lemma_lower_not_backslash(c: char)
    requires
        c != '\\',
    ensures
        ascii_lower(c) != '\\',
{
    if is_ascii_upper(c) {
        assert((c as u32) >= 65 && (c as u32) <= 90);
        assert(((c as u32) + 32) as char != '\\') by {
            assert(('\\' as u32) == 92);
        }
    }
}

/// `i` and `j` are both the first place `p` occurs in `s`: they are equal.
proof fn lemma_first_occurrence_unique(s: Seq<char>, p: Seq<char>, i: int, j: int)
    requires
        first_occurrence(s, p, i),
        first_occurrence(s, p, j),
    ensures
        i == j,
{
    if i < j {
        assert(!occurs_at(s, p, i));
    } else if j < i {
        assert(!occurs_at(s, p, j));
    }
}

/// The user name is masked: in a path made of a drive (or any start without
/// a separator), `\Users\`, the name and `\` and the rest, the name becomes
/// `{user}` and nothing else changes; a result of at most 120 bytes is
/// what goes into a prompt.
pub proof fn law_user_name_masked(drive: Seq<char>, name: Seq<char>, rest: Seq<char>)
    requires
        !drive.contains('\\') && !drive.contains('/'),
        !name.contains('\\') && !name.contains('/'),
        !rest.contains('/'),
    ensures
        user_masked(drive + "\\Users\\"@ + name + "\\"@ + rest) == drive + "\\Users\\{user}\\"@ + rest,
        utf8_len(drive + "\\Users\\{user}\\"@ + rest) <= 120 ==> desensitized(
            drive + "\\Users\\"@ + name + "\\"@ + rest,
        ) == drive + "\\Users\\{user}\\"@ + rest,
{
    reveal_strlit("\\Users\\");
    reveal_strlit("\\users\\");
    reveal_strlit("\\");
    reveal_strlit("{user}");
    reveal_strlit("\\Users\\{user}\\");
    let users = "\\Users\\"@;
    let path = drive + users + name + "\\"@ + rest;
    let n = replace_char(path, '/', '\\');
    assert forall|k: int| 0 <= k < path.len() implies path[k] != '/' by {
        if k < drive.len() {
            assert(path[k] == drive[k]);
            assert(drive.contains(drive[k]));
        } else if k < drive.len() + 7 {
            assert(path[k] == users[k - drive.len()]);
        } else if k < drive.len() + 7 + name.len() {
            assert(path[k] == name[k - drive.len() - 7]);
            assert(name.contains(name[k - drive.len() - 7]));
        } else if k == drive.len() + 7 + name.len() {
        } else {
            assert(path[k] == rest[k - drive.len() - 8 - name.len()]);
            assert(rest.contains(rest[k - drive.len() - 8 - name.len()]));
        }
    }
    assert(n =~= path);
    let lower = to_ascii_lower(n);
    let a0 = drive.len() as int;
    assert(lower.subrange(a0, a0 + 7) =~= "\\users\\"@) by {
        assert forall|k: int| 0 <= k < 7 implies lower[a0 + k] == "\\users\\"@[k] by {
            assert(n[a0 + k] == users[k]);
            if k == 1 {
                assert(('U' as u32) == 85);
                assert((117u32 as char) == 'u');
            }
        }
    }
    assert(occurs_at(lower, "\\users\\"@, a0));
    assert forall|j: int| 0 <= j < a0 implies !occurs_at(lower, "\\users\\"@, j) by {
        assert(n[j] == drive[j]);
        assert(drive.contains(drive[j]));
        lemma_lower_not_backslash(drive[j]);
        if occurs_at(lower, "\\users\\"@, j) {
            assert(lower.subrange(j, j + 7)[0] == lower[j]);
        }
    }
    assert(first_occurrence(lower, "\\users\\"@, a0));
    assert(contains_seq(lower, "\\users\\"@));
    let i = choose|i: int| first_occurrence(lower, "\\users\\"@, i);
    lemma_first_occurrence_unique(lower, "\\users\\"@, i, a0);
    let a = i + 7;
    let tail = n.skip(a);
    assert(tail =~= name + "\\"@ + rest);
    let m = name.len() as int;
    assert(occurs_at(tail, "\\"@, m)) by {
        assert(tail.subrange(m, m + 1) =~= "\\"@);
    }
    assert forall|j: int| 0 <= j < m implies !occurs_at(tail, "\\"@, j) by {
        assert(tail[j] == name[j]);
        assert(name.contains(name[j]));
        if occurs_at(tail, "\\"@, j) {
            assert(tail.subrange(j, j + 1)[0] == tail[j]);
        }
    }
    assert(first_occurrence(tail, "\\"@, m));
    assert(contains_seq(tail, "\\"@));
    let j = choose|j: int| first_occurrence(tail, "\\"@, j);
    lemma_first_occurrence_unique(tail, "\\"@, j, m);
    assert(n.take(a) =~= drive + users);
    assert(n.skip(a + j) =~= "\\"@ + rest);
    assert(user_masked(path) == n.take(a) + "{user}"@ + n.skip(a + j));
    assert(drive + users + "{user}"@ + ("\\"@ + rest) =~= drive + "\\Users\\{user}\\"@ + rest);
}

} // verus!
