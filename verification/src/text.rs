//! Character classes and scanning primitives over lines of text.
//!
//! A line is modelled as a `Seq<char>`; the executable functions work on
//! `&str` and are specified against that model. Whitespace is the Unicode
//! white-space set, as the trimming and splitting of the surrounding tools
//! treat it; identifier characters are deliberately the ASCII letters,
//! digits and underscore.

use vstd::prelude::*;
use vstd::string::StrSliceExecFns;
use vstd::string::StringExecFns;

verus! {

/// The characters treated as whitespace: the Unicode white-space code
/// points.
pub open spec fn is_space_char(c: char) -> bool {
    let u = c as u32;
    u == 32 || u == 9 || u == 10 || u == 11 || u == 12 || u == 13 || u == 0x85 || u == 0xA0 || u
        == 0x1680 || (0x2000 <= u && u <= 0x200A) || u == 0x2028 || u == 0x2029 || u == 0x202F
        || u == 0x205F || u == 0x3000
}

/// The characters that may form an identifier: letters, digits, underscore.
pub open spec fn is_word_char(c: char) -> bool {
    (97 <= (c as u32) && (c as u32) <= 122) || (65 <= (c as u32) && (c as u32) <= 90) || (48 <= (
    c as u32) && (c as u32) <= 57) || (c as u32) == 95
}

/// The characters that may form an upper-case constant name.
pub open spec fn is_const_char(c: char) -> bool {
    (65 <= (c as u32) && (c as u32) <= 90) || (c as u32) == 95
}

/// A line is blank when every character of it is whitespace.
pub open spec fn seq_all_space(s: Seq<char>) -> bool {
    forall|i: int| 0 <= i < s.len() ==> is_space_char(s[i])
}

/// A character class a scan can run over.
#[derive(Clone, Copy)]
pub enum CharClass {
    Space,
    NonSpace,
    Word,
    ConstName,
    NonComma,
    NonDot,
}

pub open spec fn class_holds(k: CharClass, c: char) -> bool {
    match k {
        CharClass::Space => is_space_char(c),
        CharClass::NonSpace => !is_space_char(c),
        CharClass::Word => is_word_char(c),
        CharClass::ConstName => is_const_char(c),
        CharClass::NonComma => c != ',',
        CharClass::NonDot => c != '.',
    }
}

/// The first position at or after `i` whose character leaves the class, or
/// the end of the line.
pub open spec fn run_end(s: Seq<char>, i: int, k: CharClass) -> int
    decreases s.len() - i,
{
    if i < 0 || i >= s.len() {
        i
    } else if !class_holds(k, s[i]) {
        i
    } else {
        run_end(s, i + 1, k)
    }
}

pub proof fn lemma_run_end(s: Seq<char>, i: int, k: CharClass)
    requires
        0 <= i <= s.len(),
    ensures
        i <= run_end(s, i, k) <= s.len(),
        forall|j: int| i <= j < run_end(s, i, k) ==> class_holds(k, #[trigger] s[j]),
        run_end(s, i, k) < s.len() ==> !class_holds(k, s[run_end(s, i, k)]),
    decreases s.len() - i,
{
    if i < s.len() && class_holds(k, s[i]) {
        lemma_run_end(s, i + 1, k);
    }
}

/// The pattern `pat` occurs in `s` starting at position `i`.
pub open spec fn starts_with_at(s: Seq<char>, pat: Seq<char>, i: int) -> bool {
    0 <= i && i + pat.len() <= s.len() && s.subrange(i, i + pat.len()) == pat
}

/// The pattern `pat` occurs somewhere in `s`.
pub open spec fn contains_seq(s: Seq<char>, pat: Seq<char>) -> bool {
    exists|i: int| starts_with_at(s, pat, i)
}

/// The indentation depth of a line: the position of its first
/// non-whitespace character, taken as zero on a blank line.
pub open spec fn indent_of(s: Seq<char>) -> int {
    if seq_all_space(s) {
        0
    } else {
        run_end(s, 0, CharClass::Space)
    }
}

/// One past the last non-whitespace character of `s`, or zero if there is
/// none.
pub open spec fn last_nonspace_end(s: Seq<char>) -> int
    decreases s.len(),
{
    if s.len() == 0 {
        0
    } else if !is_space_char(s.last()) {
        s.len() as int
    } else {
        last_nonspace_end(s.drop_last())
    }
}

/// `s` with leading and trailing whitespace removed.
pub open spec fn trim_spec(s: Seq<char>) -> Seq<char> {
    if seq_all_space(s) {
        Seq::empty()
    } else {
        s.subrange(run_end(s, 0, CharClass::Space), last_nonspace_end(s))
    }
}

fn space_char(c: char) -> (r: bool)
    ensures
        r == is_space_char(c),
{
    let u: u32 = c as u32;
    u == 32 || u == 9 || u == 10 || u == 11 || u == 12 || u == 13 || u == 0x85 || u == 0xA0 || u
        == 0x1680 || (0x2000 <= u && u <= 0x200A) || u == 0x2028 || u == 0x2029 || u == 0x202F
        || u == 0x205F || u == 0x3000
}

pub fn char_in_class(c: char, k: CharClass) -> (r: bool)
    ensures
        r == class_holds(k, c),
{
    let u: u32 = c as u32;
    match k {
        CharClass::Space => space_char(c),
        CharClass::NonSpace => !space_char(c),
        CharClass::Word => (97 <= u && u <= 122) || (65 <= u && u <= 90) || (48 <= u && u <= 57)
            || u == 95,
        CharClass::ConstName => (65 <= u && u <= 90) || u == 95,
        CharClass::NonComma => c != ',',
        CharClass::NonDot => c != '.',
    }
}

/// Scans forward from `i` while the characters stay in class `k`.
pub fn scan_while(s: &str, i: usize, k: CharClass) -> (j: usize)
    requires
        i <= s@.len(),
    ensures
        j as int == run_end(s@, i as int, k),
{
    let n: usize = s.unicode_len();
    let mut j: usize = i;
    while j < n && char_in_class(s.get_char(j), k)
        invariant
            i <= j <= n,
            n as int == s@.len(),
            run_end(s@, i as int, k) == run_end(s@, j as int, k),
        decreases n - j,
    {
        j = j + 1;
    }
    j
}

pub fn str_eq(a: &str, b: &str) -> (r: bool)
    ensures
        r == (a@ == b@),
{
    let na: usize = a.unicode_len();
    let nb: usize = b.unicode_len();
    if na != nb {
        return false;
    }
    let mut i: usize = 0;
    while i < na
        invariant
            0 <= i <= na,
            na as int == a@.len(),
            na as int == b@.len(),
            forall|j: int| 0 <= j < i ==> a@[j] == b@[j],
        decreases na - i,
    {
        if a.get_char(i) != b.get_char(i) {
            return false;
        }
        i = i + 1;
    }
    proof {
        assert(a@ =~= b@);
    }
    true
}

pub fn str_starts_with_at(s: &str, pat: &str, i: usize) -> (r: bool)
    requires
        i <= s@.len(),
    ensures
        r == starts_with_at(s@, pat@, i as int),
{
    let n: usize = s.unicode_len();
    let m: usize = pat.unicode_len();
    if m > n - i {
        return false;
    }
    let mut k: usize = 0;
    while k < m
        invariant
            0 <= k <= m,
            i + m <= n,
            n as int == s@.len(),
            m as int == pat@.len(),
            forall|j: int| 0 <= j < k ==> s@[i + j] == pat@[j],
        decreases m - k,
    {
        if s.get_char(i + k) != pat.get_char(k) {
            proof {
                assert(s@.subrange(i as int, i + pat@.len())[k as int] == s@[i + k]);
            }
            return false;
        }
        k = k + 1;
    }
    proof {
        assert(s@.subrange(i as int, i + pat@.len()) =~= pat@);
    }
    true
}

pub fn str_contains(s: &str, pat: &str) -> (r: bool)
    ensures
        r == contains_seq(s@, pat@),
{
    let n: usize = s.unicode_len();
    if str_starts_with_at(s, pat, 0) {
        return true;
    }
    let mut i: usize = 1;
    while i < n
        invariant
            1 <= i <= n + 1,
            n as int == s@.len(),
            forall|j: int| 0 <= j < i ==> !starts_with_at(s@, pat@, j),
        decreases n - i,
    {
        if str_starts_with_at(s, pat, i) {
            return true;
        }
        i = i + 1;
    }
    proof {
        assert forall|j: int| !starts_with_at(s@, pat@, j) by {
            if starts_with_at(s@, pat@, j) {
                if j == n {
                    assert(pat@.len() == 0);
                    assert(s@.subrange(0, 0) =~= pat@);
                    assert(starts_with_at(s@, pat@, 0));
                }
            }
        }
    }
    false
}

pub fn line_is_blank(s: &str) -> (r: bool)
    ensures
        r == seq_all_space(s@),
{
    let n: usize = s.unicode_len();
    let j: usize = scan_while(s, 0, CharClass::Space);
    proof {
        lemma_run_end(s@, 0, CharClass::Space);
    }
    j == n
}

pub fn line_indent(s: &str) -> (r: usize)
    ensures
        r as int == indent_of(s@),
{
    let n: usize = s.unicode_len();
    let j: usize = scan_while(s, 0, CharClass::Space);
    proof {
        lemma_run_end(s@, 0, CharClass::Space);
    }
    if j == n {
        0
    } else {
        j
    }
}

/// Copies the characters of `s` between positions `a` and `b` into a new
/// string.
pub fn copy_range(s: &str, a: usize, b: usize) -> (r: String)
    requires
        a <= b <= s@.len(),
    ensures
        r@ == s@.subrange(a as int, b as int),
{
    String::from_str(s.substring_char(a, b))
}

proof fn lemma_last_nonspace_end(s: Seq<char>, k: int)
    requires
        0 < k <= s.len(),
        !is_space_char(s[k - 1]),
        forall|j: int| k <= j < s.len() ==> is_space_char(#[trigger] s[j]),
    ensures
        last_nonspace_end(s) == k,
    decreases s.len(),
{
    if s.len() == k {
    } else {
        assert(is_space_char(s.last()));
        assert(s.drop_last() =~= s.subrange(0, s.len() - 1));
        lemma_last_nonspace_end(s.drop_last(), k);
    }
}

/// The views of a sequence of strings: each line as its `Seq<char>` model.
pub open spec fn views(ss: Seq<String>) -> Seq<Seq<char>> {
    Seq::new(ss.len(), |i: int| ss[i]@)
}

pub broadcast proof fn lemma_views_push(ss: Seq<String>, x: String)
    ensures
        #[trigger] views(ss.push(x)) == views(ss).push(x@),
{
    assert(views(ss.push(x)) =~= views(ss).push(x@));
}

pub broadcast proof fn lemma_views_concat(a: Seq<String>, b: Seq<String>)
    ensures
        #[trigger] views(a + b) == views(a) + views(b),
{
    assert(views(a + b) =~= views(a) + views(b));
}

/// Removes leading and trailing whitespace from a line.
pub fn trim(s: &str) -> (r: String)
    ensures
        r@ == trim_spec(s@),
{
    let n: usize = s.unicode_len();
    let a: usize = scan_while(s, 0, CharClass::Space);
    proof {
        lemma_run_end(s@, 0, CharClass::Space);
    }
    if a == n {
        return String::new();
    }
    let mut b: usize = n;
    while b > a && char_in_class(s.get_char(b - 1), CharClass::Space)
        invariant
            a <= b <= n,
            n as int == s@.len(),
            a < n,
            a as int == run_end(s@, 0, CharClass::Space),
            !is_space_char(s@[a as int]),
            forall|j: int| b <= j < n ==> is_space_char(#[trigger] s@[j]),
        decreases b,
    {
        b = b - 1;
    }
    proof {
        assert(!is_space_char(s@[b - 1]));
        lemma_last_nonspace_end(s@, b as int);
    }
    copy_range(s, a, b)
}

} // verus!
