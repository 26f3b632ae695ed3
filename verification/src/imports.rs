//! The grammar of import statements and of helper-module definition headers.
//!
//! A helper import has the shape `from <module> import <names>`: the first
//! position where `from ` is followed by a non-empty run of non-whitespace
//! characters and then ` import ` decides the match, and everything after
//! ` import ` is the comma-separated symbol list. A definition header is a
//! line whose non-whitespace prefix is either `def <name>(` or an
//! upper-case constant assignment `<NAME> =`.

use vstd::prelude::*;
use vstd::string::StrSliceExecFns;
use crate::text::{
    CharClass,
    run_end,
    starts_with_at,
    trim_spec,
    views,
    scan_while,
    str_starts_with_at,
    copy_range,
    trim,
    lemma_run_end,
    lemma_views_push,
};

verus! {

/// The name of a function definition header: a line whose non-whitespace
/// prefix is `def <name>(`.
pub open spec fn def_header_name(l: Seq<char>) -> Option<Seq<char>> {
    let a = run_end(l, 0, CharClass::Space);
    if starts_with_at(l, "def "@, a) {
        let e = run_end(l, a + 4, CharClass::Word);
        if e > a + 4 && e < l.len() && l[e] == '(' {
            Some(l.subrange(a + 4, e))
        } else {
            None
        }
    } else {
        None
    }
}

/// The name of an upper-case constant assignment: a line whose
/// non-whitespace prefix is `<NAME> =`.
pub open spec fn const_header_name(l: Seq<char>) -> Option<Seq<char>> {
    let a = run_end(l, 0, CharClass::Space);
    let e = run_end(l, a, CharClass::ConstName);
    if e > a {
        let w = run_end(l, e, CharClass::Space);
        if w < l.len() && l[w] == '=' {
            Some(l.subrange(a, e))
        } else {
            None
        }
    } else {
        None
    }
}

/// The symbol a line defines, if it is a definition header.
pub open spec fn header_name(l: Seq<char>) -> Option<Seq<char>> {
    if def_header_name(l) is Some {
        def_header_name(l)
    } else {
        const_header_name(l)
    }
}

/// `from ` stands at `i`, followed by a non-empty run of non-whitespace
/// characters, then ` import `, then at least one further character.
pub open spec fn from_match_at(l: Seq<char>, i: int) -> bool {
    starts_with_at(l, "from "@, i) && {
        let e = run_end(l, i + 5, CharClass::NonSpace);
        e > i + 5 && starts_with_at(l, " import "@, e) && e + 8 < l.len()
    }
}

/// The first position at or after `i` where the import shape matches.
pub open spec fn find_from(l: Seq<char>, i: int) -> Option<int>
    decreases l.len() - i,
{
    if i < 0 || i >= l.len() {
        None
    } else if from_match_at(l, i) {
        Some(i)
    } else {
        find_from(l, i + 1)
    }
}

/// Everything after ` import ` at the first match of the import shape.
pub open spec fn import_symbols_clause(l: Seq<char>) -> Option<Seq<char>> {
    match find_from(l, 0) {
        None => None,
        Some(i) => {
            let e = run_end(l, i + 5, CharClass::NonSpace);
            Some(l.subrange(e + 8, l.len() as int))
        },
    }
}

/// The pieces of `s` between commas, from position `pos` on.
pub open spec fn split_commas_from(s: Seq<char>, pos: int) -> Seq<Seq<char>>
    decreases s.len() - pos,
{
    let k = run_end(s, pos, CharClass::NonComma);
    if k < pos || k >= s.len() {
        seq![s.subrange(pos, s.len() as int)]
    } else {
        seq![s.subrange(pos, k)] + split_commas_from(s, k + 1)
    }
}

/// The comma-separated pieces of `s`.
pub open spec fn split_commas(s: Seq<char>) -> Seq<Seq<char>> {
    split_commas_from(s, 0)
}

/// The pieces of `s` between commas from `pos` on, each trimmed.
pub open spec fn trimmed_from(s: Seq<char>, pos: int) -> Seq<Seq<char>> {
    split_commas_from(s, pos).map_values(|p: Seq<char>| trim_spec(p))
}

/// The comma-separated pieces of `s`, each trimmed.
pub open spec fn trimmed_pieces(s: Seq<char>) -> Seq<Seq<char>> {
    trimmed_from(s, 0)
}

/// The symbols a helper import requests: the comma-separated pieces of its
/// symbol clause, each trimmed. Empty when the line matches no import shape.
pub open spec fn requested_symbols(l: Seq<char>) -> Seq<Seq<char>> {
    match import_symbols_clause(l) {
        None => Seq::empty(),
        Some(c) => trimmed_pieces(c),
    }
}

/// Decides the import shape at one position.
fn from_match_check(s: &str, i: usize) -> (r: bool)
    requires
        i <= s@.len(),
    ensures
        r == from_match_at(s@, i as int),
{
    if !str_starts_with_at(s, "from ", i) {
        return false;
    }
    proof {
        reveal_strlit("from ");
    }
    let n: usize = s.unicode_len();
    let e: usize = scan_while(s, i + 5, CharClass::NonSpace);
    proof {
        reveal_strlit(" import ");
        lemma_run_end(s@, i + 5, CharClass::NonSpace);
    }
    e > i + 5 && str_starts_with_at(s, " import ", e) && n - e > 8
}

/// Finds the first position where the import shape matches.
fn find_from_match(s: &str) -> (r: Option<usize>)
    ensures
        r is Some == find_from(s@, 0) is Some,
        r matches Some(i) ==> find_from(s@, 0) == Some(i as int) && from_match_at(s@, i as int),
{
    let n: usize = s.unicode_len();
    let mut i: usize = 0;
    while i < n
        invariant
            0 <= i <= n,
            n as int == s@.len(),
            find_from(s@, 0) == find_from(s@, i as int),
        decreases n - i,
    {
        if from_match_check(s, i) {
            return Some(i);
        }
        i = i + 1;
    }
    None
}

/// Extracts the set of symbol names a helper import line requests, by
/// matching the import shape and splitting its symbol clause on commas,
/// trimming each name.
pub fn extract_function_names_from_import(line: &String) -> (r: Vec<String>)
    ensures
        views(r@) == requested_symbols(line@),
{
    broadcast use lemma_views_push;

    let s: &str = line.as_str();
    let mut out: Vec<String> = Vec::new();
    let found: Option<usize> = find_from_match(s);
    match found {
        None => {
            assert(views(out@) =~= requested_symbols(line@));
            out
        },
        Some(i) => {
            let n: usize = s.unicode_len();
            proof {
                reveal_strlit("from ");
                reveal_strlit(" import ");
            }
            let e: usize = scan_while(s, i + 5, CharClass::NonSpace);
            proof {
                lemma_run_end(s@, i as int + 5, CharClass::NonSpace);
            }
            let clause: String = copy_range(s, e + 8, n);
            let c: &str = clause.as_str();
            let ghost target: Seq<Seq<char>> = trimmed_pieces(clause@);
            let m: usize = c.unicode_len();
            let mut pos: usize = 0;
            let mut more: bool = true;
            while more
                invariant
                    0 <= pos <= m,
                    m as int == c@.len(),
                    c@ == clause@,
                    target == trimmed_pieces(clause@),
                    more ==> views(out@) + trimmed_from(c@, pos as int) =~= target,
                    !more ==> views(out@) =~= target,
                decreases m - pos + (if more {
                    1int
                } else {
                    0int
                }),
            {
                let k: usize = scan_while(c, pos, CharClass::NonComma);
                proof {
                    lemma_run_end(c@, pos as int, CharClass::NonComma);
                }
                if k == m {
                    let piece: String = copy_range(c, pos, m);
                    let name: String = trim(piece.as_str());
                    proof {
                        assert(split_commas_from(c@, pos as int) =~= seq![
                            c@.subrange(pos as int, m as int),
                        ]);
                        assert(trimmed_from(c@, pos as int) =~= seq![
                            trim_spec(c@.subrange(pos as int, m as int)),
                        ]);
                    }
                    out.push(name);
                    more = false;
                } else {
                    let piece: String = copy_range(c, pos, k);
                    let name: String = trim(piece.as_str());
                    proof {
                        assert(split_commas_from(c@, pos as int) =~= seq![
                            c@.subrange(pos as int, k as int),
                        ] + split_commas_from(c@, k as int + 1));
                        assert(trimmed_from(c@, pos as int) =~= seq![
                            trim_spec(c@.subrange(pos as int, k as int)),
                        ] + trimmed_from(c@, k as int + 1));
                    }
                    out.push(name);
                    pos = k + 1;
                }
            }
            proof {
                assert(requested_symbols(line@) =~= target);
            }
            out
        },
    }
}

/// Whether `name` occurs among the requested symbols.
pub fn name_is_requested(name: &str, requested: &Vec<String>) -> (r: bool)
    ensures
        r == views(requested@).contains(name@),
{
    let n: usize = requested.len();
    let mut i: usize = 0;
    while i < n
        invariant
            0 <= i <= n,
            n == requested@.len(),
            forall|j: int| 0 <= j < i ==> views(requested@)[j] != name@,
        decreases n - i,
    {
        if crate::text::str_eq(name, requested[i].as_str()) {
            assert(views(requested@)[i as int] == name@);
            return true;
        }
        i = i + 1;
    }
    proof {
        assert forall|j: int| 0 <= j < views(requested@).len() implies views(requested@)[j]
            != name@ by {}
    }
    false
}

/// The executable form of `header_name`: the symbol a line defines.
pub fn line_header_name(line: &str) -> (r: Option<String>)
    ensures
        r is Some == header_name(line@) is Some,
        r matches Some(s) ==> header_name(line@) == Some(s@),
{
    let n: usize = line.unicode_len();
    let a: usize = scan_while(line, 0, CharClass::Space);
    proof {
        lemma_run_end(line@, 0, CharClass::Space);
    }
    if str_starts_with_at(line, "def ", a) {
        proof {
            reveal_strlit("def ");
        }
        let e: usize = scan_while(line, a + 4, CharClass::Word);
        if e > a + 4 && e < n && line.get_char(e) == '(' {
            return Some(copy_range(line, a + 4, e));
        }
    }
    let e: usize = scan_while(line, a, CharClass::ConstName);
    proof {
        lemma_run_end(line@, a as int, CharClass::ConstName);
    }
    if e > a {
        let w: usize = scan_while(line, e, CharClass::Space);
        proof {
            lemma_run_end(line@, e as int, CharClass::Space);
        }
        if w < n && line.get_char(w) == '=' {
            return Some(copy_range(line, a, e));
        }
    }
    None
}

} // verus!
