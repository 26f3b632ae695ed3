//! Selective extraction of symbols from a shared helper module.
//!
//! The scanner walks the helper module's lines with two states: idle, and
//! capturing with a baseline indentation. A definition header (a line whose
//! non-whitespace prefix defines a function or an upper-case constant)
//! whose name is requested starts capture at that line's indentation; one
//! whose name is not requested stops it. While capturing, every line is
//! emitted; a blank line whose indentation is at most the baseline is
//! emitted and then closes the capture. Dedented non-blank code alone
//! never closes a block: only a shallow-or-equal blank line does.

use vstd::prelude::*;
use crate::text::{
    seq_all_space,
    indent_of,
    is_space_char,
    class_holds,
    CharClass,
    views,
    lemma_views_push,
    lemma_run_end,
    line_is_blank,
    line_indent,
};
use crate::imports::{
    header_name,
    def_header_name,
    const_header_name,
    requested_symbols,
    line_header_name,
    name_is_requested,
    extract_function_names_from_import,
};

verus! {

/// The scanner state after one line: `None` when idle, the baseline
/// indentation when capturing.
pub open spec fn scan_state_after(st: Option<int>, l: Seq<char>, req: Seq<Seq<char>>) -> Option<
    int,
> {
    let st1 = match header_name(l) {
        Some(nm) => if req.contains(nm) {
            Some(indent_of(l))
        } else {
            None
        },
        None => st,
    };
    match st1 {
        Some(b) => if seq_all_space(l) && indent_of(l) <= b {
            None
        } else {
            Some(b)
        },
        None => None,
    }
}

/// The lines one scan step emits: the line itself while capturing, nothing
/// while idle.
pub open spec fn scan_emits(st: Option<int>, l: Seq<char>, req: Seq<Seq<char>>) -> Seq<Seq<char>> {
    let st1 = match header_name(l) {
        Some(nm) => if req.contains(nm) {
            Some(indent_of(l))
        } else {
            None
        },
        None => st,
    };
    if st1 is Some {
        seq![l]
    } else {
        Seq::empty()
    }
}

/// Everything the scanner emits from line `i` on, starting in state `st`.
pub open spec fn scan_from(
    lines: Seq<Seq<char>>,
    req: Seq<Seq<char>>,
    st: Option<int>,
    i: int,
) -> Seq<Seq<char>>
    decreases lines.len() - i,
{
    if i < 0 || i >= lines.len() {
        Seq::empty()
    } else {
        scan_emits(st, lines[i], req) + scan_from(
            lines,
            req,
            scan_state_after(st, lines[i], req),
            i + 1,
        )
    }
}

/// The lines of the helper module that belong to the requested symbols.
pub open spec fn extract_requested(helper: Seq<Seq<char>>, req: Seq<Seq<char>>) -> Seq<Seq<char>> {
    scan_from(helper, req, None, 0)
}

/// Line `i` is a definition header whose name is requested.
pub open spec fn requested_header_at(lines: Seq<Seq<char>>, req: Seq<Seq<char>>, i: int) -> bool {
    0 <= i < lines.len() && match header_name(lines[i]) {
        Some(nm) => req.contains(nm),
        None => false,
    }
}

/// The blocks view of extraction while idle: skip to the next requested
/// header and capture its block.
pub open spec fn blocks_from(lines: Seq<Seq<char>>, req: Seq<Seq<char>>, i: int) -> Seq<Seq<char>>
    decreases lines.len() - i,
{
    if i < 0 || i >= lines.len() {
        Seq::empty()
    } else if requested_header_at(lines, req, i) {
        seq![lines[i]] + capture_from(lines, req, i + 1)
    } else {
        blocks_from(lines, req, i + 1)
    }
}

/// The blocks view of extraction while inside a requested block: lines are
/// emitted until a blank line (emitted, then closing) or the next header; a
/// header ends the block, and itself starts a new one only if requested.
pub open spec fn capture_from(lines: Seq<Seq<char>>, req: Seq<Seq<char>>, i: int) -> Seq<Seq<char>>
    decreases lines.len() - i,
{
    if i < 0 || i >= lines.len() {
        Seq::empty()
    } else if header_name(lines[i]) is Some {
        if requested_header_at(lines, req, i) {
            seq![lines[i]] + capture_from(lines, req, i + 1)
        } else {
            blocks_from(lines, req, i + 1)
        }
    } else if seq_all_space(lines[i]) {
        seq![lines[i]] + blocks_from(lines, req, i + 1)
    } else {
        seq![lines[i]] + capture_from(lines, req, i + 1)
    }
}

/// A definition header is never a blank line.
proof fn lemma_header_not_blank(l: Seq<char>)
    requires
        header_name(l) is Some,
    ensures
        !seq_all_space(l),
{
    lemma_run_end(l, 0, CharClass::Space);
    let a = crate::text::run_end(l, 0, CharClass::Space);
    if def_header_name(l) is Some {
        reveal_strlit("def ");
        assert(l.subrange(a, a + 4)[0] == l[a]);
        assert(l[a] == 'd');
        assert(!is_space_char(l[a]));
    } else {
        lemma_run_end(l, a, CharClass::ConstName);
        assert(class_holds(CharClass::ConstName, l[a]));
        assert(!is_space_char(l[a]));
    }
}

/// The indentation of a line is never negative.
proof fn lemma_indent_nonneg(l: Seq<char>)
    ensures
        indent_of(l) >= 0,
{
    if !seq_all_space(l) {
        lemma_run_end(l, 0, CharClass::Space);
    }
}

proof fn lemma_scan_idle_is_blocks(lines: Seq<Seq<char>>, req: Seq<Seq<char>>, i: int)
    ensures
        scan_from(lines, req, None, i) == blocks_from(lines, req, i),
    decreases lines.len() - i,
{
    if 0 <= i < lines.len() {
        let l = lines[i];
        match header_name(l) {
            Some(nm) => {
                if req.contains(nm) {
                    lemma_header_not_blank(l);
                    lemma_indent_nonneg(l);
                    lemma_scan_capture_is_capture(lines, req, indent_of(l), i + 1);
                } else {
                    lemma_scan_idle_is_blocks(lines, req, i + 1);
                }
            },
            None => {
                lemma_scan_idle_is_blocks(lines, req, i + 1);
            },
        }
    }
}

proof fn lemma_scan_capture_is_capture(lines: Seq<Seq<char>>, req: Seq<Seq<char>>, b: int, i: int)
    requires
        b >= 0,
    ensures
        scan_from(lines, req, Some(b), i) == capture_from(lines, req, i),
    decreases lines.len() - i,
{
    if 0 <= i < lines.len() {
        let l = lines[i];
        match header_name(l) {
            Some(nm) => {
                if req.contains(nm) {
                    lemma_header_not_blank(l);
                    lemma_indent_nonneg(l);
                    lemma_scan_capture_is_capture(lines, req, indent_of(l), i + 1);
                } else {
                    lemma_scan_idle_is_blocks(lines, req, i + 1);
                }
            },
            None => {
                if seq_all_space(l) {
                    assert(indent_of(l) == 0);
                    lemma_scan_idle_is_blocks(lines, req, i + 1);
                } else {
                    lemma_scan_capture_is_capture(lines, req, b, i + 1);
                }
            },
        }
    }
}

/// Extraction yields exactly the blocks of the requested symbols, in the
/// order they stand in the module: a block starts at a definition header
/// whose name is requested and runs until a blank line (which is emitted
/// and closes it), the next definition header, or the end of the module;
/// no line of an unrequested symbol's block is emitted.
pub proof fn lemma_extraction_is_requested_blocks(helper: Seq<Seq<char>>, req: Seq<Seq<char>>)
    ensures
        extract_requested(helper, req) == blocks_from(helper, req, 0),
{
    lemma_scan_idle_is_blocks(helper, req, 0);
}

/// Extraction is idempotent: its result is a function of the helper
/// module's lines and the requested set alone, so any two extractions of
/// the same symbol set from the same helper module are the same sequence
/// of lines.
pub proof fn lemma_extraction_idempotent(
    helper: Seq<Seq<char>>,
    req: Seq<Seq<char>>,
    r1: Seq<Seq<char>>,
    r2: Seq<Seq<char>>,
)
    requires
        r1 == extract_requested(helper, req),
        r2 == extract_requested(helper, req),
    ensures
        r1 == r2,
{
}

/// When no line of the module is a definition header for any requested
/// symbol, extraction contributes nothing — and in particular a requested
/// symbol absent from the module yields an empty contribution, not a
/// failure.
pub proof fn lemma_absent_symbols_extract_nothing(helper: Seq<Seq<char>>, req: Seq<Seq<char>>)
    requires
        forall|i: int| !requested_header_at(helper, req, i),
    ensures
        extract_requested(helper, req) == Seq::<Seq<char>>::empty(),
{
    lemma_scan_idle_is_blocks(helper, req, 0);
    lemma_blocks_empty(helper, req, 0);
}

proof fn lemma_blocks_empty(lines: Seq<Seq<char>>, req: Seq<Seq<char>>, i: int)
    requires
        forall|j: int| !requested_header_at(lines, req, j),
    ensures
        blocks_from(lines, req, i) == Seq::<Seq<char>>::empty(),
    decreases lines.len() - i,
{
    if 0 <= i < lines.len() {
        lemma_blocks_empty(lines, req, i + 1);
    }
}

/// Bundles a helper import line: scans the helper module's lines and keeps
/// exactly those belonging to the symbols the line requests, in module
/// order. Symbols the module does not define are silently omitted.
pub fn bundle_common_import_lines(line: &String, file: &Vec<String>) -> (r: Vec<String>)
    ensures
        views(r@) == extract_requested(views(file@), requested_symbols(line@)),
{
    broadcast use lemma_views_push;

    let functions_to_include: Vec<String> = extract_function_names_from_import(line);
    let ghost req: Seq<Seq<char>> = requested_symbols(line@);
    let ghost helperv: Seq<Seq<char>> = views(file@);
    let mut out: Vec<String> = Vec::new();
    let mut capture: bool = false;
    let mut indent_level: usize = 0;
    let n: usize = file.len();
    let mut i: usize = 0;
    while i < n
        invariant
            0 <= i <= n,
            n == file@.len(),
            views(functions_to_include@) == req,
            req == requested_symbols(line@),
            helperv == views(file@),
            extract_requested(helperv, req) =~= views(out@) + scan_from(
                helperv,
                req,
                if capture {
                    Some(indent_level as int)
                } else {
                    Option::<int>::None
                },
                i as int,
            ),
        decreases n - i,
    {
        let ghost st0: Option<int> = if capture {
            Some(indent_level as int)
        } else {
            Option::<int>::None
        };
        let l: &String = &file[i];
        proof {
            assert(helperv[i as int] == l@);
        }
        let hn: Option<String> = line_header_name(l.as_str());
        match hn {
            Some(nm) => {
                if name_is_requested(nm.as_str(), &functions_to_include) {
                    capture = true;
                    indent_level = line_indent(l.as_str());
                } else {
                    capture = false;
                }
            },
            None => {},
        }
        let ghost st1: Option<int> = if capture {
            Some(indent_level as int)
        } else {
            Option::<int>::None
        };
        if capture {
            out.push(l.clone());
            let current_indent: usize = line_indent(l.as_str());
            if current_indent <= indent_level && line_is_blank(l.as_str()) {
                capture = false;
            }
        }
        proof {
            let st2: Option<int> = if capture {
                Some(indent_level as int)
            } else {
                Option::<int>::None
            };
            assert(st2 == scan_state_after(st0, helperv[i as int], req));
            assert(scan_emits(st0, helperv[i as int], req) == if st1 is Some {
                seq![helperv[i as int]]
            } else {
                Seq::<Seq<char>>::empty()
            });
            assert(scan_from(helperv, req, st0, i as int) =~= scan_emits(st0, helperv[i as int], req)
                + scan_from(helperv, req, st2, i as int + 1));
            assert(extract_requested(helperv, req) =~= views(out@) + scan_from(
                helperv,
                req,
                st2,
                i as int + 1,
            ));
        }
        i = i + 1;
    }
    proof {
        assert(scan_from(helperv, req, if capture {
            Some(indent_level as int)
        } else {
            Option::<int>::None
        }, n as int) =~= Seq::<Seq<char>>::empty());
        assert(views(out@) =~= extract_requested(helperv, req));
    }
    out
}

} // verus!
