//! The bundling engine: flattening one entry script into a single document.
//!
//! Each line of the entry script is classified once. A line that starts
//! with no import keyword passes through unchanged. A line carrying the
//! shared-helper marker is replaced by the symbols it requests, extracted
//! from the helper module. A line naming the script family is replaced by
//! the bundled sibling script, inside which helper imports are resolved
//! again and cross-group imports are resolved to adjacent scripts; inside
//! an adjacent script, helper markers are resolved against the shared
//! helper module too, and nothing recurses further. An import line of no recognized shape contributes
//! nothing. Retrieval is the caller's part: the engine is handed the lines
//! of every file it consumes.

use vstd::prelude::*;
use crate::text::{
    contains_seq,
    starts_with_at,
    views,
    str_contains,
    str_starts_with_at,
    lemma_views_push,
    lemma_views_concat,
    CharClass,
    run_end,
    is_space_char,
    seq_all_space,
    indent_of,
    trim_spec,
    last_nonspace_end,
};
use crate::imports::{requested_symbols, find_from, split_commas_from, header_name};
use crate::extract::{
    extract_requested,
    bundle_common_import_lines,
    scan_from,
    scan_emits,
    scan_state_after,
};
use crate::paths::{PathsMap, spec_adjacent_path, resolve_adjacent_script_path};

verus! {

/// The views of a sequence of files: each as its sequence of line models.
pub open spec fn file_views(fs: Seq<Vec<String>>) -> Seq<Seq<Seq<char>>> {
    Seq::new(fs.len(), |i: int| views(fs[i]@))
}

/// The line carries the shared-helper marker.
pub open spec fn is_helper_marker(l: Seq<char>) -> bool {
    contains_seq(l, "common.helpers"@)
}

/// The line starts with an import keyword.
pub open spec fn is_import_start(l: Seq<char>) -> bool {
    starts_with_at(l, "import"@, 0) || starts_with_at(l, "from"@, 0)
}

/// The line names the script family.
pub open spec fn is_script_marker(l: Seq<char>) -> bool {
    contains_seq(l, ".script"@)
}

/// The line has the generic `from`/`import` shape of a cross-group import.
pub open spec fn is_generic_from_import(l: Seq<char>) -> bool {
    contains_seq(l, "from"@) && contains_seq(l, "import"@)
}

/// What one line of an adjacent script contributes: a helper marker is
/// replaced by the symbols it requests, extracted from the shared helper
/// module; every other line stands verbatim.
pub open spec fn adjacent_contribution(l: Seq<char>, helper: Seq<Seq<char>>) -> Seq<Seq<char>> {
    if is_helper_marker(l) {
        extract_requested(helper, requested_symbols(l))
    } else {
        seq![l]
    }
}

pub open spec fn spec_bundle_adjacent_from(
    file: Seq<Seq<char>>,
    helper: Seq<Seq<char>>,
    i: int,
) -> Seq<Seq<char>>
    decreases file.len() - i,
{
    if i < 0 || i >= file.len() {
        Seq::empty()
    } else {
        adjacent_contribution(file[i], helper) + spec_bundle_adjacent_from(file, helper, i + 1)
    }
}

/// The flattened form of one adjacent script.
pub open spec fn spec_bundle_adjacent(file: Seq<Seq<char>>, helper: Seq<Seq<char>>) -> Seq<
    Seq<char>,
> {
    spec_bundle_adjacent_from(file, helper, 0)
}

/// The addresses of the adjacent scripts a sibling script imports, in line
/// order, one per line that resolves.
pub open spec fn spec_adjacent_paths_from(
    script: Seq<Seq<char>>,
    project: Seq<char>,
    i: int,
) -> Seq<Seq<char>>
    decreases script.len() - i,
{
    if i < 0 || i >= script.len() {
        Seq::empty()
    } else {
        let l = script[i];
        let rest = spec_adjacent_paths_from(script, project, i + 1);
        if !is_helper_marker(l) && is_generic_from_import(l) && spec_adjacent_path(l, project)
            is Some {
            seq![spec_adjacent_path(l, project)->0] + rest
        } else {
            rest
        }
    }
}

/// The flattened form of the sibling script from line `i` on, with `k`
/// adjacent files already consumed: helper markers are replaced by their
/// extraction from the helper module, resolving cross-group imports are
/// replaced by their adjacent file's bundled lines (or nothing, when no
/// lines were supplied for them), unresolvable ones by nothing, and every
/// other line stands verbatim.
pub open spec fn spec_bundle_script_from(
    script: Seq<Seq<char>>,
    helper: Seq<Seq<char>>,
    project: Seq<char>,
    adjacent: Seq<Seq<Seq<char>>>,
    i: int,
    k: int,
) -> Seq<Seq<char>>
    decreases script.len() - i,
{
    if i < 0 || i >= script.len() {
        Seq::empty()
    } else {
        let l = script[i];
        if is_helper_marker(l) {
            extract_requested(helper, requested_symbols(l)) + spec_bundle_script_from(
                script,
                helper,
                project,
                adjacent,
                i + 1,
                k,
            )
        } else if is_generic_from_import(l) {
            if spec_adjacent_path(l, project) is Some {
                (if 0 <= k < adjacent.len() {
                    spec_bundle_adjacent(adjacent[k], helper)
                } else {
                    Seq::empty()
                }) + spec_bundle_script_from(script, helper, project, adjacent, i + 1, k + 1)
            } else {
                spec_bundle_script_from(script, helper, project, adjacent, i + 1, k)
            }
        } else {
            seq![l] + spec_bundle_script_from(script, helper, project, adjacent, i + 1, k)
        }
    }
}

/// The flattened form of the sibling script.
pub open spec fn spec_bundle_script(
    script: Seq<Seq<char>>,
    helper: Seq<Seq<char>>,
    project: Seq<char>,
    adjacent: Seq<Seq<Seq<char>>>,
) -> Seq<Seq<char>> {
    spec_bundle_script_from(script, helper, project, adjacent, 0, 0)
}

/// What one line of the entry script contributes to the bundle.
pub open spec fn entry_contribution(
    l: Seq<char>,
    helper: Seq<Seq<char>>,
    script_bundle: Seq<Seq<char>>,
) -> Seq<Seq<char>> {
    if !is_import_start(l) {
        seq![l]
    } else if is_helper_marker(l) {
        extract_requested(helper, requested_symbols(l))
    } else if is_script_marker(l) {
        script_bundle
    } else {
        Seq::empty()
    }
}

pub open spec fn spec_build_bundle_from(
    entry: Seq<Seq<char>>,
    helper: Seq<Seq<char>>,
    script_bundle: Seq<Seq<char>>,
    i: int,
) -> Seq<Seq<char>>
    decreases entry.len() - i,
{
    if i < 0 || i >= entry.len() {
        Seq::empty()
    } else {
        entry_contribution(entry[i], helper, script_bundle) + spec_build_bundle_from(
            entry,
            helper,
            script_bundle,
            i + 1,
        )
    }
}

/// The flattened form of one entry script: the in-order concatenation of
/// what each of its lines contributes.
pub open spec fn spec_build_bundle(
    entry: Seq<Seq<char>>,
    helper: Seq<Seq<char>>,
    script_bundle: Seq<Seq<char>>,
) -> Seq<Seq<char>> {
    spec_build_bundle_from(entry, helper, script_bundle, 0)
}

/// The view of an optional file: its lines when present, no lines when
/// absent.
pub open spec fn opt_views(o: Option<Vec<String>>) -> Seq<Seq<char>> {
    match o {
        None => Seq::empty(),
        Some(v) => views(v@),
    }
}

/// Every line not classified as an import contributes exactly itself, and
/// the bundle is the in-order concatenation of the per-line contributions:
/// non-import lines appear in the output unchanged and in their original
/// relative order.
pub proof fn lemma_non_import_lines_pass_through(
    entry: Seq<Seq<char>>,
    helper: Seq<Seq<char>>,
    script_bundle: Seq<Seq<char>>,
    i: int,
)
    requires
        0 <= i < entry.len(),
        !is_import_start(entry[i]),
    ensures
        entry_contribution(entry[i], helper, script_bundle) == seq![entry[i]],
        spec_build_bundle_from(entry, helper, script_bundle, i) == seq![entry[i]]
            + spec_build_bundle_from(entry, helper, script_bundle, i + 1),
{
}


/// One request end to end: an entry script holding one helper import that
/// asks for `CONST_X` and `helper_fn`, against a helper module defining
/// `CONST_X`, then `helper_fn`, then (after a blank line) `CONST_Y`,
/// bundles to exactly the `CONST_X` line, the `helper_fn` line and the
/// closing blank line, in that order — `CONST_Y`'s line is excluded —
/// whatever sibling bundle stands by.
pub proof fn lemma_helper_import_scenario(script_bundle: Seq<Seq<char>>)
    ensures
        spec_build_bundle(
            seq!["from common.helpers import CONST_X, helper_fn"@],
            seq!["CONST_X = 1"@, "def helper_fn(): return 1"@, ""@, "CONST_Y = 2"@],
            script_bundle,
        ) =~= seq!["CONST_X = 1"@, "def helper_fn(): return 1"@, ""@],
{
    reveal_strlit("from common.helpers import CONST_X, helper_fn");
    reveal_strlit("CONST_X = 1");
    reveal_strlit("def helper_fn(): return 1");
    reveal_strlit("");
    reveal_strlit("CONST_Y = 2");
    reveal_strlit("from");
    reveal_strlit("from ");
    reveal_strlit(" import ");
    reveal_strlit("common.helpers");
    reveal_strlit("def ");
    reveal_strlit("CONST_X, helper_fn");
    reveal_strlit("CONST_X");
    reveal_strlit("CONST_Y");
    reveal_strlit("helper_fn");
    reveal_strlit(" helper_fn");
    reveal_with_fuel(run_end, 25);
    reveal_with_fuel(find_from, 2);
    reveal_with_fuel(split_commas_from, 3);
    reveal_with_fuel(last_nonspace_end, 12);
    reveal_with_fuel(scan_from, 6);
    reveal_with_fuel(spec_build_bundle_from, 3);
    let l0 = "from common.helpers import CONST_X, helper_fn"@;
    let req = seq!["CONST_X"@, "helper_fn"@];
    let h0 = "CONST_X = 1"@;
    let h1 = "def helper_fn(): return 1"@;
    let h2 = ""@;
    let h3 = "CONST_Y = 2"@;
    let helper = seq![h0, h1, h2, h3];
    // the entry line is a helper import
    assert(l0.subrange(0, 4) =~= "from"@);
    assert(starts_with_at(l0, "from"@, 0));
    assert(l0.subrange(5, 19) =~= "common.helpers"@);
    assert(starts_with_at(l0, "common.helpers"@, 5));
    // the symbols it requests
    assert(l0.subrange(0, 5) =~= "from "@);
    assert(starts_with_at(l0, "from "@, 0));
    assert(run_end(l0, 5, CharClass::NonSpace) == 19);
    assert(l0.subrange(19, 27) =~= " import "@);
    assert(find_from(l0, 0) == Some(0int));
    let c = l0.subrange(27, 45);
    assert(c =~= "CONST_X, helper_fn"@);
    assert(run_end(c, 0, CharClass::NonComma) == 7);
    assert(run_end(c, 8, CharClass::NonComma) == 18);
    assert(split_commas_from(c, 0) =~= seq![c.subrange(0, 7), c.subrange(8, 18)]);
    assert(c.subrange(0, 7) =~= "CONST_X"@);
    assert(c.subrange(8, 18) =~= " helper_fn"@);
    assert(!is_space_char("CONST_X"@[0]));
    assert(run_end("CONST_X"@, 0, CharClass::Space) == 0);
    assert(last_nonspace_end("CONST_X"@) == 7);
    assert(trim_spec("CONST_X"@) =~= "CONST_X"@);
    assert(!is_space_char(" helper_fn"@[1]));
    assert(run_end(" helper_fn"@, 0, CharClass::Space) == 1);
    assert(last_nonspace_end(" helper_fn"@) == 10);
    assert(" helper_fn"@.subrange(1, 10) =~= "helper_fn"@);
    assert(trim_spec(" helper_fn"@) =~= "helper_fn"@);
    assert(requested_symbols(l0) =~= req);
    // the helper module's headers
    assert(!starts_with_at(h0, "def "@, 0)) by {
        if starts_with_at(h0, "def "@, 0) {
            assert(h0.subrange(0, 4)[0] == h0[0]);
        }
    }
    assert(h0.subrange(0, 7) =~= "CONST_X"@);
    assert(header_name(h0) == Some("CONST_X"@));
    assert(req.contains("CONST_X"@)) by {
        assert(req[0] == "CONST_X"@);
    }
    assert(!seq_all_space(h0)) by {
        assert(!is_space_char(h0[0]));
    }
    assert(indent_of(h0) == 0);
    assert(h1.subrange(0, 4) =~= "def "@);
    assert(starts_with_at(h1, "def "@, 0));
    assert(run_end(h1, 0, CharClass::Space) == 0);
    assert(run_end(h1, 4, CharClass::Word) == 13);
    assert(h1.subrange(4, 13) =~= "helper_fn"@);
    assert(header_name(h1) == Some("helper_fn"@));
    assert(req.contains("helper_fn"@)) by {
        assert(req[1] == "helper_fn"@);
    }
    assert(!seq_all_space(h1)) by {
        assert(!is_space_char(h1[0]));
    }
    assert(indent_of(h1) == 0);
    assert(header_name(h2) is None);
    assert(seq_all_space(h2));
    assert(indent_of(h2) == 0);
    assert(!starts_with_at(h3, "def "@, 0)) by {
        if starts_with_at(h3, "def "@, 0) {
            assert(h3.subrange(0, 4)[0] == h3[0]);
        }
    }
    assert(h3.subrange(0, 7) =~= "CONST_Y"@);
    assert(header_name(h3) == Some("CONST_Y"@));
    assert(!req.contains("CONST_Y"@)) by {
        assert forall|i: int| 0 <= i < req.len() implies req[i] != "CONST_Y"@ by {
            if i == 0 {
                assert("CONST_X"@[6] != "CONST_Y"@[6]);
            } else {
                assert("helper_fn"@.len() != "CONST_Y"@.len());
            }
        }
    }
    // the scan captures the two requested blocks and the closing blank
    assert(scan_state_after(None, h0, req) == Some(0int));
    assert(scan_emits(None, h0, req) =~= seq![h0]);
    assert(scan_state_after(Some(0int), h1, req) == Some(0int));
    assert(scan_emits(Some(0int), h1, req) =~= seq![h1]);
    assert(scan_state_after(Some(0int), h2, req) is None);
    assert(scan_emits(Some(0int), h2, req) =~= seq![h2]);
    assert(scan_state_after(None, h3, req) is None);
    assert(scan_emits(None, h3, req) =~= Seq::<Seq<char>>::empty());
    assert(extract_requested(helper, req) =~= seq![h0, h1, h2]);
    // the bundle is exactly that extraction
    assert(requested_symbols(l0) == req);
    assert(entry_contribution(l0, helper, script_bundle) =~= seq![h0, h1, h2]);
    assert(spec_build_bundle(seq![l0], helper, script_bundle) =~= entry_contribution(
        l0,
        helper,
        script_bundle,
    ));
}

/// The entry script has a helper import line, so bundling it consults the
/// helper module.
pub open spec fn entry_uses_helper(entry: Seq<Seq<char>>) -> bool {
    exists|i: int|
        0 <= i < entry.len() && is_import_start(#[trigger] entry[i]) && is_helper_marker(entry[i])
}

/// The entry script has a script-family import line, so bundling it
/// consults the sibling script.
pub open spec fn entry_uses_script(entry: Seq<Seq<char>>) -> bool {
    exists|i: int|
        0 <= i < entry.len() && is_import_start(#[trigger] entry[i]) && !is_helper_marker(entry[i])
            && is_script_marker(entry[i])
}

/// The sibling script has a helper marker line, so bundling it consults
/// the helper module.
pub open spec fn script_uses_helper(script: Seq<Seq<char>>) -> bool {
    exists|i: int| 0 <= i < script.len() && is_helper_marker(#[trigger] script[i])
}

/// Whether bundling this entry script will consult the helper module.
pub fn entry_needs_helper(entry: &Vec<String>) -> (r: bool)
    ensures
        r == entry_uses_helper(views(entry@)),
{
    let n: usize = entry.len();
    let mut i: usize = 0;
    while i < n
        invariant
            0 <= i <= n,
            n == entry@.len(),
            forall|j: int|
                0 <= j < i ==> !(is_import_start(#[trigger] views(entry@)[j]) && is_helper_marker(
                    views(entry@)[j],
                )),
        decreases n - i,
    {
        let l: &String = &entry[i];
        if (str_starts_with_at(l.as_str(), "import", 0) || str_starts_with_at(l.as_str(), "from", 0))
            && str_contains(l.as_str(), "common.helpers") {
            assert(views(entry@)[i as int] == l@);
            return true;
        }
        i = i + 1;
    }
    false
}

/// Whether bundling this entry script will consult the sibling script.
pub fn entry_needs_script(entry: &Vec<String>) -> (r: bool)
    ensures
        r == entry_uses_script(views(entry@)),
{
    let n: usize = entry.len();
    let mut i: usize = 0;
    while i < n
        invariant
            0 <= i <= n,
            n == entry@.len(),
            forall|j: int|
                0 <= j < i ==> !(is_import_start(#[trigger] views(entry@)[j]) && !is_helper_marker(
                    views(entry@)[j],
                ) && is_script_marker(views(entry@)[j])),
        decreases n - i,
    {
        let l: &String = &entry[i];
        if (str_starts_with_at(l.as_str(), "import", 0) || str_starts_with_at(l.as_str(), "from", 0))
            && !str_contains(l.as_str(), "common.helpers") && str_contains(l.as_str(), ".script") {
            assert(views(entry@)[i as int] == l@);
            return true;
        }
        i = i + 1;
    }
    false
}

/// Whether resolving these lines (the sibling script's, or an adjacent
/// script's) will consult the helper module.
pub fn script_needs_helper(script: &Vec<String>) -> (r: bool)
    ensures
        r == script_uses_helper(views(script@)),
{
    let n: usize = script.len();
    let mut i: usize = 0;
    while i < n
        invariant
            0 <= i <= n,
            n == script@.len(),
            forall|j: int| 0 <= j < i ==> !is_helper_marker(#[trigger] views(script@)[j]),
        decreases n - i,
    {
        let l: &String = &script[i];
        if str_contains(l.as_str(), "common.helpers") {
            assert(views(script@)[i as int] == l@);
            return true;
        }
        i = i + 1;
    }
    false
}

/// The addresses of the adjacent scripts the sibling script imports, in
/// line order; the caller retrieves one file per address.
pub fn script_adjacent_paths(file: &Vec<String>, paths: &PathsMap) -> (r: Vec<String>)
    ensures
        views(r@) == spec_adjacent_paths_from(views(file@), paths.project@, 0),
{
    broadcast use lemma_views_push;

    let ghost sv: Seq<Seq<char>> = views(file@);
    let ghost target: Seq<Seq<char>> = spec_adjacent_paths_from(sv, paths.project@, 0);
    let mut out: Vec<String> = Vec::new();
    let n: usize = file.len();
    let mut i: usize = 0;
    while i < n
        invariant
            0 <= i <= n,
            n == file@.len(),
            sv == views(file@),
            target == spec_adjacent_paths_from(sv, paths.project@, 0),
            target =~= views(out@) + spec_adjacent_paths_from(sv, paths.project@, i as int),
        decreases n - i,
    {
        let l: &String = &file[i];
        proof {
            assert(sv[i as int] == l@);
        }
        if !str_contains(l.as_str(), "common.helpers") && str_contains(l.as_str(), "from")
            && str_contains(l.as_str(), "import") {
            match resolve_adjacent_script_path(l.as_str(), paths) {
                Some(p) => {
                    out.push(p);
                },
                None => {},
            }
        }
        i = i + 1;
    }
    out
}

/// Bundles one adjacent script: helper markers are replaced by the symbols
/// they request, extracted from the shared helper module; every other line
/// stands verbatim. Nothing recurses further.
pub fn bundle_adjacent_script_import_lines(file: &Vec<String>, helper_file: &Vec<String>) -> (r:
    Vec<String>)
    ensures
        views(r@) == spec_bundle_adjacent(views(file@), views(helper_file@)),
{
    broadcast use lemma_views_push;
    broadcast use lemma_views_concat;

    let ghost fv: Seq<Seq<char>> = views(file@);
    let ghost hv: Seq<Seq<char>> = views(helper_file@);
    let mut out: Vec<String> = Vec::new();
    let n: usize = file.len();
    let mut i: usize = 0;
    while i < n
        invariant
            0 <= i <= n,
            n == file@.len(),
            fv == views(file@),
            hv == views(helper_file@),
            spec_bundle_adjacent(fv, hv) =~= views(out@) + spec_bundle_adjacent_from(
                fv,
                hv,
                i as int,
            ),
        decreases n - i,
    {
        let l: &String = &file[i];
        proof {
            assert(fv[i as int] == l@);
        }
        if str_contains(l.as_str(), "common.helpers") {
            let mut part: Vec<String> = bundle_common_import_lines(l, helper_file);
            out.append(&mut part);
        } else {
            out.push(l.clone());
        }
        i = i + 1;
    }
    out
}

/// Bundles the sibling script: helper imports are resolved against the
/// helper module, cross-group imports against the adjacent files supplied
/// in resolution order, and every other line stands verbatim.
pub fn bundle_script_import_lines(
    file: &Vec<String>,
    helper_file: &Vec<String>,
    paths: &PathsMap,
    adjacent_files: &Vec<Vec<String>>,
) -> (r: Vec<String>)
    ensures
        views(r@) == spec_bundle_script(
            views(file@),
            views(helper_file@),
            paths.project@,
            file_views(adjacent_files@),
        ),
{
    broadcast use lemma_views_push;
    broadcast use lemma_views_concat;

    let ghost sv: Seq<Seq<char>> = views(file@);
    let ghost hv: Seq<Seq<char>> = views(helper_file@);
    let ghost av: Seq<Seq<Seq<char>>> = file_views(adjacent_files@);
    let mut out: Vec<String> = Vec::new();
    let n: usize = file.len();
    let mut i: usize = 0;
    let mut k: usize = 0;
    while i < n
        invariant
            0 <= i <= n,
            0 <= k <= i,
            n == file@.len(),
            sv == views(file@),
            hv == views(helper_file@),
            av == file_views(adjacent_files@),
            spec_bundle_script(sv, hv, paths.project@, av) =~= views(out@)
                + spec_bundle_script_from(sv, hv, paths.project@, av, i as int, k as int),
        decreases n - i,
    {
        let l: &String = &file[i];
        proof {
            assert(sv[i as int] == l@);
        }
        if str_contains(l.as_str(), "common.helpers") {
            let mut part: Vec<String> = bundle_common_import_lines(l, helper_file);
            out.append(&mut part);
        } else if str_contains(l.as_str(), "from") && str_contains(l.as_str(), "import") {
            match resolve_adjacent_script_path(l.as_str(), paths) {
                Some(_) => {
                    if k < adjacent_files.len() {
                        proof {
                            assert(av[k as int] == views(adjacent_files@[k as int]@));
                        }
                        let mut part: Vec<String> = bundle_adjacent_script_import_lines(
                            &adjacent_files[k],
                            helper_file,
                        );
                        out.append(&mut part);
                    }
                    k = k + 1;
                },
                None => {},
            }
        } else {
            out.push(l.clone());
        }
        i = i + 1;
    }
    out
}

/// Bundles one entry script into its flattened document. The caller hands
/// over the entry lines and the lines of whatever files resolution will
/// consult: the helper module and sibling script where the entry imports
/// them, and one adjacent file per address listed by
/// `script_adjacent_paths` on the sibling script.
pub fn build_bundle(
    entry: &Vec<String>,
    helper_file: &Option<Vec<String>>,
    script_file: &Option<Vec<String>>,
    adjacent_files: &Vec<Vec<String>>,
    paths: &PathsMap,
) -> (r: Vec<String>)
    ensures
        views(r@) == spec_build_bundle(
            views(entry@),
            opt_views(*helper_file),
            spec_bundle_script(
                opt_views(*script_file),
                opt_views(*helper_file),
                paths.project@,
                file_views(adjacent_files@),
            ),
        ),
{
    broadcast use lemma_views_push;
    broadcast use lemma_views_concat;

    let empty_file: Vec<String> = Vec::new();
    let helper_ref: &Vec<String> = match helper_file {
        Some(h) => h,
        None => &empty_file,
    };
    let script_ref: &Vec<String> = match script_file {
        Some(s) => s,
        None => &empty_file,
    };
    proof {
        assert(views(helper_ref@) =~= opt_views(*helper_file));
        assert(views(script_ref@) =~= opt_views(*script_file));
    }
    let ghost ev: Seq<Seq<char>> = views(entry@);
    let ghost hv: Seq<Seq<char>> = opt_views(*helper_file);
    let ghost sb: Seq<Seq<char>> = spec_bundle_script(
        opt_views(*script_file),
        hv,
        paths.project@,
        file_views(adjacent_files@),
    );
    let mut out: Vec<String> = Vec::new();
    let n: usize = entry.len();
    let mut i: usize = 0;
    while i < n
        invariant
            0 <= i <= n,
            n == entry@.len(),
            ev == views(entry@),
            hv == opt_views(*helper_file),
            views(helper_ref@) == hv,
            views(script_ref@) == opt_views(*script_file),
            sb == spec_bundle_script(
                opt_views(*script_file),
                hv,
                paths.project@,
                file_views(adjacent_files@),
            ),
            spec_build_bundle(ev, hv, sb) =~= views(out@) + spec_build_bundle_from(
                ev,
                hv,
                sb,
                i as int,
            ),
        decreases n - i,
    {
        let l: &String = &entry[i];
        proof {
            assert(ev[i as int] == l@);
        }
        if !(str_starts_with_at(l.as_str(), "import", 0) || str_starts_with_at(
            l.as_str(),
            "from",
            0,
        )) {
            out.push(l.clone());
        } else if str_contains(l.as_str(), "common.helpers") {
            let mut part: Vec<String> = bundle_common_import_lines(l, helper_ref);
            out.append(&mut part);
        } else if str_contains(l.as_str(), ".script") {
            let mut part: Vec<String> = bundle_script_import_lines(
                script_ref,
                helper_ref,
                paths,
                adjacent_files,
            );
            out.append(&mut part);
        }
        i = i + 1;
    }
    out
}

} // verus!
