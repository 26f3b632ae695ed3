//! Logical addresses of the remote files one bundling run consumes.
//!
//! The address record is computed once per requested script and passed down
//! unchanged through all resolution steps. An adjacent-script address is
//! built strictly from the project root and the three segments of a dotted
//! import path; the group and script the record was made for play no part
//! in it.

use vstd::prelude::*;
use vstd::string::StrSliceExecFns;
use vstd::string::StringExecFns;
use crate::text::{CharClass, run_end, scan_while, lemma_run_end, copy_range};

verus! {

/// The four addresses consumed while bundling one requested script: its
/// entry file, its sibling script file, the shared helper module, and the
/// project root that adjacent addresses are built from.
pub struct PathsMap {
    pub download: String,
    pub script: String,
    pub project: String,
    pub common_helpers: String,
}

/// Builds the address record for one requested script under a project root.
pub fn describe_paths(group_name: &String, script_name: &String, root_directory: &String) -> (r:
    PathsMap)
    ensures
        r.download@ == root_directory@ + "/"@ + group_name@ + "/"@ + script_name@
            + "/download.py"@,
        r.script@ == root_directory@ + "/"@ + group_name@ + "/"@ + script_name@ + "/script.py"@,
        r.common_helpers@ == root_directory@ + "/common/helpers.py"@,
        r.project@ == root_directory@,
{
    let mut download: String = root_directory.clone();
    download.append("/");
    download.append(group_name.as_str());
    download.append("/");
    download.append(script_name.as_str());
    download.append("/download.py");
    let mut script: String = root_directory.clone();
    script.append("/");
    script.append(group_name.as_str());
    script.append("/");
    script.append(script_name.as_str());
    script.append("/script.py");
    let mut common_helpers: String = root_directory.clone();
    common_helpers.append("/common/helpers.py");
    PathsMap { download, script, project: root_directory.clone(), common_helpers }
}

/// The second whitespace-separated token of a line, if there is one.
pub open spec fn second_token(l: Seq<char>) -> Option<Seq<char>> {
    let a0 = run_end(l, 0, CharClass::Space);
    if a0 >= l.len() {
        None
    } else {
        let e0 = run_end(l, a0, CharClass::NonSpace);
        let a1 = run_end(l, e0, CharClass::Space);
        if a1 >= l.len() {
            None
        } else {
            Some(l.subrange(a1, run_end(l, a1, CharClass::NonSpace)))
        }
    }
}

/// The first three dot-separated segments of a token, if it has at least
/// three; segments may be empty.
pub open spec fn dotted_triple(t: Seq<char>) -> Option<(Seq<char>, Seq<char>, Seq<char>)> {
    let k0 = run_end(t, 0, CharClass::NonDot);
    if k0 >= t.len() {
        None
    } else {
        let k1 = run_end(t, k0 + 1, CharClass::NonDot);
        if k1 >= t.len() {
            None
        } else {
            let k2 = run_end(t, k1 + 1, CharClass::NonDot);
            Some((t.subrange(0, k0), t.subrange(k0 + 1, k1), t.subrange(k1 + 1, k2)))
        }
    }
}

/// The adjacent-script address a line resolves to: the dotted path of its
/// second token read as `<group>.<script>.<file>`, rooted at the project
/// root. It depends on nothing else.
pub open spec fn spec_adjacent_path(l: Seq<char>, project: Seq<char>) -> Option<Seq<char>> {
    match second_token(l) {
        None => None,
        Some(t) => match dotted_triple(t) {
            None => None,
            Some(parts) => Some(
                project + "/"@ + parts.0 + "/"@ + parts.1 + "/"@ + parts.2 + ".py"@,
            ),
        },
    }
}

/// The resolved address is a function of the dotted path and the project
/// root alone: two address records with the same project root resolve every
/// line alike, whatever group or script they were made for.
pub proof fn lemma_adjacent_path_ignores_entry_context(l: Seq<char>, p1: PathsMap, p2: PathsMap)
    requires
        p1.project@ == p2.project@,
    ensures
        spec_adjacent_path(l, p1.project@) == spec_adjacent_path(l, p2.project@),
{
}

/// Resolves a cross-group import line to the address of the adjacent
/// script it names, from the project root and the dotted path alone.
pub fn resolve_adjacent_script_path(line: &str, paths: &PathsMap) -> (r: Option<String>)
    ensures
        r is Some == spec_adjacent_path(line@, paths.project@) is Some,
        r matches Some(p) ==> spec_adjacent_path(line@, paths.project@) == Some(p@),
{
    let n: usize = line.unicode_len();
    let a0: usize = scan_while(line, 0, CharClass::Space);
    proof {
        lemma_run_end(line@, 0, CharClass::Space);
    }
    if a0 == n {
        return None;
    }
    let e0: usize = scan_while(line, a0, CharClass::NonSpace);
    proof {
        lemma_run_end(line@, a0 as int, CharClass::NonSpace);
    }
    let a1: usize = scan_while(line, e0, CharClass::Space);
    proof {
        lemma_run_end(line@, e0 as int, CharClass::Space);
    }
    if a1 == n {
        return None;
    }
    let e1: usize = scan_while(line, a1, CharClass::NonSpace);
    proof {
        lemma_run_end(line@, a1 as int, CharClass::NonSpace);
    }
    let tok: String = copy_range(line, a1, e1);
    let t: &str = tok.as_str();
    let tn: usize = t.unicode_len();
    let k0: usize = scan_while(t, 0, CharClass::NonDot);
    proof {
        lemma_run_end(t@, 0, CharClass::NonDot);
    }
    if k0 == tn {
        return None;
    }
    let k1: usize = scan_while(t, k0 + 1, CharClass::NonDot);
    proof {
        lemma_run_end(t@, k0 as int + 1, CharClass::NonDot);
    }
    if k1 == tn {
        return None;
    }
    let k2: usize = scan_while(t, k1 + 1, CharClass::NonDot);
    proof {
        lemma_run_end(t@, k1 as int + 1, CharClass::NonDot);
    }
    let group: String = copy_range(t, 0, k0);
    let script: String = copy_range(t, k0 + 1, k1);
    let file: String = copy_range(t, k1 + 1, k2);
    let mut out: String = paths.project.clone();
    out.append("/");
    out.append(group.as_str());
    out.append("/");
    out.append(script.as_str());
    out.append("/");
    out.append(file.as_str());
    out.append(".py");
    Some(out)
}

} // verus!
