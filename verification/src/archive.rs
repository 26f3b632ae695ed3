//! Packaging the bundled documents into one archive for distribution.
//!
//! Each bundled document becomes one archive entry named `<script>.py`,
//! holding the document's lines joined by single newlines, stored without
//! compression. The archive bytes and their transmission encoding come
//! from outside crates; what they yield is pinned through the names
//! `zip_payload` and `base64_of`.

use vstd::prelude::*;
use vstd::string::StrSliceExecFns;
use vstd::string::StringExecFns;
use crate::text::views;

verus! {

/// One bundled document, named after the requested script it was built
/// for.
pub struct FileObject {
    pub script_name: String,
    pub contents: Vec<String>,
}

/// The lines joined by single newlines, from line `i` on.
pub open spec fn join_from(ls: Seq<Seq<char>>, i: int) -> Seq<char>
    decreases ls.len() - i,
{
    if i < 0 || i >= ls.len() {
        Seq::empty()
    } else if i == ls.len() - 1 {
        ls[i]
    } else {
        ls[i] + seq!['\n'] + join_from(ls, i + 1)
    }
}

/// The lines joined by single newlines.
pub open spec fn join_lines(ls: Seq<Seq<char>>) -> Seq<char> {
    join_from(ls, 0)
}

/// The archive entries a collection of documents is owed: one per
/// document, in order, named `<script>.py`, holding the joined lines.
pub open spec fn spec_entries(files: Seq<FileObject>) -> Seq<(Seq<char>, Seq<char>)> {
    Seq::new(
        files.len(),
        |i: int| (files[i].script_name@ + ".py"@, join_lines(views(files[i].contents@))),
    )
}

/// The documents' script names are pairwise distinct, so the archive's
/// entry names are too.
pub open spec fn distinct_script_names(files: Seq<FileObject>) -> bool {
    forall|i: int, j: int|
        0 <= i < j < files.len() ==> (#[trigger] files[i].script_name)@ != (
        #[trigger] files[j].script_name)@
}

/// The conditions under which the archive writer is sure to accept every
/// entry: pairwise distinct script names, entry names within the format's
/// name-length field, and each document within the plain (non-zip64) size
/// limit. The factor of four covers the widest character encoding.
pub open spec fn archive_within_limits(files: Seq<FileObject>) -> bool {
    &&& distinct_script_names(files)
    &&& forall|i: int|
        0 <= i < files.len() ==> 4 * ((#[trigger] files[i].script_name)@.len() + 3) <= 65535
    &&& forall|i: int|
        0 <= i < files.len() ==> 4 * join_lines(views((#[trigger] files[i].contents)@)).len()
            <= 4294967295
}

/// Appending one suffix to two sequences keeps them apart: equal results
/// come only from equal prefixes.
proof fn lemma_suffix_cancel(a: Seq<char>, b: Seq<char>, s: Seq<char>)
    requires
        a + s == b + s,
    ensures
        a == b,
{
    assert((a + s).len() == (b + s).len());
    assert(a =~= (a + s).subrange(0, a.len() as int));
    assert(b =~= (b + s).subrange(0, b.len() as int));
}

/// An archive request yields one entry per document, named after its
/// script: entry `i` is `<name>.py` and holds the document's lines joined
/// by newlines.
pub proof fn lemma_one_entry_per_script(files: Seq<FileObject>)
    ensures
        spec_entries(files).len() == files.len(),
        forall|i: int|
            0 <= i < files.len() ==> (#[trigger] spec_entries(files)[i]).0
                == files[i].script_name@ + ".py"@,
        forall|i: int|
            0 <= i < files.len() ==> (#[trigger] spec_entries(files)[i]).1 == join_lines(
                views(files[i].contents@),
            ),
{
}

/// Joins a document's lines with single newlines.
pub fn join_contents(lines: &Vec<String>) -> (r: String)
    ensures
        r@ == join_lines(views(lines@)),
{
    let ghost lv: Seq<Seq<char>> = views(lines@);
    let mut out: String = String::new();
    let n: usize = lines.len();
    let mut i: usize = 0;
    while i < n
        invariant
            0 <= i <= n,
            n == lines@.len(),
            lv == views(lines@),
            join_lines(lv) =~= out@ + join_from(lv, i as int),
        decreases n - i,
    {
        proof {
            assert(lv[i as int] == lines@[i as int]@);
        }
        out.append(lines[i].as_str());
        if i + 1 < n {
            out.append("\n");
            proof {
                reveal_strlit("\n");
                assert("\n"@ =~= seq!['\n']);
            }
        }
        i = i + 1;
    }
    out
}

/// An archive writer over an in-memory buffer. The writer itself comes
/// from the zip crate and is held opaquely; what it holds is pinned
/// through `zip_entries_of`.
#[verifier::external_body]
pub struct ArchiveWriter {
    inner: zip::write::ZipWriter<std::io::Cursor<Vec<u8>>>,
}

/// The entries an archive writer holds so far: name and text content of
/// each, in the order they were started.
pub uninterp spec fn zip_entries_of(w: ArchiveWriter) -> Seq<(Seq<char>, Seq<char>)>;

/// The writer's last entry is open for writing, as a successful
/// `zip_start_entry` leaves it: stored, unencrypted, over the in-memory
/// buffer.
pub uninterp spec fn zip_entry_open(w: ArchiveWriter) -> bool;

/// The entries a reader of the finished archive finds in its bytes.
pub uninterp spec fn zip_payload(bytes: Seq<u8>) -> Seq<(Seq<char>, Seq<char>)>;

/// The standard, padded base64 rendering of a byte sequence.
pub uninterp spec fn base64_of(bytes: Seq<u8>) -> Seq<char>;

/// Relies on zip::write::ZipWriter::new: a writer over a fresh in-memory
/// buffer starts with no entries.
#[verifier::external_body]
fn zip_writer_new() -> (w: ArchiveWriter)
    ensures
        zip_entries_of(w) == Seq::<(Seq<char>, Seq<char>)>::empty(),
{
    ArchiveWriter { inner: zip::write::ZipWriter::new(std::io::Cursor::new(Vec::new())) }
}

/// Relies on zip::write::ZipWriter::start_file: on success a new, empty
/// entry is open under the given name, stored uncompressed and taken
/// verbatim. The crate refuses a name already started; a fresh name whose
/// bytes fit the format's name-length field it accepts, since with these
/// fixed options every other step only writes to the in-memory buffer. On
/// failure nothing is promised of the writer's state.
#[verifier::external_body]
fn zip_start_entry(w: &mut ArchiveWriter, name: &String) -> (ok: bool)
    ensures
        ok ==> zip_entries_of(*final(w)) == zip_entries_of(*old(w)).push(
            (name@, Seq::<char>::empty()),
        ),
        ok ==> zip_entry_open(*final(w)),
        (exists|j: int|
            0 <= j < zip_entries_of(*old(w)).len() && (#[trigger] zip_entries_of(*old(w))[j]).0
                == name@) ==> !ok,
        (forall|j: int|
            0 <= j < zip_entries_of(*old(w)).len() ==> (#[trigger] zip_entries_of(*old(w))[j]).0
                != name@) && 4 * name@.len() <= 65535 ==> ok,
{
    let options = zip::write::SimpleFileOptions::default().compression_method(
        zip::CompressionMethod::Stored,
    ).unix_permissions(0o755);
    w.inner.start_file(name.as_str(), options).is_ok()
}

/// Relies on the std::io::Write impl of zip::write::ZipWriter: with an
/// entry open, the bytes of the text are appended to it. Writing to the
/// in-memory buffer fails only past the plain format's size limit, so a
/// write that keeps the entry under it succeeds.
#[verifier::external_body]
fn zip_write_entry_text(w: &mut ArchiveWriter, text: &String) -> (ok: bool)
    requires
        zip_entries_of(*old(w)).len() > 0,
        zip_entry_open(*old(w)),
    ensures
        ok ==> zip_entries_of(*final(w)) == zip_entries_of(*old(w)).update(
            zip_entries_of(*old(w)).len() - 1,
            (
                zip_entries_of(*old(w)).last().0,
                zip_entries_of(*old(w)).last().1 + text@,
            ),
        ),
        ok ==> zip_entry_open(*final(w)),
        4 * (zip_entries_of(*old(w)).last().1.len() + text@.len()) <= 4294967295 ==> ok,
{
    std::io::Write::write_all(&mut w.inner, text.as_bytes()).is_ok()
}

/// Relies on zip::write::ZipWriter::finish and std::io::Cursor::into_inner:
/// finishing a fresh or properly open writer only writes the central
/// directory to the in-memory buffer, so it succeeds, and the returned
/// bytes are a finished archive in which a reader finds exactly the
/// entries that were written, in order.
#[verifier::external_body]
fn zip_finish(w: ArchiveWriter) -> (r: Option<Vec<u8>>)
    requires
        zip_entries_of(w).len() == 0 || zip_entry_open(w),
    ensures
        r is Some,
        r matches Some(b) ==> zip_payload(b@) == zip_entries_of(w),
{
    match w.inner.finish() {
        Ok(c) => Some(c.into_inner()),
        Err(_) => None,
    }
}

/// Relies on base64's STANDARD engine: the padded rendering is a function
/// of the input bytes alone, four characters for every three bytes begun.
#[verifier::external_body]
fn base64_encode(bytes: &Vec<u8>) -> (r: String)
    ensures
        r@ == base64_of(bytes@),
        r@.len() == 4 * ((bytes@.len() + 2) / 3),
{
    base64::Engine::encode(&base64::engine::general_purpose::STANDARD, bytes)
}

/// Serializes the bundled documents into one archive: one entry per
/// document, named `<script>.py`, its lines joined by single newlines,
/// stored without compression. Distinct script names within the format's
/// limits are owed an archive whose bytes decode to exactly one entry per
/// document, in order; two documents under one script name are refused,
/// with no archive at all.
pub fn create_zip(files: Vec<FileObject>) -> (r: Option<Vec<u8>>)
    ensures
        r matches Some(b) ==> zip_payload(b@) == spec_entries(files@),
        archive_within_limits(files@) ==> r is Some,
        !distinct_script_names(files@) ==> r is None,
{
    let ghost fv: Seq<FileObject> = files@;
    let mut w: ArchiveWriter = zip_writer_new();
    let n: usize = files.len();
    let mut i: usize = 0;
    while i < n
        invariant
            0 <= i <= n,
            n == files@.len(),
            fv == files@,
            zip_entries_of(w) == spec_entries(fv).subrange(0, i as int),
            i > 0 ==> zip_entry_open(w),
            forall|a: int, b: int|
                0 <= a < b < i ==> (#[trigger] spec_entries(fv)[a]).0 != (
                #[trigger] spec_entries(fv)[b]).0,
        decreases n - i,
    {
        let file: &FileObject = &files[i];
        let mut name: String = file.script_name.clone();
        name.append(".py");
        let contents: String = join_contents(&file.contents);
        proof {
            reveal_strlit(".py");
            assert(name@ == spec_entries(fv)[i as int].0);
            assert(contents@ == spec_entries(fv)[i as int].1);
        }
        let ghost entries0: Seq<(Seq<char>, Seq<char>)> = zip_entries_of(w);
        let ok1: bool = zip_start_entry(&mut w, &name);
        if !ok1 {
            proof {
                if archive_within_limits(fv) {
                    assert(4 * name@.len() <= 65535);
                    assert forall|j: int| 0 <= j < entries0.len() implies (#[trigger] entries0[j]).0
                        != name@ by {
                        assert(entries0[j] == spec_entries(fv)[j]);
                        if entries0[j].0 == name@ {
                            lemma_suffix_cancel(
                                fv[j].script_name@,
                                fv[i as int].script_name@,
                                ".py"@,
                            );
                        }
                    }
                    assert(false);
                }
            }
            return None;
        }
        let ok2: bool = zip_write_entry_text(&mut w, &contents);
        if !ok2 {
            proof {
                if archive_within_limits(fv) {
                    assert(zip_entries_of(w).last().1.len() == 0);
                    assert(false);
                }
            }
            return None;
        }
        proof {
            assert(Seq::<char>::empty() + contents@ =~= contents@);
            assert(zip_entries_of(w) =~~= spec_entries(fv).subrange(0, i as int + 1));
            assert forall|j: int| 0 <= j < i as int implies (#[trigger] spec_entries(fv)[j]).0
                != spec_entries(fv)[i as int].0 by {
                assert(entries0[j] == spec_entries(fv)[j]);
            }
        }
        i = i + 1;
    }
    proof {
        assert(spec_entries(fv).subrange(0, n as int) =~~= spec_entries(fv));
        assert forall|a: int, b: int|
            0 <= a < b < fv.len() implies (#[trigger] fv[a].script_name)@ != (
        #[trigger] fv[b].script_name)@ by {
            if fv[a].script_name@ == fv[b].script_name@ {
                assert(spec_entries(fv)[a].0 == spec_entries(fv)[b].0);
            }
        }
        assert(distinct_script_names(fv));
    }
    zip_finish(w)
}

/// Packages the bundled documents and renders the archive for
/// transmission: for distinct script names within the format's limits the
/// result is the base64 form of bytes that decode to exactly one entry per
/// document; two documents under one script name yield nothing.
pub fn package_bundles(files: Vec<FileObject>) -> (r: Option<String>)
    ensures
        r matches Some(s) ==> exists|b: Seq<u8>|
            s@ == base64_of(b) && #[trigger] zip_payload(b) == spec_entries(files@),
        archive_within_limits(files@) ==> r is Some,
        !distinct_script_names(files@) ==> r is None,
{
    let ghost filesv: Seq<FileObject> = files@;
    match create_zip(files) {
        None => None,
        Some(bytes) => {
            let s: String = base64_encode(&bytes);
            proof {
                assert(s@ == base64_of(bytes@) && zip_payload(bytes@) == spec_entries(filesv));
            }
            Some(s)
        },
    }
}

} // verus!
