//! Top-level-directory inference for the three archive families.
//!
//! Listing an archive's entries is delegated to the format crates behind
//! trusted wrappers; everything the listing is used for — inferring the
//! single directory the payload is rooted under — is verified here.  Writing
//! the unpacked files to disk is the caller's task.

use vstd::prelude::*;

use crate::fs::{spec_common_parent, find_common_parent, lemma_common_parent_under_root, FSError};
use crate::helper::get_file_name;
use crate::paths::{
    lemma_split_boundary, lemma_split_path_len, lemma_strip_idempotent, lemma_strip_join_prefix,
    parent_dir, path_join, path_starts_with, seg_end, seg_prefix, spec_file_name, spec_join,
    spec_parent_dir, spec_strip_trailing_seps, split_path, split_path_exec, strip_trailing_seps,
};
use crate::text::str_eq;

verus! {

/// One entry of an archive listing: its path inside the archive and whether
/// it is a directory entry.
#[derive(Clone, Debug)]
pub struct ArchiveEntry {
    pub path: String,
    pub is_dir: bool,
}

impl View for ArchiveEntry {
    type V = (Seq<char>, bool);

    open spec fn view(&self) -> (Seq<char>, bool) {
        (self.path@, self.is_dir)
    }
}

/// One entry of a zip listing: its raw stored name and, when the name is a
/// safe relative path, that sanitized path.
#[derive(Clone, Debug)]
pub struct ZipEntry {
    pub name: String,
    pub enclosed: Option<String>,
}

impl View for ZipEntry {
    type V = (Seq<char>, Option<Seq<char>>);

    open spec fn view(&self) -> (Seq<char>, Option<Seq<char>>) {
        (self.name@, match self.enclosed {
            Option::Some(p) => Option::Some(p@),
            Option::None => Option::None,
        })
    }
}

/// The zip entry table of the archive bytes, in index order.
pub uninterp spec fn zip_entries_of(bytes: Seq<u8>) -> Seq<(Seq<char>, Option<Seq<char>>)>;

/// Whether the zip central directory of the bytes can be listed at all.
pub uninterp spec fn zip_listing_ok(bytes: Seq<u8>) -> bool;

/// The path of the first entry of the gzipped tar stream, when the stream
/// has one and its path is text.
pub uninterp spec fn targz_first_path_of(bytes: Seq<u8>) -> Option<Seq<char>>;

/// Whether the gzipped tar stream of the bytes yields its first entry
/// without a read error.
pub uninterp spec fn targz_first_ok(bytes: Seq<u8>) -> bool;

/// Relies on zip::ZipArchive (new, len, by_index) and ZipFile (name,
/// enclosed_name): the entries of a zip archive in index order, with each
/// raw name and its sanitized relative path, and whether listing succeeds;
/// both depend on the bytes alone.  One caveat: `enclosed_name` sanitizes by
/// the compile target's path rules, so for stored names containing `\` the
/// entry table is per-target.
#[verifier::external_body]
fn zip_entry_list(bytes: &Vec<u8>) -> (r: Result<Vec<ZipEntry>, String>)
    ensures
        r matches Ok(v) ==> v@.map_values(|e: ZipEntry| e@) == zip_entries_of(bytes@),
        r is Ok <==> zip_listing_ok(bytes@),
{
    let cursor = std::io::Cursor::new(bytes.as_slice());
    let mut archive = match zip::ZipArchive::new(cursor) {
        Ok(a) => a,
        Err(e) => return Err(e.to_string()),
    };
    let mut out = Vec::new();
    for i in 0..archive.len() {
        let entry = match archive.by_index(i) {
            Ok(f) => f,
            Err(e) => return Err(e.to_string()),
        };
        let enclosed = entry.enclosed_name().and_then(|p| p.to_str().map(|s| s.to_string()));
        out.push(ZipEntry { name: entry.name().to_string(), enclosed });
    }
    Ok(out)
}

/// Relies on flate2::read::GzDecoder and tar::Archive::entries: the path of
/// the first entry of a gzipped tar stream, and whether reading it
/// succeeds; both depend on the bytes alone.
#[verifier::external_body]
fn targz_first_path(bytes: &Vec<u8>) -> (r: Result<Option<String>, String>)
    ensures
        r matches Ok(o) ==> (match o {
            Option::Some(p) => targz_first_path_of(bytes@) == Option::Some(p@),
            Option::None => targz_first_path_of(bytes@) is None,
        }),
        r is Ok <==> targz_first_ok(bytes@),
{
    let decoder = flate2::read::GzDecoder::new(std::io::Cursor::new(bytes.as_slice()));
    let mut archive = tar::Archive::new(decoder);
    let mut entries = match archive.entries() {
        Ok(e) => e,
        Err(e) => return Err(e.to_string()),
    };
    match entries.next() {
        None => Ok(None),
        Some(Err(e)) => Err(e.to_string()),
        Some(Ok(entry)) => match entry.path() {
            Ok(p) => Ok(p.to_str().map(|s| s.to_string())),
            Err(e) => Err(e.to_string()),
        },
    }
}

/// The top folder a tar stream is rooted under: the first segment of its
/// first entry's path, or the next segment when the first is a root,
/// current-directory or parent-directory marker.
pub open spec fn spec_tar_top(first: Option<Seq<char>>) -> Option<Seq<char>> {
    match first {
        Option::None => Option::None,
        Option::Some(p) => {
            let segs = split_path(p);
            let head = segs[0];
            if head.len() == 0 || head == seq!['.'] || head == seq!['.', '.'] {
                if segs.len() >= 2 {
                    Option::Some(segs[1])
                } else {
                    Option::None
                }
            } else {
                Option::Some(head)
            }
        },
    }
}

/// Infers the top folder of a gzipped tar stream from its bytes; it
/// succeeds exactly when the stream's first entry can be read.
pub fn deflate(data: &Vec<u8>) -> (r: Result<Option<String>, FSError>)
    ensures
        r matches Ok(f) ==> (match f {
            Option::Some(s) => spec_tar_top(targz_first_path_of(data@)) == Option::Some(s@),
            Option::None => spec_tar_top(targz_first_path_of(data@)) is None,
        }),
        r is Ok <==> targz_first_ok(data@),
        r matches Err(e) ==> e matches FSError::Io(_),
{
    match targz_first_path(data) {
        Err(m) => Err(FSError::Io(m)),
        Ok(None) => Ok(None),
        Ok(Some(p)) => {
            let (segs, _ends) = split_path_exec(p.as_str());
            proof {
                lemma_split_path_len(p@);
                reveal_strlit(".");
                reveal_strlit("..");
                assert("."@ =~= seq!['.']);
                assert(".."@ =~= seq!['.', '.']);
            }
            let head = &segs[0];
            if head.as_str().unicode_len() == 0 || str_eq(head.as_str(), ".") || str_eq(
                head.as_str(),
                "..",
            ) {
                if segs.len() >= 2 {
                    Ok(Some(segs[1].clone()))
                } else {
                    Ok(None)
                }
            } else {
                Ok(Some(head.clone()))
            }
        },
    }
}

/// Where a 7z directory entry lands under the destination root.
pub open spec fn spec_dest_path(root: Seq<char>, rel: Seq<char>) -> Seq<char> {
    spec_strip_trailing_seps(spec_join(spec_strip_trailing_seps(root), rel))
}

/// The running outermost directory over the 7z entries: a directory entry
/// replaces the tracked one whenever the tracked one lies below it.
pub open spec fn spec_sevenz_top(entries: Seq<(Seq<char>, bool)>, root: Seq<char>) -> Option<
    Seq<char>,
>
    decreases entries.len(),
{
    if entries.len() == 0 {
        Option::None
    } else {
        let prev = spec_sevenz_top(entries.drop_last(), root);
        let e = entries.last();
        if e.1 {
            let dest = spec_dest_path(root, e.0);
            match prev {
                Option::None => Option::Some(dest),
                Option::Some(top) => if seg_prefix(split_path(dest), split_path(top)) {
                    Option::Some(dest)
                } else {
                    Option::Some(top)
                },
            }
        } else {
            prev
        }
    }
}

/// The reported 7z top folder: the name segment of the converged directory.
pub open spec fn spec_sevenz_result(entries: Seq<(Seq<char>, bool)>, root: Seq<char>) -> Option<
    Seq<char>,
> {
    match spec_sevenz_top(entries, root) {
        Option::None => Option::None,
        Option::Some(folder) => spec_file_name(folder),
    }
}

/// Infers the top folder of a 7z archive from its entry table; `to_path` is
/// the extraction root.  The table comes from the caller's unpacking tool:
/// the format crate's header parser can abort on crafted bytes, so this
/// crate does not call it, and the inference here is verified for every
/// table the caller hands in.
pub fn sevenz(entries: &Vec<ArchiveEntry>, to_path: &str) -> (r: Option<String>)
    ensures
        match r {
            Option::Some(s) => spec_sevenz_result(
                entries@.map_values(|e: ArchiveEntry| e@),
                to_path@,
            ) == Option::Some(s@),
            Option::None => spec_sevenz_result(
                entries@.map_values(|e: ArchiveEntry| e@),
                to_path@,
            ) is None,
        },
{
    let root = strip_trailing_seps(to_path);
    let ghost all = entries@.map_values(|e: ArchiveEntry| e@);
    let mut top: Option<String> = None;
    let mut i: usize = 0;
    proof {
        assert(all.subrange(0, 0) =~= Seq::<(Seq<char>, bool)>::empty());
    }
    while i < entries.len()
        invariant
            i <= entries@.len(),
            entries@.map_values(|e: ArchiveEntry| e@) == all,
            root@ == spec_strip_trailing_seps(to_path@),
            match top {
                Option::Some(t) => spec_sevenz_top(all.subrange(0, i as int), to_path@)
                    == Option::Some(t@),
                Option::None => spec_sevenz_top(all.subrange(0, i as int), to_path@) is None,
            },
        decreases entries@.len() - i,
    {
        proof {
            assert(all.subrange(0, i + 1).drop_last() =~= all.subrange(0, i as int));
            assert(all.subrange(0, i + 1).last() == entries@.map_values(
                |e: ArchiveEntry| e@,
            )[i as int]);
        }
        if entries[i].is_dir {
            let joined = path_join(root.as_str(), entries[i].path.as_str());
            let dest = strip_trailing_seps(joined.as_str());
            let new_top = match top {
                None => Some(dest),
                Some(t) => {
                    if path_starts_with(t.as_str(), dest.as_str()) {
                        Some(dest)
                    } else {
                        Some(t)
                    }
                },
            };
            top = new_top;
        }
        i += 1;
    }
    proof {
        assert(all.subrange(0, all.len() as int) =~= all);
    }
    match top {
        None => None,
        Some(folder) => get_file_name(folder.as_str()),
    }
}

/// A zip entry name marks a directory when it ends with `/`.
pub open spec fn is_dir_name(name: Seq<char>) -> bool {
    name.len() > 0 && name.last() == '/'
}

/// The earliest directory entry of least depth, as a path under the root:
/// the directory the payload is rooted under when the archive lists its
/// directories explicitly.
pub open spec fn spec_zip_shortest_dir(
    entries: Seq<(Seq<char>, Option<Seq<char>>)>,
    root: Seq<char>,
) -> Option<Seq<char>>
    decreases entries.len(),
{
    if entries.len() == 0 {
        Option::None
    } else {
        let prev = spec_zip_shortest_dir(entries.drop_last(), root);
        let e = entries.last();
        match e.1 {
            Option::Some(rel) => if is_dir_name(e.0) {
                let cand = spec_dest_path(root, rel);
                match prev {
                    Option::None => Option::Some(cand),
                    Option::Some(best) => if split_path(cand).len() < split_path(best).len() {
                        Option::Some(cand)
                    } else {
                        Option::Some(best)
                    },
                }
            } else {
                prev
            },
            Option::None => prev,
        }
    }
}

/// The directory a file entry contributes to the ancestor fold: its parent,
/// except that an entry resolving to the root itself contributes the root.
pub open spec fn spec_zip_child(root: Seq<char>, rel: Seq<char>) -> Seq<char> {
    let sp = spec_dest_path(root, rel);
    if split_path(sp).len() > split_path(spec_strip_trailing_seps(root)).len() {
        spec_parent_dir(sp)
    } else {
        sp
    }
}

/// The running lowest common ancestor of the file entries' parent
/// directories, relative to the root.
pub open spec fn spec_zip_file_lca(
    entries: Seq<(Seq<char>, Option<Seq<char>>)>,
    root: Seq<char>,
) -> Option<Seq<char>>
    decreases entries.len(),
{
    if entries.len() == 0 {
        Option::None
    } else {
        let prev = spec_zip_file_lca(entries.drop_last(), root);
        let e = entries.last();
        match e.1 {
            Option::Some(rel) => if !is_dir_name(e.0) {
                let child = spec_zip_child(root, rel);
                match prev {
                    Option::None => Option::Some(child),
                    Option::Some(top) => Option::Some(
                        spec_common_parent(top, child, spec_strip_trailing_seps(root)),
                    ),
                }
            } else {
                prev
            },
            Option::None => prev,
        }
    }
}

/// The reported zip top folder: the name segment of the shortest explicit
/// directory when one exists, else of the files' common ancestor; none when
/// that directory is the root itself.
pub open spec fn spec_zip_result(
    entries: Seq<(Seq<char>, Option<Seq<char>>)>,
    root: Seq<char>,
) -> Option<Seq<char>> {
    let rn = spec_strip_trailing_seps(root);
    match spec_zip_shortest_dir(entries, root) {
        Option::Some(d) => if d == rn {
            Option::None
        } else {
            spec_file_name(d)
        },
        Option::None => match spec_zip_file_lca(entries, root) {
            Option::Some(a) => if a == rn {
                Option::None
            } else {
                spec_file_name(a)
            },
            Option::None => Option::None,
        },
    }
}

/// A file entry's contributed directory lies under the normalized root.
proof fn lemma_zip_child_under_root(root: Seq<char>, rel: Seq<char>)
    ensures
        seg_prefix(
            split_path(spec_strip_trailing_seps(root)),
            split_path(spec_zip_child(root, rel)),
        ),
{
    let rn = spec_strip_trailing_seps(root);
    lemma_strip_idempotent(root);
    lemma_strip_join_prefix(rn, rel);
    let sp = spec_dest_path(root, rel);
    crate::paths::lemma_split_path_len(rn);
    crate::paths::lemma_split_path_len(sp);
    if split_path(sp).len() > split_path(rn).len() {
        lemma_split_boundary(sp, split_path(sp).len() - 1);
        let cut = sp.subrange(0, seg_end(split_path(sp), split_path(sp).len() - 1));
        assert(split_path(cut) == split_path(sp).subrange(0, split_path(sp).len() - 1));
        assert(split_path(rn) =~= split_path(cut).subrange(0, split_path(rn).len() as int)) by {
            assert(split_path(rn) == split_path(sp).subrange(0, split_path(rn).len() as int));
            assert(forall|j: int|
                0 <= j < split_path(rn).len() ==> split_path(sp).subrange(
                    0,
                    split_path(sp).len() - 1,
                )[j] == split_path(sp)[j]);
        }
    }
}

/// The running ancestor lies under the normalized root.
proof fn lemma_zip_lca_under_root(entries: Seq<(Seq<char>, Option<Seq<char>>)>, root: Seq<char>)
    ensures
        spec_zip_file_lca(entries, root) matches Option::Some(a) ==> seg_prefix(
            split_path(spec_strip_trailing_seps(root)),
            split_path(a),
        ),
    decreases entries.len(),
{
    if entries.len() > 0 {
        lemma_zip_lca_under_root(entries.drop_last(), root);
        let e = entries.last();
        match e.1 {
            Option::Some(rel) => {
                if !is_dir_name(e.0) {
                    lemma_zip_child_under_root(root, rel);
                    match spec_zip_file_lca(entries.drop_last(), root) {
                        Option::Some(top) => {
                            lemma_common_parent_under_root(
                                top,
                                spec_zip_child(root, rel),
                                spec_strip_trailing_seps(root),
                            );
                        },
                        Option::None => {},
                    }
                }
            },
            Option::None => {},
        }
    }
}

/// Infers the top folder of a zip archive from its bytes; `to_path` is the
/// extraction root.  It succeeds exactly when the entry listing does.
pub fn unzip(data: &Vec<u8>, to_path: &str) -> (r: Result<Option<String>, FSError>)
    ensures
        r matches Ok(f) ==> (match f {
            Option::Some(s) => spec_zip_result(zip_entries_of(data@), to_path@) == Option::Some(
                s@,
            ),
            Option::None => spec_zip_result(zip_entries_of(data@), to_path@) is None,
        }),
        r is Ok <==> zip_listing_ok(data@),
        r matches Err(e) ==> e matches FSError::Zip(_),
{
    let entries = match zip_entry_list(data) {
        Ok(v) => v,
        Err(m) => {
            return Err(FSError::Zip(m));
        },
    };
    let root = strip_trailing_seps(to_path);
    let ghost all = zip_entries_of(data@);
    proof {
        assert(all.subrange(0, 0) =~= Seq::<(Seq<char>, Option<Seq<char>>)>::empty());
    }
    let mut best: Option<String> = None;
    let mut i: usize = 0;
    while i < entries.len()
        invariant
            i <= entries@.len(),
            entries@.map_values(|e: ZipEntry| e@) == all,
            root@ == spec_strip_trailing_seps(to_path@),
            match best {
                Option::Some(d) => spec_zip_shortest_dir(all.subrange(0, i as int), to_path@)
                    == Option::Some(d@),
                Option::None => spec_zip_shortest_dir(all.subrange(0, i as int), to_path@)
                    is None,
            },
        decreases entries@.len() - i,
    {
        proof {
            assert(all.subrange(0, i + 1).drop_last() =~= all.subrange(0, i as int));
            assert(all.subrange(0, i + 1).last() == entries@.map_values(
                |e: ZipEntry| e@,
            )[i as int]);
        }
        let is_dir = ends_with_slash(entries[i].name.as_str());
        match &entries[i].enclosed {
            Some(rel) => {
                if is_dir {
                    let joined = path_join(root.as_str(), rel.as_str());
                    let cand = strip_trailing_seps(joined.as_str());
                    let (cand_segs, _ce) = split_path_exec(cand.as_str());
                    let new_best = match best {
                        None => Some(cand),
                        Some(b) => {
                            let (best_segs, _be) = split_path_exec(b.as_str());
                            if cand_segs.len() < best_segs.len() {
                                Some(cand)
                            } else {
                                Some(b)
                            }
                        },
                    };
                    best = new_best;
                }
            },
            None => {},
        }
        i += 1;
    }
    proof {
        assert(all.subrange(0, all.len() as int) =~= all);
    }
    match best {
        Some(d) => {
            if str_eq(d.as_str(), root.as_str()) {
                Ok(None)
            } else {
                Ok(get_file_name(d.as_str()))
            }
        },
        None => {
            let mut top: Option<String> = None;
            let mut i: usize = 0;
            proof {
                assert(all.subrange(0, 0) =~= Seq::<(Seq<char>, Option<Seq<char>>)>::empty());
            }
            while i < entries.len()
                invariant
                    i <= entries@.len(),
                    entries@.map_values(|e: ZipEntry| e@) == all,
                    root@ == spec_strip_trailing_seps(to_path@),
                    match top {
                        Option::Some(t) => spec_zip_file_lca(all.subrange(0, i as int), to_path@)
                            == Option::Some(t@),
                        Option::None => spec_zip_file_lca(all.subrange(0, i as int), to_path@)
                            is None,
                    },
                decreases entries@.len() - i,
            {
                proof {
                    assert(all.subrange(0, i + 1).drop_last() =~= all.subrange(0, i as int));
                    assert(all.subrange(0, i + 1).last() == entries@.map_values(
                        |e: ZipEntry| e@,
                    )[i as int]);
                }
                let is_dir = ends_with_slash(entries[i].name.as_str());
                match &entries[i].enclosed {
                    Some(rel) => {
                        if !is_dir {
                            let joined = path_join(root.as_str(), rel.as_str());
                            let sp = strip_trailing_seps(joined.as_str());
                            let (sp_segs, sp_ends) = split_path_exec(sp.as_str());
                            let (root_segs, _re) = split_path_exec(root.as_str());
                            let child: String = if sp_segs.len() > root_segs.len() {
                                parent_dir(sp.as_str())
                            } else {
                                sp
                            };
                            proof {
                                lemma_strip_idempotent(to_path@);
                                assert(child@ == spec_zip_child(to_path@, rel@));
                                lemma_zip_child_under_root(to_path@, rel@);
                                lemma_zip_lca_under_root(all.subrange(0, i as int), to_path@);
                            }
                            let new_top = match top {
                                None => Some(child),
                                Some(t) => Some(
                                    find_common_parent(t.as_str(), child.as_str(), root.as_str()),
                                ),
                            };
                            top = new_top;
                        }
                    },
                    None => {},
                }
                i += 1;
            }
            proof {
                assert(all.subrange(0, all.len() as int) =~= all);
            }
            match top {
                Some(a) => {
                    if str_eq(a.as_str(), root.as_str()) {
                        Ok(None)
                    } else {
                        Ok(get_file_name(a.as_str()))
                    }
                },
                None => Ok(None),
            }
        },
    }
}

fn ends_with_slash(name: &str) -> (r: bool)
    ensures
        r == is_dir_name(name@),
{
    let n = name.unicode_len();
    if n == 0 {
        return false;
    }
    let c = name.get_char(n - 1);
    c == '/'
}

} // verus!
