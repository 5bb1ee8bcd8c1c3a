//! On-disk layout and file-name classification.
//!
//! `AppDir` fixes where packages, links and logs live under the application
//! home directory; `get_file_type` classifies a downloaded file by its
//! extension; `find_common_parent` computes the deepest directory two paths
//! share below a root, the heart of the zip top-folder inference.

use vstd::prelude::*;

use crate::paths::{
    common_prefix_len, is_common_prefix_len, lemma_common_prefix_len_unique,
    lemma_split_path_len, path_join, seg_end, seg_prefix, segs_view, spec_extension, spec_join,
    split_path, split_path_exec, is_seg_prefix,
};
use crate::archive::{
    deflate, sevenz, spec_sevenz_result, spec_tar_top, spec_zip_result, targz_first_ok,
    targz_first_path_of, unzip, zip_entries_of, zip_listing_ok, ArchiveEntry,
};
use crate::text::{opt_view, str_eq};

verus! {

/// The fixed directories of one application home.
#[derive(Clone, Debug)]
pub struct AppDir {
    pub home_dir: String,
    pub log_dir: String,
    pub bin_dir: String,
    pub packages_dir: String,
    pub alias_dir: String,
}

impl AppDir {
    /// Lays the application directories out under `user_home`.  Creating
    /// them on disk is the caller's task.
    pub fn new(user_home: &str) -> (r: AppDir)
        ensures
            r.home_dir@ == spec_join(user_home@, ".sys-kaleido"@),
            r.log_dir@ == spec_join(r.home_dir@, "log"@),
            r.bin_dir@ == spec_join(r.home_dir@, "bin"@),
            r.packages_dir@ == spec_join(r.home_dir@, "packages"@),
            r.alias_dir@ == spec_join(r.home_dir@, "alias"@),
    {
        let home_dir = path_join(user_home, ".sys-kaleido");
        let log_dir = path_join(home_dir.as_str(), "log");
        let bin_dir = path_join(home_dir.as_str(), "bin");
        let packages_dir = path_join(home_dir.as_str(), "packages");
        let alias_dir = path_join(home_dir.as_str(), "alias");
        AppDir { home_dir, log_dir, bin_dir, packages_dir, alias_dir }
    }

    pub fn get_home_dir(&self) -> (r: &String)
        ensures
            r@ == self.home_dir@,
    {
        &self.home_dir
    }

    pub fn get_log_dir(&self) -> (r: &String)
        ensures
            r@ == self.log_dir@,
    {
        &self.log_dir
    }

    pub fn get_packages_dir(&self) -> (r: &String)
        ensures
            r@ == self.packages_dir@,
    {
        &self.packages_dir
    }

    pub fn get_alias_dir(&self) -> (r: &String)
        ensures
            r@ == self.alias_dir@,
    {
        &self.alias_dir
    }

    pub fn get_bin_dir(&self) -> (r: &String)
        ensures
            r@ == self.bin_dir@,
    {
        &self.bin_dir
    }
}

#[derive(Clone, Debug, PartialEq, Eq, Structural)]
pub enum FileType {
    Compression,
    Plain,
    Unknown,
}

/// The errors of the layout and extraction layer, with plain payloads.
#[derive(Clone, Debug)]
pub enum FSError {
    Io(String),
    AppDirError(),
    Zip(String),
    SevenZ(String),
    LinkError(),
    UnsupportedFile(&'static str),
}

/// How `get_file_type` reads an extension.
pub open spec fn spec_file_type(name: Seq<char>) -> FileType {
    match spec_extension(name) {
        Option::None => FileType::Plain,
        Option::Some(e) => if e.len() == 0 {
            FileType::Plain
        } else if e == "zip"@ || e == "7z"@ || e == "gz"@ {
            FileType::Compression
        } else {
            FileType::Unknown
        },
    }
}

/// Classifies a file name: no extension counts as plain, the known archive
/// extensions as compressed, anything else as unknown.
pub fn get_file_type(file_name: &str) -> (r: FileType)
    ensures
        r == spec_file_type(file_name@),
{
    match extension_of(file_name) {
        None => FileType::Plain,
        Some(e) => {
            if e.unicode_len() == 0 {
                FileType::Plain
            } else if str_eq(e.as_str(), "zip") || str_eq(e.as_str(), "7z") || str_eq(
                e.as_str(),
                "gz",
            ) {
                FileType::Compression
            } else {
                FileType::Unknown
            }
        },
    }
}

/// The extension of the name part of `p`, if any.
pub fn extension_of(p: &str) -> (r: Option<String>)
    ensures
        match r {
            Option::Some(e) => spec_extension(p@) == Option::Some(e@),
            Option::None => spec_extension(p@) is None,
        },
{
    match crate::helper::get_file_name(p) {
        None => None,
        Some(f) => {
            match crate::paths::last_dot_exec(f.as_str()) {
                Some(j) => {
                    if j >= 1 {
                        let n = f.as_str().unicode_len();
                        Some(f.as_str().substring_char(j + 1, n).to_owned())
                    } else {
                        None
                    }
                },
                None => None,
            }
        },
    }
}

/// The deepest directory shared by `t` and `s` below `root`: one of the two
/// when one contains the other, else their common ancestor, else `root`.
/// The result is one of the input strings or a prefix of `t`, so when the
/// inputs spell the same directory with different separator characters the
/// exact string depends on the argument order; its segments never do (see
/// `lemma_common_parent_commutes`).
pub open spec fn spec_common_parent(t: Seq<char>, s: Seq<char>, root: Seq<char>) -> Seq<char> {
    let st = split_path(t);
    let ss = split_path(s);
    if seg_prefix(ss, st) {
        s
    } else if seg_prefix(st, ss) {
        t
    } else {
        let k = choose|k: int| is_common_prefix_len(st, ss, k);
        if k <= split_path(root).len() {
            root
        } else {
            t.subrange(0, seg_end(st, k))
        }
    }
}

/// A reported folder name loses one trailing `/`, if it carries one.
pub open spec fn spec_trim_slash(o: Option<Seq<char>>) -> Option<Seq<char>> {
    match o {
        Option::Some(f) => if f.len() > 0 && f.last() == '/' {
            Option::Some(f.drop_last())
        } else {
            Option::Some(f)
        },
        Option::None => Option::None,
    }
}

fn trim_slash(f: Option<String>) -> (r: Option<String>)
    ensures
        opt_view(r) == spec_trim_slash(opt_view(f)),
{
    match f {
        None => None,
        Some(s) => {
            let n = s.as_str().unicode_len();
            if n > 0 && s.as_str().get_char(n - 1) == '/' {
                let t = s.as_str().substring_char(0, n - 1).to_owned();
                proof {
                    assert(s@.subrange(0, n - 1) =~= s@.drop_last());
                }
                Some(t)
            } else {
                Some(s)
            }
        },
    }
}

/// Dispatches top-folder inference on the archive file's extension and trims
/// a trailing separator from the reported folder.  `data` holds the archive
/// bytes, which decide the zip-like and tar cases; for the 7z family the
/// caller passes the entry table its unpacking tool reported, since listing
/// a 7z from raw bytes cannot be promised safe.  Unpacking under `to_path`
/// is the caller's task.
pub fn decompress(
    file_path: &str,
    to_path: &str,
    data: &Vec<u8>,
    sevenz_entries: &Vec<ArchiveEntry>,
) -> (r: Result<Option<String>, FSError>)
    ensures
        ({
            match spec_extension(file_path@) {
                Option::None => r matches Err(e) && e matches FSError::UnsupportedFile(_),
                Option::Some(ext) => {
                    if ext == "zip"@ {
                        &&& r matches Ok(f) ==> opt_view(f) == spec_trim_slash(
                            spec_zip_result(zip_entries_of(data@), to_path@),
                        )
                        &&& r is Ok <==> zip_listing_ok(data@)
                        &&& r matches Err(e) ==> e matches FSError::Zip(_)
                    } else if ext == "7z"@ {
                        r matches Ok(f) && opt_view(f) == spec_trim_slash(
                            spec_sevenz_result(
                                sevenz_entries@.map_values(|e: ArchiveEntry| e@),
                                to_path@,
                            ),
                        )
                    } else {
                        &&& r matches Ok(f) ==> opt_view(f) == spec_trim_slash(
                            spec_tar_top(targz_first_path_of(data@)),
                        )
                        &&& r is Ok <==> targz_first_ok(data@)
                        &&& r matches Err(e) ==> e matches FSError::Io(_)
                    }
                },
            }
        }),
{
    match extension_of(file_path) {
        None => Err(FSError::UnsupportedFile("")),
        Some(ext) => {
            let folder = if str_eq(ext.as_str(), "zip") {
                unzip(data, to_path)
            } else if str_eq(ext.as_str(), "7z") {
                Ok(sevenz(sevenz_entries, to_path))
            } else {
                deflate(data)
            };
            match folder {
                Err(e) => Err(e),
                Ok(f) => Ok(trim_slash(f)),
            }
        },
    }
}

/// The ancestor-combine is order-robust, as its use as a fold accumulator
/// over archive entries needs: swapping the two candidates yields a path
/// with exactly the same segments.  The strings themselves can differ only
/// when the candidates mix `/` and `\` for the same directory, because the
/// result is returned as one of the inputs (or a prefix of the first).
pub proof fn lemma_common_parent_commutes(t: Seq<char>, s: Seq<char>, root: Seq<char>)
    ensures
        split_path(spec_common_parent(t, s, root)) == split_path(spec_common_parent(s, t, root)),
{
    let st = split_path(t);
    let ss = split_path(s);
    if seg_prefix(ss, st) {
        if seg_prefix(st, ss) {
            assert(st =~~= ss);
        }
    } else if seg_prefix(st, ss) {
    } else {
        crate::paths::lemma_split_path_len(root);
        crate::paths::lemma_common_prefix_exists(st, ss);
        crate::paths::lemma_common_prefix_exists(ss, st);
        let k1 = choose|k: int| is_common_prefix_len(st, ss, k);
        let k2 = choose|k: int| is_common_prefix_len(ss, st, k);
        assert(is_common_prefix_len(st, ss, k2));
        lemma_common_prefix_len_unique(st, ss, k1, k2);
        if k1 > split_path(root).len() {
            assert(k1 < st.len()) by {
                if k1 == st.len() {
                    assert(st.subrange(0, k1) =~= st);
                    assert(seg_prefix(st, ss));
                }
            }
            assert(k1 < ss.len()) by {
                if k1 == ss.len() {
                    assert(ss.subrange(0, k1) =~= ss);
                    assert(seg_prefix(ss, st));
                }
            }
            crate::paths::lemma_split_boundary(t, k1);
            crate::paths::lemma_split_boundary(s, k1);
        }
    }
}

/// The common parent of two paths below `root` stays below `root`.
pub proof fn lemma_common_parent_under_root(t: Seq<char>, s: Seq<char>, root: Seq<char>)
    requires
        seg_prefix(split_path(root), split_path(t)),
        seg_prefix(split_path(root), split_path(s)),
    ensures
        seg_prefix(split_path(root), split_path(spec_common_parent(t, s, root))),
{
    let st = split_path(t);
    let ss = split_path(s);
    let rl = split_path(root).len() as int;
    crate::paths::lemma_split_path_len(root);
    if seg_prefix(ss, st) {
    } else if seg_prefix(st, ss) {
    } else {
        crate::paths::lemma_common_prefix_exists(st, ss);
        let k = choose|k: int| is_common_prefix_len(st, ss, k);
        assert(k >= rl) by {
            if k < rl {
                assert(st[k] == split_path(root)[k]) by {
                    assert(split_path(root) == st.subrange(0, rl));
                    assert(st.subrange(0, rl)[k] == st[k]);
                }
                assert(ss[k] == split_path(root)[k]) by {
                    assert(split_path(root) == ss.subrange(0, rl));
                    assert(ss.subrange(0, rl)[k] == ss[k]);
                }
                assert(st.subrange(0, k) == ss.subrange(0, k));
                assert(k < st.len() && k < ss.len());
            }
        }
        if k <= rl {
            assert(split_path(root).subrange(0, rl) =~= split_path(root));
        } else {
            crate::paths::lemma_split_boundary(t, k);
            let cut = t.subrange(0, seg_end(st, k));
            assert(split_path(cut) == st.subrange(0, k));
            assert(split_path(root) =~= split_path(cut).subrange(0, rl)) by {
                assert(split_path(root) == st.subrange(0, rl));
                assert(forall|j: int|
                    0 <= j < rl ==> st.subrange(0, k)[j] == st.subrange(0, rl)[j]);
            }
        }
    }
}

/// Both candidate paths must lie under `root` (segment-wise).
pub fn find_common_parent(t: &str, s: &str, root: &str) -> (r: String)
    requires
        seg_prefix(split_path(root@), split_path(t@)),
        seg_prefix(split_path(root@), split_path(s@)),
    ensures
        r@ == spec_common_parent(t@, s@, root@),
{
    let (ts, tends) = split_path_exec(t);
    let (ss, _sends) = split_path_exec(s);
    let (rs, _rends) = split_path_exec(root);
    if is_seg_prefix(&ss, &ts) {
        return s.to_owned();
    }
    if is_seg_prefix(&ts, &ss) {
        return t.to_owned();
    }
    let k = common_prefix_len(&ts, &ss);
    proof {
        let kk = choose|k0: int| is_common_prefix_len(segs_view(ts@), segs_view(ss@), k0);
        lemma_common_prefix_len_unique(segs_view(ts@), segs_view(ss@), kk, k as int);
    }
    if k <= rs.len() {
        root.to_owned()
    } else {
        t.substring_char(0, tends[k - 1]).to_owned()
    }
}

} // verus!
