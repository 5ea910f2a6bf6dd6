use vstd::prelude::*;
use vstd::string::*;

use crate::checksum::{checksum_agrees, contents_match, digest_matches, sha256_of};
use crate::text::{
    append_chars, chars_of, has_prefix, is_prefix, slice_of, string_of,
};

verus! {

/// The key segment that the object store puts first.
pub open spec fn data_segment() -> Seq<char> {
    seq!['d', 'a', 't', 'a', '/']
}

/// The segment that replaces it in the local cache.
pub open spec fn cache_segment() -> Seq<char> {
    seq!['b', 'i', 'n', 'a', 'n', 'c', 'e', '/']
}

/// `s` without its trailing `/` characters.
pub open spec fn trim_trailing_slashes(s: Seq<char>) -> Seq<char>
    decreases s.len(),
{
    if s.len() > 0 && s.last() == '/' {
        trim_trailing_slashes(s.drop_last())
    } else {
        s
    }
}

/// A bucket key as a path below the data directory: a leading `data/` becomes `binance/`.
pub open spec fn cache_relative(key: Seq<char>) -> Seq<char> {
    if is_prefix(data_segment(), key) {
        cache_segment() + key.subrange(5, key.len() as int)
    } else {
        key
    }
}

/// The local path of a bucket key before `~` and `$VAR` expansion: the data directory without
/// its trailing slashes, a `/`, then the cache-relative key.
pub open spec fn local_path(dir: Seq<char>, key: Seq<char>) -> Seq<char> {
    trim_trailing_slashes(dir) + seq!['/'] + cache_relative(key)
}

/// A path whose expansion leaves it as it is: no `$` anywhere and no leading `~`.
pub open spec fn expands_to_itself(p: Seq<char>) -> bool {
    !p.contains('$') && !(p.len() > 0 && p[0] == '~')
}

/// Relies on `shellexpand::full`: a string without `$` never fails variable lookup, and one that
/// also does not start with `~` comes back unchanged. On failure it gives the variable's name.
#[verifier::external_body]
fn expand_path(s: &str) -> (r: Result<String, String>)
    ensures
        r is Err ==> s@.contains('$'),
        r matches Ok(p) ==> (expands_to_itself(s@) ==> p@ == s@),
{
    match shellexpand::full(s) {
        Ok(p) => Ok(p.into_owned()),
        Err(e) => Err(e.var_name),
    }
}

/// A path could not be expanded because a variable is not set.
#[derive(Debug, Clone)]
pub struct PathError {
    pub path: String,
    pub variable: String,
}

/// The local path of `key` below `dir`, before expansion.
pub fn local_path_of(dir: &str, key: &str) -> (r: Vec<char>)
    ensures
        r@ == local_path(dir@, key@),
{
    let d = chars_of(dir);
    let k = chars_of(key);
    let mut n: usize = d.len();
    assert(d@.subrange(0, n as int) =~= d@);
    while n > 0 && d[n - 1] == '/'
        invariant
            n <= d.len(),
            trim_trailing_slashes(d@) == trim_trailing_slashes(d@.subrange(0, n as int)),
        decreases n,
    {
        assert(d@.subrange(0, n as int).drop_last() =~= d@.subrange(0, n - 1));
        n = n - 1;
    }
    let mut r = slice_of(&d, 0, n);
    assert(r@ == trim_trailing_slashes(d@));
    r.push('/');
    let data = chars_of("data/");
    proof {
        reveal_strlit("data/");
    }
    assert(data@ =~= data_segment());
    if has_prefix(&data, &k) {
        let cache = chars_of("binance/");
        proof {
            reveal_strlit("binance/");
        }
        assert(cache@ =~= cache_segment());
        append_chars(&mut r, &cache);
        let rest = slice_of(&k, 5, k.len());
        append_chars(&mut r, &rest);
    } else {
        append_chars(&mut r, &k);
    }
    assert(r@ =~= local_path(dir@, key@));
    r
}

/// One archive object of the bucket and its checksum object, with the local path the archive
/// is kept at.
#[derive(Debug, Clone)]
pub struct File {
    pub pair: String,
    pub object_key: String,
    pub checksum_key: String,
    pub path: String,
}

impl File {
    /// A file for the archive `object_key` of `pair`, kept under `data_dir` at the path that
    /// `local_path` gives, after `~` and `$VAR` expansion.
    pub fn new(pair: &str, object_key: &str, checksum_key: &str, data_dir: &str) -> (r: Result<
        File,
        PathError,
    >)
        ensures
            r matches Ok(f) ==> {
                &&& f.pair@ == pair@
                &&& f.object_key@ == object_key@
                &&& f.checksum_key@ == checksum_key@
            },
            !local_path(data_dir@, object_key@).contains('$') ==> r is Ok,
            expands_to_itself(local_path(data_dir@, object_key@)) ==> (r matches Ok(f) && f.path@
                == local_path(data_dir@, object_key@)),
            r matches Err(e) ==> e.path@ == local_path(data_dir@, object_key@),
    {
        let raw = string_of(&local_path_of(data_dir, object_key));
        match expand_path(raw.as_str()) {
            Ok(path) => Ok(File {
                pair: String::from_str(pair),
                object_key: String::from_str(object_key),
                checksum_key: String::from_str(checksum_key),
                path,
            }),
            Err(variable) => Err(PathError { path: raw, variable }),
        }
    }
}

/// What a download does first.
#[derive(Debug, Clone, Copy, PartialEq, Eq, Structural)]
pub enum DownloadStep {
    /// The file is on disk already: nothing is fetched and the download succeeds.
    AlreadyPresent,
    /// The archive is fetched to the file's path, then checked against its checksum object.
    Fetch,
}

/// The first step of a download, given whether the file's path exists.
pub open spec fn first_step(present: bool) -> DownloadStep {
    if present {
        DownloadStep::AlreadyPresent
    } else {
        DownloadStep::Fetch
    }
}

/// A fetched archive that disagrees with its checksum object; the file is to be removed.
#[derive(Debug, Clone)]
pub enum DownloadError {
    ChecksumMismatch { path: String },
}

/// An archive that does not hold exactly one entry.
#[derive(Debug, Clone)]
pub enum ArchiveError {
    MalformedArchive { path: String, entries: usize },
}

impl File {
    /// The first step of downloading this file, given whether its path exists.
    pub fn download_step(&self, present: bool) -> (r: DownloadStep)
        ensures
            r == first_step(present),
    {
        if present {
            DownloadStep::AlreadyPresent
        } else {
            DownloadStep::Fetch
        }
    }

    /// Checks a fetched archive whose digest is `digest` against the body of its checksum
    /// object.
    pub fn check_digest(&self, checksum_body: &str, digest: &[u8]) -> (r: Result<(), DownloadError>)
        ensures
            r is Ok <==> checksum_agrees(checksum_body@, digest@),
            r matches Err(DownloadError::ChecksumMismatch { path }) ==> path@ == self.path@,
    {
        if digest_matches(checksum_body, digest) {
            Ok(())
        } else {
            Err(DownloadError::ChecksumMismatch { path: self.path.clone() })
        }
    }

    /// Checks the contents of a fetched archive against the body of its checksum object.
    pub fn check_download(&self, checksum_body: &str, contents: &[u8]) -> (r: Result<
        (),
        DownloadError,
    >)
        ensures
            r is Ok <==> checksum_agrees(checksum_body@, sha256_of(contents@)),
            r matches Err(DownloadError::ChecksumMismatch { path }) ==> path@ == self.path@,
    {
        if contents_match(checksum_body, contents) {
            Ok(())
        } else {
            Err(DownloadError::ChecksumMismatch { path: self.path.clone() })
        }
    }

    /// The index of the one entry of this file's archive, which holds `entries` entries.
    pub fn archive_entry(&self, entries: usize) -> (r: Result<usize, ArchiveError>)
        ensures
            entries == 1 <==> r == Ok::<usize, ArchiveError>(0),
            r is Ok <==> entries == 1,
            r matches Err(ArchiveError::MalformedArchive { path, entries: n }) ==> path@
                == self.path@ && n == entries,
    {
        if entries == 1 {
            Ok(0)
        } else {
            Err(ArchiveError::MalformedArchive { path: self.path.clone(), entries })
        }
    }
}

/// A file found on disk is not fetched again: a second download after a successful one asks
/// the bucket for nothing.
pub proof fn lemma_present_file_is_not_fetched()
    ensures
        first_step(true) == DownloadStep::AlreadyPresent,
        first_step(false) == DownloadStep::Fetch,
{
}

/// The local path of a key `data/<rest>` is `<dir>/binance/<rest>`, and trailing slashes of
/// the data directory make no difference.
pub proof fn lemma_data_key_path(dir: Seq<char>, rest: Seq<char>, key: Seq<char>)
    ensures
        local_path(dir, data_segment() + rest) == trim_trailing_slashes(dir) + seq!['/']
            + cache_segment() + rest,
        local_path(dir.push('/'), key) == local_path(dir, key),
{
    let k = data_segment() + rest;
    assert(k.subrange(0, 5) =~= data_segment());
    assert(k.subrange(5, k.len() as int) =~= rest);
    assert(dir.push('/').drop_last() =~= dir);
    assert(local_path(dir, k) =~= trim_trailing_slashes(dir) + seq!['/'] + cache_segment()
        + rest);
}

/// `dir` followed by `k` slashes.
pub open spec fn with_slashes(dir: Seq<char>, k: nat) -> Seq<char>
    decreases k,
{
    if k == 0 {
        dir
    } else {
        with_slashes(dir, (k - 1) as nat).push('/')
    }
}

/// Any number of trailing slashes on the data directory leaves the local path as it is.
pub proof fn lemma_trailing_slashes_ignored(dir: Seq<char>, k: nat, key: Seq<char>)
    ensures
        local_path(with_slashes(dir, k), key) == local_path(dir, key),
    decreases k,
{
    if k > 0 {
        lemma_trailing_slashes_ignored(dir, (k - 1) as nat, key);
        lemma_data_key_path(with_slashes(dir, (k - 1) as nat), Seq::empty(), key);
    }
}

} // verus!
