use vstd::prelude::*;
use vstd::string::*;

use crate::file::{expands_to_itself, local_path, File, PathError};
use crate::text::{chars_of, has_suffix, is_suffix, reversed, slice_of, string_of};

verus! {

/// The text of each key.
pub open spec fn key_views(keys: Seq<String>) -> Seq<Seq<char>> {
    keys.map_values(|k: String| k@)
}

/// `k` names a checksum object: it ends with the checksum suffix.
pub open spec fn is_checksum(k: Seq<char>, suffix: Seq<char>) -> bool {
    is_suffix(suffix, k)
}

/// The archive key that a checksum key belongs to.
pub open spec fn archive_of(k: Seq<char>, suffix: Seq<char>) -> Seq<char> {
    k.subrange(0, k.len() - suffix.len())
}

/// `k`, one of `ks`, lacks its partner in `ks`: an archive its checksum `k + suffix`, a
/// checksum the archive it belongs to.
pub open spec fn unpaired(ks: Seq<Seq<char>>, suffix: Seq<char>, k: Seq<char>) -> bool {
    if is_checksum(k, suffix) {
        !(ks.contains(archive_of(k, suffix)) && !is_checksum(archive_of(k, suffix), suffix))
    } else {
        !ks.contains(k + suffix)
    }
}

/// Every key of `ks` has its partner.
pub open spec fn all_paired(ks: Seq<Seq<char>>, suffix: Seq<char>) -> bool {
    forall|i: int| 0 <= i < ks.len() ==> !#[trigger] unpaired(ks, suffix, ks[i])
}

/// `i` is the position of the first key of `ks` that lacks its partner.
pub open spec fn first_unpaired(ks: Seq<Seq<char>>, suffix: Seq<char>, i: int) -> bool {
    &&& 0 <= i < ks.len()
    &&& unpaired(ks, suffix, ks[i])
    &&& forall|j: int| 0 <= j < i ==> !#[trigger] unpaired(ks, suffix, ks[j])
}

/// The archive keys of `ks`, each once, in the order of their first appearance.
pub open spec fn archive_keys(ks: Seq<Seq<char>>, suffix: Seq<char>) -> Seq<Seq<char>>
    decreases ks.len(),
{
    if ks.len() == 0 {
        Seq::empty()
    } else {
        let prev = archive_keys(ks.drop_last(), suffix);
        let k = ks.last();
        if !is_checksum(k, suffix) && !prev.contains(k) {
            prev.push(k)
        } else {
            prev
        }
    }
}

/// Why a listing could not be turned into files.
#[derive(Debug, Clone)]
pub enum CollectionError {
    /// An archive without its checksum object.
    MissingChecksum(String),
    /// A checksum object without its archive.
    MissingArchive(String),
    /// The local path of an archive could not be expanded.
    Path(PathError),
}

impl CollectionError {
    /// A one-line account of the error.
    pub fn message(&self) -> (r: String)
        ensures
            self matches CollectionError::MissingChecksum(k) ==> r@ == "missing checksum for "@
                + k@,
            self matches CollectionError::MissingArchive(k) ==> r@ == "missing archive for "@
                + k@,
    {
        match self {
            CollectionError::MissingChecksum(k) => String::from_str("missing checksum for ").concat(
                k.as_str(),
            ),
            CollectionError::MissingArchive(k) => String::from_str("missing archive for ").concat(
                k.as_str(),
            ),
            CollectionError::Path(e) => String::from_str("cannot expand ").concat(
                e.path.as_str(),
            ).concat(": variable ").concat(e.variable.as_str()),
        }
    }
}

/// Whether `k` is one of `keys`.
fn contains_key(keys: &Vec<String>, k: &String) -> (r: bool)
    ensures
        r == key_views(keys@).contains(k@),
{
    let mut i: usize = 0;
    while i < keys.len()
        invariant
            i <= keys.len(),
            forall|j: int| 0 <= j < i ==> keys@[j]@ != k@,
        decreases keys.len() - i,
    {
        if keys[i] == *k {
            assert(key_views(keys@)[i as int] == k@);
            return true;
        }
        i = i + 1;
    }
    assert forall|j: int| 0 <= j < key_views(keys@).len() implies key_views(keys@)[j] != k@ by {
        assert(key_views(keys@)[j] == keys@[j]@);
    }
    false
}

/// Whether `k`, one of `keys`, lacks its partner.
fn is_unpaired(keys: &Vec<String>, suffix: &str, k: &String) -> (r: bool)
    ensures
        r == unpaired(key_views(keys@), suffix@, k@),
{
    let kc = chars_of(k.as_str());
    let sc = chars_of(suffix);
    if has_suffix(&sc, &kc) {
        let base = string_of(&slice_of(&kc, 0, kc.len() - sc.len()));
        let bc = chars_of(base.as_str());
        !(contains_key(keys, &base) && !has_suffix(&sc, &bc))
    } else {
        let partner = k.clone().concat(suffix);
        !contains_key(keys, &partner)
    }
}

/// A set of archive files, in a fixed order.
#[derive(Debug, Clone)]
pub struct FileCollection {
    files: Vec<File>,
}

impl View for FileCollection {
    type V = Seq<File>;

    closed spec fn view(&self) -> Seq<File> {
        self.files@
    }
}

impl FileCollection {
    /// A collection with no files.
    pub fn empty() -> (r: FileCollection)
        ensures
            r@ == Seq::<File>::empty(),
    {
        FileCollection { files: Vec::new() }
    }

    /// A collection holding `files`, in their order.
    pub fn new(files: Vec<File>) -> (r: FileCollection)
        ensures
            r@ == files@,
    {
        FileCollection { files }
    }

    /// The number of files.
    pub fn len(&self) -> (r: usize)
        ensures
            r == self@.len(),
    {
        self.files.len()
    }

    /// The files, in order.
    pub fn files(&self) -> (r: &Vec<File>)
        ensures
            r@ == self@,
    {
        &self.files
    }

    /// The collection's files.
    pub fn into_files(self) -> (r: Vec<File>)
        ensures
            r@ == self@,
    {
        self.files
    }

    /// The files of all `collections`, one collection after another.
    pub fn merge(collections: Vec<FileCollection>) -> (r: FileCollection)
        ensures
            r@ == collections@.map_values(|c: FileCollection| c@).flatten(),
    {
        let ghost views = collections@.map_values(|c: FileCollection| c@);
        let mut files: Vec<File> = Vec::new();
        let mut rest = collections;
        let ghost total = views;
        proof {
            assert(views.subrange(0, 0).flatten() =~= Seq::<File>::empty());
        }
        let n = rest.len();
        let mut i: usize = 0;
        // Take the collections from the front, keeping their order.
        rest = reversed(rest);
        while i < n
            invariant
                n == total.len(),
                i <= n,
                rest@.len() == n - i,
                forall|j: int| 0 <= j < n - i ==> #[trigger] rest@[j]@ == total[n - 1 - j],
                files@ == total.subrange(0, i as int).flatten(),
            decreases n - i,
        {
            let c = rest.pop().unwrap();
            assert(c@ == total[i as int]);
            let mut more = c.files;
            files.append(&mut more);
            proof {
                let t = total.subrange(0, i + 1);
                assert(t.drop_last() =~= total.subrange(0, i as int));
                assert(t.last() == total[i as int]);
                total.subrange(0, i as int).lemma_flatten_push(total[i as int]);
                assert(t =~= total.subrange(0, i as int).push(total[i as int]));
            }
            i = i + 1;
        }
        assert(total.subrange(0, n as int) =~= total);
        FileCollection { files }
    }

    /// Pairs each archive of a listing with its checksum object (the archive's key followed by
    /// `checksum_suffix`) and makes one file of `pair` per archive, in the order in which the
    /// archives first appear. Fails on the first key, in listing order, whose partner is
    /// missing.
    pub fn from_objects(pair: &str, keys: &Vec<String>, checksum_suffix: &str, data_dir: &str) -> (r:
        Result<FileCollection, CollectionError>)
        ensures
            ({
                let ks = key_views(keys@);
                let archives = archive_keys(ks, checksum_suffix@);
                &&& r matches Ok(c) ==> {
                    &&& all_paired(ks, checksum_suffix@)
                    &&& c@.len() == archives.len()
                    &&& forall|i: int|
                        0 <= i < archives.len() ==> {
                            &&& (#[trigger] c@[i]).pair@ == pair@
                            &&& c@[i].object_key@ == archives[i]
                            &&& c@[i].checksum_key@ == archives[i] + checksum_suffix@
                            &&& expands_to_itself(local_path(data_dir@, archives[i]))
                                ==> c@[i].path@ == local_path(data_dir@, archives[i])
                        }
                }
                &&& r matches Err(CollectionError::MissingChecksum(k)) ==> exists|i: int|
                    first_unpaired(ks, checksum_suffix@, i) && k@ == ks[i] && !is_checksum(
                        ks[i],
                        checksum_suffix@,
                    )
                &&& r matches Err(CollectionError::MissingArchive(k)) ==> exists|i: int|
                    first_unpaired(ks, checksum_suffix@, i) && k@ == ks[i] && is_checksum(
                        ks[i],
                        checksum_suffix@,
                    )
                &&& r matches Err(CollectionError::Path(_)) ==> all_paired(ks, checksum_suffix@)
                    && exists|i: int|
                    0 <= i < archives.len() && local_path(data_dir@, archives[i]).contains('$')
                &&& all_paired(ks, checksum_suffix@) && (forall|i: int|
                    0 <= i < archives.len() ==> !local_path(data_dir@, archives[i]).contains('$'))
                    ==> r is Ok
            }),
    {
        let ghost ks = key_views(keys@);
        let ghost suffix = checksum_suffix@;
        // Every key needs its partner.
        let mut i: usize = 0;
        while i < keys.len()
            invariant
                ks == key_views(keys@),
                suffix == checksum_suffix@,
                i <= keys.len(),
                forall|j: int| 0 <= j < i ==> !#[trigger] unpaired(ks, suffix, ks[j]),
            decreases keys.len() - i,
        {
            if is_unpaired(keys, checksum_suffix, &keys[i]) {
                let k = keys[i].clone();
                assert(ks[i as int] == keys@[i as int]@);
                assert(first_unpaired(ks, suffix, i as int));
                let sc = chars_of(checksum_suffix);
                let kc = chars_of(k.as_str());
                if has_suffix(&sc, &kc) {
                    return Err(CollectionError::MissingArchive(k));
                } else {
                    return Err(CollectionError::MissingChecksum(k));
                }
            }
            i = i + 1;
        }
        // The archives, each once.
        let sc = chars_of(checksum_suffix);
        let mut archives: Vec<String> = Vec::new();
        let mut i: usize = 0;
        while i < keys.len()
            invariant
                ks == key_views(keys@),
                suffix == checksum_suffix@,
                sc@ == suffix,
                i <= keys.len(),
                key_views(archives@) == archive_keys(ks.subrange(0, i as int), suffix),
            decreases keys.len() - i,
        {
            let kc = chars_of(keys[i].as_str());
            let ghost prev = key_views(archives@);
            proof {
                assert(ks.subrange(0, i + 1).drop_last() =~= ks.subrange(0, i as int));
                assert(ks.subrange(0, i + 1).last() == keys@[i as int]@);
            }
            if !has_suffix(&sc, &kc) && !contains_key(&archives, &keys[i]) {
                archives.push(keys[i].clone());
                assert(key_views(archives@) =~= prev.push(keys@[i as int]@));
            }
            i = i + 1;
        }
        assert(ks.subrange(0, keys.len() as int) =~= ks);
        let ghost arch = archive_keys(ks, suffix);
        assert(all_paired(ks, suffix));
        // One file per archive.
        let mut files: Vec<File> = Vec::new();
        let mut i: usize = 0;
        while i < archives.len()
            invariant
                key_views(archives@) == arch,
                arch == archive_keys(key_views(keys@), checksum_suffix@),
                all_paired(key_views(keys@), checksum_suffix@),
                i <= archives.len(),
                files@.len() == i,
                forall|j: int|
                    0 <= j < i ==> {
                        &&& (#[trigger] files@[j]).pair@ == pair@
                        &&& files@[j].object_key@ == arch[j]
                        &&& files@[j].checksum_key@ == arch[j] + checksum_suffix@
                        &&& expands_to_itself(local_path(data_dir@, arch[j])) ==> files@[j].path@
                            == local_path(data_dir@, arch[j])
                    },
            decreases archives.len() - i,
        {
            assert(arch[i as int] == archives@[i as int]@);
            let checksum_key = archives[i].clone().concat(checksum_suffix);
            match File::new(pair, archives[i].as_str(), checksum_key.as_str(), data_dir) {
                Ok(f) => {
                    files.push(f);
                },
                Err(e) => {
                    assert(local_path(data_dir@, arch[i as int]).contains('$'));
                    return Err(CollectionError::Path(e));
                },
            }
            i = i + 1;
        }
        Ok(FileCollection { files })
    }
}

proof fn lemma_archive_keys_from(ks: Seq<Seq<char>>, suffix: Seq<char>, k: Seq<char>)
    requires
        archive_keys(ks, suffix).contains(k),
    ensures
        ks.contains(k),
    decreases ks.len(),
{
    if ks.len() > 0 {
        let prev = archive_keys(ks.drop_last(), suffix);
        if prev.contains(k) {
            lemma_archive_keys_from(ks.drop_last(), suffix, k);
            let i = choose|i: int| 0 <= i < ks.drop_last().len() && ks.drop_last()[i] == k;
            assert(ks[i] == k);
        } else {
            assert(ks[ks.len() - 1] == k);
        }
    }
}

/// In a listing where no key repeats and every archive has its checksum and every checksum
/// its archive, the files are the archives in listing order: one per pair of objects.
pub proof fn lemma_complete_listing(ks: Seq<Seq<char>>, suffix: Seq<char>)
    requires
        ks.no_duplicates(),
    ensures
        archive_keys(ks, suffix) == ks.filter(|k: Seq<char>| !is_checksum(k, suffix)),
    decreases ks.len(),
{
    reveal_with_fuel(Seq::filter, 1);
    if ks.len() > 0 {
        let init = ks.drop_last();
        assert(init.no_duplicates());
        lemma_complete_listing(init, suffix);
        if archive_keys(init, suffix).contains(ks.last()) {
            lemma_archive_keys_from(init, suffix, ks.last());
            let i = choose|i: int| 0 <= i < init.len() && init[i] == ks.last();
            assert(ks[i] == ks[ks.len() - 1]);
        }
    }
}

} // verus!
