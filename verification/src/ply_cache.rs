//! The policy of the local artifact cache: where an entry lives, when it is
//! valid, what a sweep removes and what the statistics count.
//!
//! The cache keeps one file per logical name under its root and goes by the
//! file's age alone. This module decides; whoever owns the directory reads
//! it, hands over what it saw, and acts on the answer. Nothing here locks the
//! directory: a store and a sweep that race on one name are settled by the
//! file system, and the last writer wins.

use vstd::prelude::*;
use vstd::string::*;

verus! {

/// Seconds after which an entry is stale unless the cache was made with
/// another limit: 24 hours.
pub const DEFAULT_MAX_AGE_SECS: u64 = 86400;

/// The path of the entry `name` of a cache rooted at `dir`: the file
/// `name` with the suffix `.ply`, directly under the root.
pub open spec fn entry_path(dir: Seq<char>, name: Seq<char>) -> Seq<char> {
    if dir.len() == 0 || dir.last() == '/' {
        dir + name + ".ply"@
    } else {
        dir + "/"@ + name + ".ply"@
    }
}

/// Whether a file of this name is an entry of the cache: the name ends in
/// `.ply` and has something before it.
pub open spec fn is_entry_name(file_name: Seq<char>) -> bool {
    file_name.len() > 4 && file_name.subrange(file_name.len() - 4, file_name.len() as int)
        == seq!['.', 'p', 'l', 'y']
}

/// Whether an entry seen at this age is valid under `max_age`. An age that
/// could not be determined makes no entry valid.
pub open spec fn is_fresh(age_secs: Option<u64>, max_age: u64) -> bool {
    age_secs matches Some(age) && age < max_age
}

/// Whether an entry seen at this age is stale under `max_age`. An age that
/// could not be determined makes no entry stale.
pub open spec fn is_stale(age_secs: Option<u64>, max_age: u64) -> bool {
    age_secs matches Some(age) && age >= max_age
}

/// What was seen of one file in the cache directory.
#[derive(Debug, PartialEq, Eq)]
pub struct CacheFile {
    /// The file's name within the directory.
    pub file_name: String,
    /// Seconds since the file was last written, where the file's metadata
    /// and the clock gave them.
    pub age_secs: Option<u64>,
    /// The file's length in bytes, where its metadata could be read.
    pub size: Option<u64>,
}

/// Mathematical value of a [`CacheFile`].
pub struct CacheFileView {
    pub file_name: Seq<char>,
    pub age_secs: Option<u64>,
    pub size: Option<u64>,
}

impl View for CacheFile {
    type V = CacheFileView;

    open spec fn view(&self) -> CacheFileView {
        CacheFileView { file_name: self.file_name@, age_secs: self.age_secs, size: self.size }
    }
}

/// The mathematical values of a directory listing.
pub open spec fn listing(files: Seq<CacheFile>) -> Seq<CacheFileView> {
    Seq::new(files.len(), |i: int| files[i]@)
}

/// Aggregate figures of a cache.
#[derive(Debug, PartialEq, Eq)]
pub struct CacheStats {
    pub file_count: usize,
    pub total_size: u64,
}

impl Default for CacheStats {
    fn default() -> (stats: CacheStats)
        ensures
            stats.file_count == 0,
            stats.total_size == 0,
    {
        CacheStats { file_count: 0, total_size: 0 }
    }
}

/// A cache of artifacts under one directory, with the age at which its
/// entries go stale.
#[derive(Debug)]
pub struct PlyCacheManager {
    cache_dir: String,
    max_age_secs: u64,
}

impl PlyCacheManager {
    /// The root directory of the cache.
    pub closed spec fn dir(&self) -> Seq<char> {
        self.cache_dir@
    }

    /// The age, in seconds, at which an entry goes stale.
    pub closed spec fn max_age(&self) -> u64 {
        self.max_age_secs
    }

    /// A cache rooted at `cache_dir` whose entries go stale after 24 hours.
    pub fn new(cache_dir: &str) -> (cache: PlyCacheManager)
        ensures
            cache.dir() == cache_dir@,
            cache.max_age() == DEFAULT_MAX_AGE_SECS,
    {
        PlyCacheManager {
            cache_dir: String::from_str(cache_dir),
            max_age_secs: DEFAULT_MAX_AGE_SECS,
        }
    }

    /// A cache rooted at `cache_dir` whose entries go stale at `max_age_secs`.
    pub fn with_max_age(cache_dir: &str, max_age_secs: u64) -> (cache: PlyCacheManager)
        ensures
            cache.dir() == cache_dir@,
            cache.max_age() == max_age_secs,
    {
        PlyCacheManager { cache_dir: String::from_str(cache_dir), max_age_secs }
    }

    /// The root directory of the cache.
    pub fn cache_dir(&self) -> (dir: &str)
        ensures
            dir@ == self.dir(),
    {
        self.cache_dir.as_str()
    }

    /// The age, in seconds, at which an entry goes stale.
    pub fn max_age_secs(&self) -> (secs: u64)
        ensures
            secs == self.max_age(),
    {
        self.max_age_secs
    }

    /// The path of the file that holds the entry `name`.
    pub fn cache_path(&self, name: &str) -> (path: String)
        ensures
            path@ == entry_path(self.dir(), name@),
    {
        let dir = self.cache_dir.as_str();
        let mut path = String::from_str(dir);
        let n: usize = dir.unicode_len();
        if n > 0 && dir.get_char(n - 1) != '/' {
            path.append("/");
        }
        path.append(name);
        path.append(".ply");
        path
    }

    /// Whether an entry is valid, given the age at which it was seen.
    ///
    /// `age_secs` is the time since the entry's file was last written, and
    /// `None` where there is no such file or its age could not be determined.
    /// The entry is valid if and only if its age is known and below the
    /// cache's limit.
    pub fn is_cached(&self, age_secs: Option<u64>) -> (valid: bool)
        ensures
            valid == is_fresh(age_secs, self.max_age()),
    {
        match age_secs {
            Some(age) => age < self.max_age_secs,
            None => false,
        }
    }

    /// What a lookup returns, given the age at which the entry was seen and
    /// what reading its file gave: the stored bytes, unchanged, if and only if
    /// the entry is valid and its file could be read. A stale or missing
    /// entry gives nothing, which is a miss and no error.
    pub fn load_from_cache(&self, age_secs: Option<u64>, stored: Option<Vec<u8>>) -> (loaded:
        Option<Vec<u8>>)
        ensures
            loaded == if is_fresh(age_secs, self.max_age()) {
                stored
            } else {
                None
            },
    {
        if self.is_cached(age_secs) {
            stored
        } else {
            None
        }
    }

    /// Whether a sweep removes an entry, given the age at which it was seen:
    /// if and only if its age is known and at or past the cache's limit.
    pub fn is_expired(&self, age_secs: Option<u64>) -> (stale: bool)
        ensures
            stale == is_stale(age_secs, self.max_age()),
    {
        match age_secs {
            Some(age) => age >= self.max_age_secs,
            None => false,
        }
    }

    /// The files that a sweep removes, by name and in the order of the
    /// listing: the entries of the cache whose age is known and at or past
    /// the limit. Files that are no entries, and entries whose age could not
    /// be determined, are passed over. The length of the result is the number
    /// of entries that the sweep removes.
    pub fn cleanup_expired(&self, files: &Vec<CacheFile>) -> (removed: Vec<String>)
        ensures
            texts(removed@) == names(swept(listing(files@), self.max_age())),
    {
        let mut removed: Vec<String> = Vec::new();
        let mut i: usize = 0;
        proof {
            assert(listing(files@).take(0) =~= Seq::empty());
            assert(texts(removed@) =~= Seq::empty());
        }
        while i < files.len()
            invariant
                i <= files@.len(),
                texts(removed@) == names(swept(listing(files@).take(i as int), self.max_age())),
            decreases files@.len() - i,
        {
            let ghost before = listing(files@).take(i as int);
            let ghost after = listing(files@).take(i + 1);
            proof {
                assert(after.drop_last() =~= before);
                assert(after.last() == files@[i as int]@);
            }
            let file = &files[i];
            if is_cache_file(file.file_name.as_str()) && self.is_expired(file.age_secs) {
                let ghost old_removed = removed@;
                removed.push(file.file_name.clone());
                proof {
                    assert(swept(after, self.max_age()) == swept(before, self.max_age()).push(
                        after.last(),
                    ));
                    assert(texts(removed@) =~= texts(old_removed).push(file.file_name@));
                    assert(names(swept(after, self.max_age())) =~= names(
                        swept(before, self.max_age()),
                    ).push(file.file_name@));
                }
            }
            i += 1;
        }
        proof {
            assert(listing(files@).take(i as int) =~= listing(files@));
        }
        removed
    }

    /// The number of entries and the bytes they hold in all. Files that are
    /// no entries, and entries whose metadata could not be read, are passed
    /// over. There is no result where the total does not fit in 64 bits.
    pub fn cache_stats(&self, files: &Vec<CacheFile>) -> (stats: Option<CacheStats>)
        ensures
            match stats {
                Some(stats) => stats.file_count == entry_count(listing(files@))
                    && stats.total_size == total_size(listing(files@)),
                None => total_size(listing(files@)) > u64::MAX,
            },
    {
        let mut stats = CacheStats::default();
        let mut i: usize = 0;
        proof {
            assert(listing(files@).take(0) =~= Seq::empty());
        }
        while i < files.len()
            invariant
                i <= files@.len(),
                stats.file_count == entry_count(listing(files@).take(i as int)),
                stats.file_count <= i,
                stats.total_size == total_size(listing(files@).take(i as int)),
            decreases files@.len() - i,
        {
            proof {
                assert(listing(files@).take(i + 1).drop_last() =~= listing(files@).take(i as int));
                assert(listing(files@).take(i + 1).last() == files@[i as int]@);
                lemma_total_size_grows(listing(files@), i + 1);
            }
            let file = &files[i];
            if is_cache_file(file.file_name.as_str()) {
                match file.size {
                    Some(size) => {
                        if size > u64::MAX - stats.total_size {
                            return None;
                        }
                        stats.file_count = stats.file_count + 1;
                        stats.total_size = stats.total_size + size;
                    },
                    None => {},
                }
            }
            i += 1;
        }
        proof {
            assert(listing(files@).take(i as int) =~= listing(files@));
        }
        Some(stats)
    }
}

/// Whether a file of this name is an entry of the cache.
pub fn is_cache_file(file_name: &str) -> (entry: bool)
    ensures
        entry == is_entry_name(file_name@),
{
    let n: usize = file_name.unicode_len();
    if n <= 4 {
        return false;
    }
    let matched = file_name.get_char(n - 4) == '.' && file_name.get_char(n - 3) == 'p'
        && file_name.get_char(n - 2) == 'l' && file_name.get_char(n - 1) == 'y';
    proof {
        let suffix = file_name@.subrange(n - 4, n as int);
        if matched {
            assert(suffix =~= seq!['.', 'p', 'l', 'y']);
        } else {
            assert(suffix[0] == file_name@[n - 4]);
            assert(suffix[1] == file_name@[n - 3]);
            assert(suffix[2] == file_name@[n - 2]);
            assert(suffix[3] == file_name@[n - 1]);
        }
    }
    matched
}

/// The texts of a list of strings.
pub open spec fn texts(strings: Seq<String>) -> Seq<Seq<char>> {
    Seq::new(strings.len(), |i: int| strings[i]@)
}

/// The names of a list of files.
pub open spec fn names(files: Seq<CacheFileView>) -> Seq<Seq<char>> {
    Seq::new(files.len(), |i: int| files[i].file_name)
}

/// Whether a sweep under `max_age` removes this file.
pub open spec fn is_swept(file: CacheFileView, max_age: u64) -> bool {
    is_entry_name(file.file_name) && is_stale(file.age_secs, max_age)
}

/// The files of a listing that a sweep under `max_age` removes, in the
/// order of the listing.
pub open spec fn swept(files: Seq<CacheFileView>, max_age: u64) -> Seq<CacheFileView>
    decreases files.len(),
{
    if files.len() == 0 {
        Seq::empty()
    } else if is_swept(files.last(), max_age) {
        swept(files.drop_last(), max_age).push(files.last())
    } else {
        swept(files.drop_last(), max_age)
    }
}

/// The files of a listing that a sweep under `max_age` leaves in place, in
/// the order of the listing.
pub open spec fn kept(files: Seq<CacheFileView>, max_age: u64) -> Seq<CacheFileView>
    decreases files.len(),
{
    if files.len() == 0 {
        Seq::empty()
    } else if is_swept(files.last(), max_age) {
        kept(files.drop_last(), max_age)
    } else {
        kept(files.drop_last(), max_age).push(files.last())
    }
}

/// Whether the statistics count this file: it is an entry whose metadata
/// could be read.
pub open spec fn is_counted(file: CacheFileView) -> bool {
    is_entry_name(file.file_name) && file.size is Some
}

/// The number of files of a listing that the statistics count.
pub open spec fn entry_count(files: Seq<CacheFileView>) -> nat
    decreases files.len(),
{
    if files.len() == 0 {
        0
    } else if is_counted(files.last()) {
        entry_count(files.drop_last()) + 1
    } else {
        entry_count(files.drop_last())
    }
}

/// The bytes that the counted files of a listing hold in all.
pub open spec fn total_size(files: Seq<CacheFileView>) -> nat
    decreases files.len(),
{
    if files.len() == 0 {
        0
    } else if is_counted(files.last()) {
        total_size(files.drop_last()) + files.last().size.unwrap() as nat
    } else {
        total_size(files.drop_last())
    }
}

/// The total size of a listing is at least that of each of its prefixes.
pub proof fn lemma_total_size_grows(files: Seq<CacheFileView>, n: int)
    requires
        0 <= n <= files.len(),
    ensures
        total_size(files.take(n)) <= total_size(files),
    decreases files.len() - n,
{
    if n < files.len() {
        assert(files.take(n + 1).drop_last() =~= files.take(n));
        lemma_total_size_grows(files, n + 1);
    } else {
        assert(files.take(n) =~= files);
    }
}

/// An entry whose age is known is valid or stale, never both and never
/// neither: a sweep removes an entry exactly when a lookup at the same age
/// would call it invalid. An entry whose age is not known is neither valid
/// nor stale: a lookup misses it and a sweep leaves it.
pub proof fn lemma_valid_or_stale(age_secs: Option<u64>, max_age: u64)
    ensures
        age_secs is Some ==> (is_fresh(age_secs, max_age) <==> !is_stale(age_secs, max_age)),
        age_secs is None ==> !is_fresh(age_secs, max_age) && !is_stale(age_secs, max_age),
{
}

/// A file that was just written is valid under every limit but zero.
pub proof fn lemma_new_entry_is_valid(max_age: u64)
    ensures
        is_fresh(Some(0u64), max_age) <==> max_age > 0,
{
}

/// A sweep removes the stale entries and nothing else. Every file of the
/// listing is either removed or left; the removed ones are exactly the
/// entries at or past the limit, and their number is the length of what
/// `swept` gives; every file within the limit, every file of unknown age and
/// every file that is no entry is left in place.
pub proof fn lemma_sweep_is_exact(files: Seq<CacheFileView>, max_age: u64)
    ensures
        swept(files, max_age).len() + kept(files, max_age).len() == files.len(),
        forall|k: int|
            0 <= k < swept(files, max_age).len() ==> is_swept(
                #[trigger] swept(files, max_age)[k],
                max_age,
            ) && files.contains(swept(files, max_age)[k]),
        forall|k: int|
            0 <= k < kept(files, max_age).len() ==> !is_swept(
                #[trigger] kept(files, max_age)[k],
                max_age,
            ) && files.contains(kept(files, max_age)[k]),
        forall|i: int|
            0 <= i < files.len() ==> if is_swept(#[trigger] files[i], max_age) {
                swept(files, max_age).contains(files[i])
            } else {
                kept(files, max_age).contains(files[i])
            },
    decreases files.len(),
{
    if files.len() > 0 {
        let front = files.drop_last();
        let last = files.last();
        lemma_sweep_is_exact(front, max_age);
        let s = swept(files, max_age);
        let k = kept(files, max_age);
        let fs = swept(front, max_age);
        let fk = kept(front, max_age);
        assert forall|j: int| 0 <= j < s.len() implies is_swept(#[trigger] s[j], max_age)
            && files.contains(s[j]) by {
            if j < fs.len() {
                assert(s[j] == fs[j]);
                let w = choose|w: int| 0 <= w < front.len() && front[w] == fs[j];
                assert(files[w] == s[j]);
            } else {
                assert(s[j] == last);
                assert(files[files.len() - 1] == s[j]);
            }
        }
        assert forall|j: int| 0 <= j < k.len() implies !is_swept(#[trigger] k[j], max_age)
            && files.contains(k[j]) by {
            if j < fk.len() {
                assert(k[j] == fk[j]);
                let w = choose|w: int| 0 <= w < front.len() && front[w] == fk[j];
                assert(files[w] == k[j]);
            } else {
                assert(k[j] == last);
                assert(files[files.len() - 1] == k[j]);
            }
        }
        assert forall|i: int| 0 <= i < files.len() implies if is_swept(
            #[trigger] files[i],
            max_age,
        ) {
            s.contains(files[i])
        } else {
            k.contains(files[i])
        } by {
            if i < front.len() {
                assert(files[i] == front[i]);
                if is_swept(files[i], max_age) {
                    let w = choose|w: int| 0 <= w < fs.len() && fs[w] == front[i];
                    assert(s[w] == files[i]);
                } else {
                    let w = choose|w: int| 0 <= w < fk.len() && fk[w] == front[i];
                    assert(k[w] == files[i]);
                }
            } else {
                if is_swept(files[i], max_age) {
                    assert(s[s.len() - 1] == files[i]);
                } else {
                    assert(k[k.len() - 1] == files[i]);
                }
            }
        }
    }
}

/// A sweep of what an earlier sweep under the same limit left, seen at the
/// same ages, removes nothing more.
pub proof fn lemma_second_sweep_is_empty(files: Seq<CacheFileView>, max_age: u64)
    ensures
        swept(kept(files, max_age), max_age).len() == 0,
        kept(kept(files, max_age), max_age) == kept(files, max_age),
    decreases files.len(),
{
    if files.len() > 0 {
        lemma_second_sweep_is_empty(files.drop_last(), max_age);
        if !is_swept(files.last(), max_age) {
            let inner = kept(files.drop_last(), max_age);
            assert(inner.push(files.last()).drop_last() =~= inner);
        }
    }
}

} // verus!
