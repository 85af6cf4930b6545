//! What an observer of an installation keeps between the installer's
//! events: one slot per cache entry and one per link operation, addressed by
//! the index that was handed out when the slot was made.

use crate::ordering::texts;
use vstd::prelude::*;
use vstd::string::*;

verus! {

/// The slot of a package that is being brought into the package cache.
#[derive(Debug, Clone, PartialEq, Eq)]
pub struct CacheEntry {
    /// The normalized name of the package.
    pub name: String,
    /// The size of its archive in bytes, where known.
    pub size: Option<u64>,
    /// When its download started, in milliseconds of the caller's clock.
    pub download_started: Option<u64>,
}

/// What a cache entry says.
pub struct CacheEntryModel {
    pub name: Seq<char>,
    pub size: Option<u64>,
    pub download_started: Option<u64>,
}

impl View for CacheEntry {
    type V = CacheEntryModel;

    open spec fn view(&self) -> CacheEntryModel {
        CacheEntryModel {
            name: self.name@,
            size: self.size,
            download_started: self.download_started,
        }
    }
}

/// What there is to say of a finished download.
#[derive(Debug, Clone, PartialEq, Eq)]
pub struct DownloadReport {
    /// The name of the package, padded to the width of the longest name.
    pub name: String,
    /// The size of its archive in bytes, where known.
    pub size: Option<u64>,
    /// How long the download took, in whole milliseconds.
    pub elapsed_millis: u64,
}

/// The state of an observer, as its contracts speak of it.
pub struct ReporterModel {
    pub records: Seq<CacheEntryModel>,
    pub operations: Seq<Seq<char>>,
    pub longest_package_name: nat,
}

/// The length of the longest of `names`, and 0 where there is none.
pub open spec fn longest(names: Seq<Seq<char>>) -> nat
    decreases names.len(),
{
    if names.len() == 0 {
        0
    } else {
        let earlier = longest(names.drop_last());
        if names.last().len() > earlier {
            names.last().len()
        } else {
            earlier
        }
    }
}

/// `name` followed by as many spaces as it takes to make it `width`
/// characters long; `name` itself where it is that long already.
pub open spec fn padded(name: Seq<char>, width: nat) -> Seq<char> {
    if name.len() >= width {
        name
    } else {
        name + Seq::new((width - name.len()) as nat, |i: int| ' ')
    }
}

/// The time from `started` to `now`, and 0 where the clock went backwards.
pub open spec fn elapsed(started: u64, now: u64) -> u64 {
    if now >= started {
        (now - started) as u64
    } else {
        0
    }
}

/// Pads `name` with spaces on the right to `width` characters.
pub fn pad(name: &str, width: usize) -> (r: String)
    ensures
        r@ == padded(name@, width as nat),
{
    let n = name.unicode_len();
    let mut r = String::from_str(name);
    let mut i: usize = n;
    proof {
        reveal_strlit(" ");
    }
    assert(r@ =~= name@ + Seq::new(0nat, |i: int| ' '));
    while i < width
        invariant
            n == name@.len(),
            n <= i,
            n < width ==> i <= width,
            n >= width ==> i == n,
            r@ == name@ + Seq::new((i - n) as nat, |i: int| ' '),
            " "@ == seq![' '],
        decreases width - i,
    {
        r.append(" ");
        i += 1;
        assert(r@ =~= name@ + Seq::new((i - n) as nat, |i: int| ' '));
    }
    assert(n >= width ==> r@ =~= name@);
    assert(n < width ==> i == width);
    r
}

/// The slots of an observer of one installation.
pub struct Reporter {
    records: Vec<CacheEntry>,
    operations: Vec<String>,
    longest_package_name: usize,
}

impl View for Reporter {
    type V = ReporterModel;

    closed spec fn view(&self) -> ReporterModel {
        ReporterModel {
            records: self.records@.map_values(|e: CacheEntry| e@),
            operations: texts(self.operations@),
            longest_package_name: self.longest_package_name as nat,
        }
    }
}

impl Reporter {
    /// An observer without slots.
    pub fn new() -> (r: Reporter)
        ensures
            r@.records.len() == 0,
            r@.operations.len() == 0,
            r@.longest_package_name == 0,
    {
        Reporter { records: Vec::new(), operations: Vec::new(), longest_package_name: 0 }
    }

    /// The number of cache entries that have a slot.
    pub fn cache_entries(&self) -> (r: usize)
        ensures
            r == self@.records.len(),
    {
        self.records.len()
    }

    /// The number of link operations that have a slot.
    pub fn link_operations(&self) -> (r: usize)
        ensures
            r == self@.operations.len(),
    {
        self.operations.len()
    }

    /// When the download of a cache entry started, if the entry has a slot
    /// and its download has started.
    pub fn download_started(&self, cache_entry: usize) -> (r: Option<u64>)
        ensures
            r == (if cache_entry < self@.records.len() {
                self@.records[cache_entry as int].download_started
            } else {
                None
            }),
    {
        if cache_entry < self.records.len() {
            self.records[cache_entry].download_started
        } else {
            None
        }
    }

    /// Notes the width that names are padded to: the length of the longest
    /// name among the packages that the transaction installs or removes.
    pub fn on_transaction_start(&mut self, names: &Vec<String>)
        ensures
            final(self)@ == (ReporterModel {
                longest_package_name: longest(texts(names@)),
                ..old(self)@
            }),
    {
        let mut width: usize = 0;
        let mut i: usize = 0;
        let ghost all = texts(names@);
        assert(all.take(0) =~= Seq::<Seq<char>>::empty());
        while i < names.len()
            invariant
                0 <= i <= names.len(),
                all == texts(names@),
                width == longest(all.take(i as int)),
            decreases names.len() - i,
        {
            let ghost upto = all.take(i + 1);
            assert(upto.drop_last() =~= all.take(i as int));
            assert(upto.last() == names@[i as int]@);
            let n = names[i].as_str().unicode_len();
            if n > width {
                width = n;
            }
            i += 1;
        }
        assert(all.take(names@.len() as int) =~= all);
        self.longest_package_name = width;
    }

    /// Makes the slot of a package that is about to be brought into the
    /// cache, and hands out its index: the number of slots made before.
    pub fn on_populate_cache_start(&mut self, name: String, size: Option<u64>) -> (index: usize)
        ensures
            index == old(self)@.records.len(),
            final(self)@ == (ReporterModel {
                records: old(self)@.records.push(
                    CacheEntryModel { name: name@, size, download_started: None },
                ),
                ..old(self)@
            }),
    {
        let index = self.records.len();
        self.records.push(CacheEntry { name, size, download_started: None });
        assert(self@.records =~= old(self)@.records.push(
            CacheEntryModel { name: name@, size, download_started: None },
        ));
        index
    }

    /// A validation is addressed by the index of its cache entry.
    pub fn on_validate_start(&self, cache_entry: usize) -> (index: usize)
        ensures
            index == cache_entry,
    {
        cache_entry
    }

    /// Notes when the download of a cache entry started. The download is
    /// addressed by the index of its cache entry.
    pub fn on_download_start(&mut self, cache_entry: usize, now: u64) -> (index: usize)
        requires
            cache_entry < old(self)@.records.len(),
        ensures
            index == cache_entry,
            final(self)@ == (ReporterModel {
                records: old(self)@.records.update(
                    cache_entry as int,
                    CacheEntryModel {
                        download_started: Some(now),
                        ..old(self)@.records[cache_entry as int]
                    },
                ),
                ..old(self)@
            }),
    {
        self.records[cache_entry].download_started = Some(now);
        assert(self@.records =~= old(self)@.records.update(
            cache_entry as int,
            CacheEntryModel {
                download_started: Some(now),
                ..old(self)@.records[cache_entry as int]
            },
        ));
        cache_entry
    }

    /// What there is to say of the download that has just ended: the padded
    /// name of the package, its size, and the time since the download
    /// started.
    pub fn on_download_completed(&self, download: usize, now: u64) -> (r: DownloadReport)
        requires
            download < self@.records.len(),
            self@.records[download as int].download_started is Some,
        ensures
            r.name@ == padded(self@.records[download as int].name, self@.longest_package_name),
            r.size == self@.records[download as int].size,
            r.elapsed_millis == elapsed(
                self@.records[download as int].download_started->Some_0,
                now,
            ),
    {
        let entry = &self.records[download];
        assert(entry@ == self@.records[download as int]);
        let started = match entry.download_started {
            Some(started) => started,
            None => 0,
        };
        DownloadReport {
            name: pad(entry.name.as_str(), self.longest_package_name),
            size: entry.size,
            elapsed_millis: if now >= started {
                now - started
            } else {
                0
            },
        }
    }

    /// An unlink is addressed by the index of its operation.
    pub fn on_unlink_start(&self, operation: usize) -> (index: usize)
        ensures
            index == operation,
    {
        operation
    }

    /// Makes the slot of a package that is about to be linked, and hands out
    /// its index: the number of slots made before.
    pub fn on_link_start(&mut self, name: String) -> (index: usize)
        ensures
            index == old(self)@.operations.len(),
            final(self)@ == (ReporterModel {
                operations: old(self)@.operations.push(name@),
                ..old(self)@
            }),
    {
        let index = self.operations.len();
        self.operations.push(name);
        assert(self@.operations =~= old(self)@.operations.push(name@));
        index
    }

    /// The padded name of the package whose linking has just ended.
    pub fn on_link_complete(&self, index: usize) -> (r: String)
        requires
            index < self@.operations.len(),
        ensures
            r@ == padded(self@.operations[index as int], self@.longest_package_name),
    {
        pad(self.operations[index].as_str(), self.longest_package_name)
    }
}

} // verus!
