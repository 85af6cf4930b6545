//! The lock artifact: for each environment the platform, the channels and the
//! packages that the latest reconciliation found current.

use crate::ordering::{is_name_order, name_order, texts};
use crate::satisfaction::InstalledPackageRecord;
use vstd::prelude::*;
use vstd::string::*;

verus! {

/// A package as the lock artifact lists it.
#[derive(Debug, Clone, PartialEq, Eq)]
pub struct LockedPackage {
    pub name: String,
    pub version: String,
    pub build: String,
    pub channel: Option<String>,
    pub size: Option<u64>,
}

/// What a listed package says.
pub struct PackageModel {
    pub name: Seq<char>,
    pub version: Seq<char>,
    pub build: Seq<char>,
    pub channel: Option<Seq<char>>,
    pub size: Option<u64>,
}

/// What one environment's entry says.
pub struct EntryModel {
    pub environment: Seq<char>,
    pub platform: Seq<char>,
    pub channels: Seq<Seq<char>>,
    pub packages: Seq<PackageModel>,
}

/// The text that an optional string holds.
pub open spec fn optional_text(s: Option<String>) -> Option<Seq<char>> {
    match s {
        Some(s) => Some(s@),
        None => None,
    }
}

impl View for LockedPackage {
    type V = PackageModel;

    open spec fn view(&self) -> PackageModel {
        PackageModel {
            name: self.name@,
            version: self.version@,
            build: self.build@,
            channel: optional_text(self.channel),
            size: self.size,
        }
    }
}

/// What the lock artifact lists of an installed record.
pub open spec fn package_of(record: InstalledPackageRecord) -> PackageModel {
    PackageModel {
        name: record.name@,
        version: record.version@,
        build: record.build@,
        channel: optional_text(record.channel),
        size: record.size,
    }
}

/// What the lock artifact lists of each of some installed records.
pub open spec fn packages_of(records: Seq<InstalledPackageRecord>) -> Seq<PackageModel> {
    records.map_values(|r: InstalledPackageRecord| package_of(r))
}

/// The names of packages.
pub open spec fn names_of(packages: Seq<PackageModel>) -> Seq<Seq<char>> {
    packages.map_values(|p: PackageModel| p.name)
}

/// Whether `sorted` holds the packages of `given`, each once, by ascending
/// name, packages of one name in the order they were given. There is one such
/// arrangement of any `given`.
pub open spec fn is_sorted_by_name(sorted: Seq<PackageModel>, given: Seq<PackageModel>) -> bool {
    exists|order: Seq<usize>|
        #![auto]
        is_name_order(order, names_of(given)) && sorted.len() == given.len() && forall|k: int|
            0 <= k < sorted.len() ==> sorted[k] == given[order[k] as int]
}

/// The entry of one environment.
#[derive(Debug, Clone, PartialEq, Eq)]
pub struct LockEntry {
    pub environment: String,
    pub platform: String,
    pub channels: Vec<String>,
    pub packages: Vec<LockedPackage>,
}

impl View for LockEntry {
    type V = EntryModel;

    open spec fn view(&self) -> EntryModel {
        EntryModel {
            environment: self.environment@,
            platform: self.platform@,
            channels: texts(self.channels@),
            packages: self.packages@.map_values(|p: LockedPackage| p@),
        }
    }
}

/// Copies an optional string.
pub fn clone_optional(s: &Option<String>) -> (r: Option<String>)
    ensures
        optional_text(r) == optional_text(*s),
{
    match s {
        Some(s) => Some(s.clone()),
        None => None,
    }
}

/// Copies strings.
pub fn clone_texts(strings: &Vec<String>) -> (r: Vec<String>)
    ensures
        texts(r@) == texts(strings@),
{
    let mut r: Vec<String> = Vec::new();
    let mut i: usize = 0;
    while i < strings.len()
        invariant
            0 <= i <= strings.len(),
            r@.len() == i,
            forall|k: int| 0 <= k < i ==> (#[trigger] r@[k])@ == strings@[k]@,
        decreases strings.len() - i,
    {
        r.push(strings[i].clone());
        i += 1;
    }
    assert(texts(r@) =~= texts(strings@));
    r
}

/// Lists an installed record for the lock artifact.
pub fn lock_package(record: &InstalledPackageRecord) -> (r: LockedPackage)
    ensures
        r@ == package_of(*record),
{
    LockedPackage {
        name: record.name.clone(),
        version: record.version.clone(),
        build: record.build.clone(),
        channel: clone_optional(&record.channel),
        size: record.size,
    }
}

/// Lists installed records for the lock artifact, ordered by package name.
pub fn lock_packages(records: &Vec<InstalledPackageRecord>) -> (r: Vec<LockedPackage>)
    ensures
        is_sorted_by_name(r@.map_values(|p: LockedPackage| p@), packages_of(records@)),
{
    let mut names: Vec<String> = Vec::new();
    let mut i: usize = 0;
    while i < records.len()
        invariant
            0 <= i <= records.len(),
            names@.len() == i,
            forall|k: int| 0 <= k < i ==> (#[trigger] names@[k])@ == records@[k].name@,
        decreases records.len() - i,
    {
        names.push(records[i].name.clone());
        i += 1;
    }
    assert(texts(names@) =~= names_of(packages_of(records@)));
    let order = name_order(&names);
    let mut r: Vec<LockedPackage> = Vec::new();
    let mut k: usize = 0;
    while k < order.len()
        invariant
            0 <= k <= order.len(),
            order@.len() == records@.len(),
            forall|j: int| 0 <= j < order@.len() ==> #[trigger] order@[j] < records@.len(),
            r@.len() == k,
            forall|j: int| 0 <= j < k ==> (#[trigger] r@[j])@ == package_of(records@[order@[j] as int]),
        decreases order.len() - k,
    {
        r.push(lock_package(&records[order[k]]));
        k += 1;
    }
    proof {
        let sorted = r@.map_values(|p: LockedPackage| p@);
        let given = packages_of(records@);
        assert(is_name_order(order@, names_of(given)));
        assert(sorted.len() == given.len());
        assert forall|j: int| 0 <= j < sorted.len() implies sorted[j] == given[order@[j] as int] by {}
    }
    r
}

/// Whether `after` is `before` with the entry of `environment` replaced by
/// one that holds the given platform and channels and lists `records` by
/// package name.
pub open spec fn is_published(
    before: Map<Seq<char>, EntryModel>,
    after: Map<Seq<char>, EntryModel>,
    environment: Seq<char>,
    platform: Seq<char>,
    channels: Seq<Seq<char>>,
    records: Seq<InstalledPackageRecord>,
) -> bool {
    &&& after.dom() == before.dom().insert(environment)
    &&& forall|name: Seq<char>|
        name != environment && before.contains_key(name) ==> after[name] == before[name]
    &&& after[environment].environment == environment
    &&& after[environment].platform == platform
    &&& after[environment].channels == channels
    &&& is_sorted_by_name(after[environment].packages, packages_of(records))
}

/// The lock artifact of a reconciliation run, keyed by environment name. An
/// environment has at most one entry, and publishing for it again replaces
/// the entry whole.
#[derive(Debug, Clone, PartialEq, Eq)]
pub struct LockArtifact {
    entries: Vec<LockEntry>,
}

impl LockArtifact {
    /// No two entries are for the same environment.
    pub closed spec fn wf(&self) -> bool {
        forall|i: int, j: int|
            0 <= i < j < self.entries@.len() ==> (#[trigger] self.entries@[i]).environment@
                != (#[trigger] self.entries@[j]).environment@
    }

    /// Whether the entry at `position` is the one for `name`.
    spec fn is_at(&self, name: Seq<char>, position: int) -> bool {
        0 <= position < self.entries@.len() && self.entries@[position].environment@ == name
    }

    /// What the artifact says of each environment that it has an entry for.
    pub closed spec fn entries(&self) -> Map<Seq<char>, EntryModel> {
        Map::new(
            |name: Seq<char>| exists|i: int| self.is_at(name, i),
            |name: Seq<char>| self.entries@[choose|i: int| self.is_at(name, i)]@,
        )
    }

    /// An artifact without entries.
    pub fn new() -> (r: LockArtifact)
        ensures
            r.wf(),
            r.entries() == Map::<Seq<char>, EntryModel>::empty(),
    {
        let r = LockArtifact { entries: Vec::new() };
        assert(r.entries() =~= Map::<Seq<char>, EntryModel>::empty());
        r
    }

    /// The number of environments that have an entry.
    pub fn len(&self) -> (r: usize)
        requires
            self.wf(),
        ensures
            r == self.entries().len(),
            self.entries().dom().finite(),
    {
        proof {
            self.lemma_len(self.entries@.len() as int);
            assert(self.prefix_names(self.entries@.len() as int) =~= self.entries().dom());
        }
        self.entries.len()
    }

    /// The environments of the first `upto` entries.
    spec fn prefix_names(&self, upto: int) -> Set<Seq<char>> {
        Set::new(|name: Seq<char>| exists|i: int| self.is_at(name, i) && i < upto)
    }

    proof fn lemma_len(&self, upto: int)
        requires
            self.wf(),
            0 <= upto <= self.entries@.len(),
        ensures
            self.prefix_names(upto).finite(),
            self.prefix_names(upto).len() == upto,
        decreases upto,
    {
        if upto == 0 {
            assert(self.prefix_names(0) =~= Set::<Seq<char>>::empty());
        } else {
            self.lemma_len(upto - 1);
            let name = self.entries@[upto - 1].environment@;
            assert(self.is_at(name, upto - 1));
            assert(self.prefix_names(upto) =~= self.prefix_names(upto - 1).insert(name));
            assert(!self.prefix_names(upto - 1).contains(name));
        }
    }

    /// Where the entry for `name` stands, if there is one.
    fn find(&self, name: &str) -> (r: Option<usize>)
        ensures
            r matches Some(i) ==> self.is_at(name@, i as int),
            r is None ==> forall|i: int| !self.is_at(name@, i),
    {
        let wanted = String::from_str(name);
        let mut i: usize = 0;
        while i < self.entries.len()
            invariant
                0 <= i <= self.entries.len(),
                wanted@ == name@,
                forall|k: int| 0 <= k < i ==> !self.is_at(name@, k),
            decreases self.entries.len() - i,
        {
            if self.entries[i].environment == wanted {
                return Some(i);
            }
            i += 1;
        }
        None
    }

    /// The entry for `name`, if there is one.
    pub fn get(&self, name: &str) -> (r: Option<&LockEntry>)
        requires
            self.wf(),
        ensures
            r is Some <==> self.entries().contains_key(name@),
            r matches Some(entry) ==> entry@ == self.entries()[name@] && entry.environment@ == name@,
    {
        match self.find(name) {
            Some(i) => {
                proof {
                    let c = choose|c: int| self.is_at(name@, c);
                    assert(c == i);
                }
                Some(&self.entries[i])
            },
            None => None,
        }
    }

    /// Publishes what a reconciliation found current for an environment:
    /// its platform, its channels and its installed packages, which are
    /// listed by package name. An earlier entry for the environment is
    /// replaced, not merged; the other environments' entries stay.
    pub fn publish(
        &mut self,
        environment: &str,
        platform: &str,
        channels: &Vec<String>,
        records: &Vec<InstalledPackageRecord>,
    )
        requires
            old(self).wf(),
        ensures
            final(self).wf(),
            is_published(
                old(self).entries(),
                final(self).entries(),
                environment@,
                platform@,
                texts(channels@),
                records@,
            ),
    {
        let entry = LockEntry {
            environment: String::from_str(environment),
            platform: String::from_str(platform),
            channels: clone_texts(channels),
            packages: lock_packages(records),
        };
        let ghost model = entry@;
        let ghost at: int;
        match self.find(environment) {
            Some(i) => {
                self.entries.set(i, entry);
                proof {
                    at = i as int;
                }
            },
            None => {
                self.entries.push(entry);
                proof {
                    at = self.entries@.len() - 1;
                }
            },
        }
        proof {
            assert(self.is_at(environment@, at));
            assert(self.entries@[at]@ == model);
            assert forall|i: int, name: Seq<char>| i != at implies (self.is_at(name, i) <==> old(self).is_at(name, i)) by {}
            assert forall|i: int, j: int| 0 <= i < j < self.entries@.len() implies (
            #[trigger] self.entries@[i]).environment@ != (#[trigger] self.entries@[j]).environment@ by {
                if i == at {
                    assert(!old(self).is_at(environment@, j));
                } else if j == at {
                    assert(!old(self).is_at(environment@, i));
                }
            }
            assert forall|name: Seq<char>|
                self.entries().dom().contains(name) <==> old(self).entries().dom().insert(
                    environment@,
                ).contains(name) by {
                if name == environment@ {
                } else {
                    if self.entries().dom().contains(name) {
                        let i = choose|i: int| self.is_at(name, i);
                        assert(i != at);
                        assert(old(self).is_at(name, i));
                    }
                    if old(self).entries().dom().contains(name) {
                        let i = choose|i: int| old(self).is_at(name, i);
                        assert(i != at);
                        assert(self.is_at(name, i));
                    }
                }
            }
            assert(self.entries().dom() =~= old(self).entries().dom().insert(environment@));
            assert forall|name: Seq<char>|
                name != environment@ && old(self).entries().contains_key(name) implies self.entries()[name] == old(self).entries()[name] by {
                let i = choose|i: int| old(self).is_at(name, i);
                assert(i != at);
                assert(self.is_at(name, i));
                let j = choose|j: int| self.is_at(name, j);
                assert(j == i);
            }
            let c = choose|c: int| self.is_at(environment@, c);
            assert(c == at);
        }
    }
}

} // verus!
