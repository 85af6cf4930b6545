//! Decides whether the packages installed in an environment already meet the
//! dependencies that the environment asks for.

use crate::constraint::{
    build_verdict_of, lemma_portable_judgement, DependencySpec, Judgement, SpecModel,
};
use vstd::prelude::*;

verus! {

/// One package as it was found installed in an environment's root.
#[derive(Debug, Clone, PartialEq, Eq)]
pub struct InstalledPackageRecord {
    /// The normalized name of the package.
    pub name: String,
    /// Its version, as conda writes it.
    pub version: String,
    /// Its build string.
    pub build: String,
    /// The channel it came from, where known.
    pub channel: Option<String>,
    /// The size of its archive in bytes, where known.
    pub size: Option<u64>,
    /// The files it installed, relative to the environment's root.
    pub files: Vec<String>,
}

/// A package name together with the specs asked of it. Only the first spec
/// takes part in the satisfaction check.
#[derive(Debug, Clone, PartialEq, Eq)]
pub struct Dependency {
    /// The normalized name of the package.
    pub name: String,
    /// The specs, in the order they were given.
    pub specs: Vec<DependencySpec>,
}

/// What a dependency says.
pub struct DependencyModel {
    pub name: Seq<char>,
    pub specs: Seq<SpecModel>,
}

impl View for Dependency {
    type V = DependencyModel;

    open spec fn view(&self) -> DependencyModel {
        DependencyModel { name: self.name@, specs: self.specs@.map_values(|s: DependencySpec| s@) }
    }
}

impl Dependency {
    /// Copies the dependency.
    pub fn duplicate(&self) -> (r: Dependency)
        ensures
            r@ == self@,
    {
        let mut specs: Vec<DependencySpec> = Vec::new();
        let mut i: usize = 0;
        while i < self.specs.len()
            invariant
                0 <= i <= self.specs.len(),
                specs@.len() == i,
                forall|k: int| 0 <= k < i ==> (#[trigger] specs@[k])@ == self.specs@[k]@,
            decreases self.specs.len() - i,
        {
            specs.push(self.specs[i].duplicate());
            i += 1;
        }
        assert(specs@.map_values(|s: DependencySpec| s@) =~= self.specs@.map_values(
            |s: DependencySpec| s@,
        ));
        Dependency { name: self.name.clone(), specs }
    }
}

/// What dependencies say.
pub open spec fn dependency_models(dependencies: Seq<Dependency>) -> Seq<DependencyModel> {
    dependencies.map_values(|d: Dependency| d@)
}

/// Copies dependencies.
pub fn duplicate_dependencies(dependencies: &Vec<Dependency>) -> (r: Vec<Dependency>)
    ensures
        dependency_models(r@) == dependency_models(dependencies@),
{
    let mut r: Vec<Dependency> = Vec::new();
    let mut i: usize = 0;
    while i < dependencies.len()
        invariant
            0 <= i <= dependencies.len(),
            r@.len() == i,
            forall|k: int| 0 <= k < i ==> (#[trigger] r@[k])@ == dependencies@[k]@,
        decreases dependencies.len() - i,
    {
        r.push(dependencies[i].duplicate());
        i += 1;
    }
    assert(dependency_models(r@) =~= dependency_models(dependencies@));
    r
}

/// The least position of `dependencies` that holds a dependency on `name`,
/// or their number where none does.
pub open spec fn dependency_position(dependencies: Seq<DependencyModel>, name: Seq<char>) -> int
    decreases dependencies.len(),
{
    if dependencies.len() == 0 {
        0
    } else if dependencies[0].name == name {
        0
    } else {
        1 + dependency_position(dependencies.drop_first(), name)
    }
}

/// The dependencies after `spec` was asked of the package named `name`: the
/// spec joins those of the package, unless it is among them already; a
/// package that nothing was asked of yet is added at the end.
pub open spec fn with_dependency(
    dependencies: Seq<DependencyModel>,
    name: Seq<char>,
    spec: SpecModel,
) -> Seq<DependencyModel> {
    let at = dependency_position(dependencies, name);
    if at >= dependencies.len() {
        dependencies.push(DependencyModel { name, specs: seq![spec] })
    } else if dependencies[at].specs.contains(spec) {
        dependencies
    } else {
        dependencies.update(
            at,
            DependencyModel { name, specs: dependencies[at].specs.push(spec) },
        )
    }
}

/// Whether every package occurs once, with at least one spec and no spec
/// twice.
pub open spec fn is_dependency_map(dependencies: Seq<DependencyModel>) -> bool {
    &&& forall|i: int, j: int|
        0 <= i < j < dependencies.len() ==> (#[trigger] dependencies[i]).name
            != (#[trigger] dependencies[j]).name
    &&& forall|i: int| 0 <= i < dependencies.len() ==> (#[trigger] dependencies[i]).specs.len() > 0
    &&& forall|i: int, a: int, b: int|
        0 <= i < dependencies.len() && 0 <= a < b < dependencies[i].specs.len()
            ==> #[trigger] dependencies[i].specs[a] != #[trigger] dependencies[i].specs[b]
}

/// `dependency_position` is within bounds, points at the name if it points
/// at anything, and passes over no dependency of that name.
pub proof fn lemma_dependency_position(dependencies: Seq<DependencyModel>, name: Seq<char>)
    ensures
        0 <= dependency_position(dependencies, name) <= dependencies.len(),
        dependency_position(dependencies, name) < dependencies.len()
            ==> dependencies[dependency_position(dependencies, name)].name == name,
        forall|i: int|
            0 <= i < dependency_position(dependencies, name) ==> (#[trigger] dependencies[i]).name
                != name,
    decreases dependencies.len(),
{
    if dependencies.len() > 0 && dependencies[0].name != name {
        let rest = dependencies.drop_first();
        lemma_dependency_position(rest, name);
        assert forall|i: int| 0 <= i < dependency_position(dependencies, name) implies (
        #[trigger] dependencies[i]).name != name by {
            if i > 0 {
                assert(dependencies[i] == rest[i - 1]);
            }
        }
    }
}

/// Asking one more spec of a package keeps the map a map.
pub proof fn lemma_with_dependency_keeps_map(
    dependencies: Seq<DependencyModel>,
    name: Seq<char>,
    spec: SpecModel,
)
    requires
        is_dependency_map(dependencies),
    ensures
        is_dependency_map(with_dependency(dependencies, name, spec)),
{
    lemma_dependency_position(dependencies, name);
    let at = dependency_position(dependencies, name);
    let after = with_dependency(dependencies, name, spec);
    if at >= dependencies.len() {
        assert forall|i: int, j: int| 0 <= i < j < after.len() implies (#[trigger] after[i]).name
            != (#[trigger] after[j]).name by {
            if j == dependencies.len() {
                assert(after[i] == dependencies[i]);
            }
        }
    } else if !dependencies[at].specs.contains(spec) {
        assert forall|i: int, a: int, b: int|
            0 <= i < after.len() && 0 <= a < b < after[i].specs.len() implies #[trigger] after[i].specs[a]
            != #[trigger] after[i].specs[b] by {
            if i == at {
                if b == dependencies[at].specs.len() {
                    assert(dependencies[at].specs[a] != spec);
                } else {
                    assert(dependencies[i].specs[a] != dependencies[i].specs[b]);
                }
            } else {
                assert(dependencies[i].specs[a] != dependencies[i].specs[b]);
            }
        }
    }
}

/// The desired dependencies of an environment: for each package, by its
/// name, the specs that are asked of it, in the order in which they were
/// first asked.
#[derive(Debug, Clone, PartialEq, Eq)]
pub struct DesiredDependencyMap {
    entries: Vec<Dependency>,
}

impl View for DesiredDependencyMap {
    type V = Seq<DependencyModel>;

    closed spec fn view(&self) -> Seq<DependencyModel> {
        dependency_models(self.entries@)
    }
}

impl DesiredDependencyMap {
    /// A map that asks for nothing.
    pub fn new() -> (r: DesiredDependencyMap)
        ensures
            r@ == Seq::<DependencyModel>::empty(),
            is_dependency_map(r@),
    {
        let r = DesiredDependencyMap { entries: Vec::new() };
        assert(r@ =~= Seq::<DependencyModel>::empty());
        r
    }

    /// Where the dependency on `name` stands.
    pub fn find(&self, name: &String) -> (r: Option<usize>)
        ensures
            r is Some <==> dependency_position(self@, name@) < self@.len(),
            r matches Some(at) ==> at == dependency_position(self@, name@),
            dependency_position(self@, name@) <= self@.len(),
    {
        let ghost all = self@;
        let mut at: usize = 0;
        assert(all.skip(0) =~= all);
        while at < self.entries.len()
            invariant
                0 <= at <= self.entries.len(),
                all == dependency_models(self.entries@),
                dependency_position(all, name@) == at + dependency_position(
                    all.skip(at as int),
                    name@,
                ),
            decreases self.entries.len() - at,
        {
            let ghost rest = all.skip(at as int);
            assert(rest[0] == self.entries@[at as int]@);
            assert(rest.drop_first() =~= all.skip(at + 1));
            if self.entries[at].name == *name {
                return Some(at);
            }
            at += 1;
        }
        assert(all.skip(at as int).len() == 0);
        None
    }

    /// Asks `spec` of the package named `name`.
    pub fn insert(&mut self, name: String, spec: DependencySpec)
        ensures
            final(self)@ == with_dependency(old(self)@, name@, spec@),
            is_dependency_map(old(self)@) ==> is_dependency_map(final(self)@),
    {
        let ghost before = self@;
        proof {
            if is_dependency_map(before) {
                lemma_with_dependency_keeps_map(before, name@, spec@);
            }
        }
        let at = match self.find(&name) {
            None => {
                let dependency = Dependency { name, specs: vec![spec] };
                assert(dependency@.specs =~= seq![spec@]);
                self.entries.push(dependency);
                assert(self@ =~= with_dependency(before, name@, spec@));
                return;
            },
            Some(at) => at,
        };
        proof {
            lemma_dependency_position(before, name@);
        }
        let ghost specs = before[at as int].specs;
        let mut k: usize = 0;
        while k < self.entries[at].specs.len()
            invariant
                0 <= k <= self.entries@[at as int].specs@.len(),
                at < self.entries@.len(),
                before == dependency_models(self.entries@),
                before == old(self)@,
                dependency_position(before, name@) == at,
                specs == before[at as int].specs,
                forall|j: int| 0 <= j < k ==> specs[j] != spec@,
            decreases self.entries@[at as int].specs@.len() - k,
        {
            assert(specs[k as int] == self.entries@[at as int].specs@[k as int]@);
            if self.entries[at].specs[k].same(&spec) {
                assert(specs.contains(spec@));
                return;
            }
            k += 1;
        }
        assert(!specs.contains(spec@));
        self.entries[at].specs.push(spec);
        assert(self.entries@[at as int]@.specs =~= specs.push(spec@));
        assert(self@ =~= with_dependency(before, name@, spec@));
    }

    /// The number of packages that something is asked of.
    pub fn len(&self) -> (r: usize)
        ensures
            r == self@.len(),
    {
        self.entries.len()
    }

    /// Whether nothing is asked for.
    pub fn is_empty(&self) -> (r: bool)
        ensures
            r == (self@.len() == 0),
    {
        self.entries.len() == 0
    }

    /// The dependencies, one for each package.
    pub fn dependencies(&self) -> (r: &Vec<Dependency>)
        ensures
            dependency_models(r@) == self@,
    {
        &self.entries
    }

    /// Gives the dependencies up.
    pub fn into_dependencies(self) -> (r: Vec<Dependency>)
        ensures
            dependency_models(r@) == self@,
    {
        self.entries
    }
}

/// Whether `record` answers a dependency on `name` with first spec `spec`:
/// the names agree, and the record meets the spec where the spec is a
/// matchable constraint. Where it is not, the name alone decides.
pub open spec fn record_meets(name: Seq<char>, spec: DependencySpec, record: InstalledPackageRecord) -> bool {
    record.name@ == name && spec.judgement(record.version@, record.build@) != Judgement::Rejected
}

/// Whether some installed record answers `dependency`. A dependency without
/// any spec asks for nothing.
pub open spec fn dependency_met(dependency: Dependency, installed: Seq<InstalledPackageRecord>) -> bool {
    dependency.specs@.len() == 0 || exists|i: int|
        0 <= i < installed.len() && record_meets(
            dependency.name@,
            dependency.specs@[0],
            #[trigger] installed[i],
        )
}

/// Whether every desired dependency is answered by an installed record.
pub open spec fn is_satisfied(desired: Seq<Dependency>, installed: Seq<InstalledPackageRecord>) -> bool {
    forall|d: int| 0 <= d < desired.len() ==> dependency_met(#[trigger] desired[d], installed)
}

/// Whether `record` answers none of the desired dependencies.
pub open spec fn is_irrelevant(desired: Seq<Dependency>, record: InstalledPackageRecord) -> bool {
    forall|d: int|
        0 <= d < desired.len() && (#[trigger] desired[d]).specs@.len() > 0 ==> !record_meets(
            desired[d].name@,
            desired[d].specs@[0],
            record,
        )
}

/// Whether `record` may answer a dependency on `name` with first spec
/// `spec`: the names agree, and a judgement that may come out does not
/// reject the record.
pub open spec fn record_may_meet(name: Seq<char>, spec: DependencySpec, record: InstalledPackageRecord) -> bool {
    record.name@ == name && exists|judgement: Judgement| #[trigger]
        spec.may_judge(record.version@, record.build@, judgement) && judgement
            != Judgement::Rejected
}

/// Whether `record` answers a dependency on `name` with first spec `spec`
/// whatever judgement comes out: the names agree, and no judgement that may
/// come out rejects the record.
pub open spec fn record_must_meet(name: Seq<char>, spec: DependencySpec, record: InstalledPackageRecord) -> bool {
    record.name@ == name && forall|judgement: Judgement| #[trigger]
        spec.may_judge(record.version@, record.build@, judgement) ==> judgement
            != Judgement::Rejected
}

/// Whether some installed record may answer `dependency`.
pub open spec fn dependency_may_be_met(dependency: Dependency, installed: Seq<InstalledPackageRecord>) -> bool {
    dependency.specs@.len() == 0 || exists|i: int|
        0 <= i < installed.len() && record_may_meet(
            dependency.name@,
            dependency.specs@[0],
            #[trigger] installed[i],
        )
}

/// Whether some installed record answers `dependency` whatever judgement
/// comes out.
pub open spec fn dependency_must_be_met(dependency: Dependency, installed: Seq<InstalledPackageRecord>) -> bool {
    dependency.specs@.len() == 0 || exists|i: int|
        0 <= i < installed.len() && record_must_meet(
            dependency.name@,
            dependency.specs@[0],
            #[trigger] installed[i],
        )
}

/// Whether every desired dependency may be answered by an installed record.
pub open spec fn is_possibly_satisfied(desired: Seq<Dependency>, installed: Seq<InstalledPackageRecord>) -> bool {
    forall|d: int|
        0 <= d < desired.len() ==> dependency_may_be_met(#[trigger] desired[d], installed)
}

/// Whether every desired dependency is answered by an installed record
/// whatever judgements come out.
pub open spec fn is_surely_satisfied(desired: Seq<Dependency>, installed: Seq<InstalledPackageRecord>) -> bool {
    forall|d: int|
        0 <= d < desired.len() ==> dependency_must_be_met(#[trigger] desired[d], installed)
}

/// Whether the first spec of the dependency, if it has one, is portable.
pub open spec fn is_portable_dependency(dependency: Dependency) -> bool {
    dependency.specs@.len() > 0 ==> dependency.specs@[0].is_portable()
}

/// Whether the first spec of every dependency is portable.
pub open spec fn all_portable(desired: Seq<Dependency>) -> bool {
    forall|d: int| 0 <= d < desired.len() ==> is_portable_dependency(#[trigger] desired[d])
}

/// Whether `satisfied` may be the answer to whether the installed records
/// satisfy the desired dependencies: it is yes where they surely do, and no
/// where they cannot.
pub open spec fn is_verdict(
    desired: Seq<Dependency>,
    installed: Seq<InstalledPackageRecord>,
    satisfied: bool,
) -> bool {
    &&& is_surely_satisfied(desired, installed) ==> satisfied
    &&& satisfied ==> is_possibly_satisfied(desired, installed)
}

/// Against a portable spec, a record may answer, answers, and must answer
/// all at once.
pub proof fn lemma_portable_record(name: Seq<char>, spec: DependencySpec, record: InstalledPackageRecord)
    requires
        spec.is_portable(),
    ensures
        record_may_meet(name, spec, record) == record_meets(name, spec, record),
        record_must_meet(name, spec, record) == record_meets(name, spec, record),
{
    let named = spec.judgement(record.version@, record.build@);
    lemma_portable_judgement(spec, record.version@, record.build@, named);
    assert forall|judgement: Judgement| #[trigger]
        spec.may_judge(record.version@, record.build@, judgement) implies judgement == named by {
        lemma_portable_judgement(spec, record.version@, record.build@, judgement);
    }
}

/// A dependency whose first spec is portable may be met, is met, and must be
/// met all at once.
pub proof fn lemma_portable_dependency(dependency: Dependency, installed: Seq<InstalledPackageRecord>)
    requires
        is_portable_dependency(dependency),
    ensures
        dependency_may_be_met(dependency, installed) == dependency_met(dependency, installed),
        dependency_must_be_met(dependency, installed) == dependency_met(dependency, installed),
{
    if dependency.specs@.len() > 0 {
        let name = dependency.name@;
        let spec = dependency.specs@[0];
        assert forall|i: int| 0 <= i < installed.len() implies record_may_meet(
            name,
            spec,
            #[trigger] installed[i],
        ) == record_meets(name, spec, installed[i]) && record_must_meet(name, spec, installed[i])
            == record_meets(name, spec, installed[i]) by {
            lemma_portable_record(name, spec, installed[i]);
        }
    }
}

/// Where the first spec of every dependency is portable, there is one
/// answer: the installed records satisfy the desired dependencies exactly
/// where every dependency is met.
pub proof fn lemma_portable_is_exact(
    desired: Seq<Dependency>,
    installed: Seq<InstalledPackageRecord>,
    satisfied: bool,
)
    requires
        all_portable(desired),
    ensures
        is_possibly_satisfied(desired, installed) == is_satisfied(desired, installed),
        is_surely_satisfied(desired, installed) == is_satisfied(desired, installed),
        is_verdict(desired, installed, satisfied) <==> satisfied == is_satisfied(desired, installed),
{
    assert forall|d: int| 0 <= d < desired.len() implies dependency_may_be_met(
        #[trigger] desired[d],
        installed,
    ) == dependency_met(desired[d], installed) && dependency_must_be_met(desired[d], installed)
        == dependency_met(desired[d], installed) by {
        lemma_portable_dependency(desired[d], installed);
    }
}

/// What is surely satisfied is possibly satisfied, so there always is an
/// answer.
pub proof fn lemma_surely_is_possibly(desired: Seq<Dependency>, installed: Seq<InstalledPackageRecord>)
    requires
        is_surely_satisfied(desired, installed),
    ensures
        is_possibly_satisfied(desired, installed),
{
    assert forall|d: int| 0 <= d < desired.len() implies dependency_may_be_met(
        #[trigger] desired[d],
        installed,
    ) by {
        assert(dependency_must_be_met(desired[d], installed));
        if desired[d].specs@.len() > 0 {
            let name = desired[d].name@;
            let spec = desired[d].specs@[0];
            let i = choose|i: int|
                0 <= i < installed.len() && record_must_meet(name, spec, #[trigger] installed[i]);
            let record = installed[i];
            lemma_some_judgement(spec, record.version@, record.build@);
            assert(record_may_meet(name, spec, record));
        }
    }
}

/// Some judgement may always come out.
pub proof fn lemma_some_judgement(spec: DependencySpec, version: Seq<char>, build: Seq<char>)
    ensures
        exists|judgement: Judgement| #[trigger] spec.may_judge(version, build, judgement),
{
    let verdict = match spec {
        DependencySpec::Registry { version: constraint, build: Some(pattern) } => build_verdict_of(
            pattern@,
            build,
        ),
        _ => None,
    };
    assert(spec.may_yield(build, verdict));
    assert(spec.may_judge(version, build, spec.judgement_given(version, verdict)));
}

/// Tells whether `record` answers a dependency on `name` with spec `spec`.
/// Against a portable spec the answer is the named one; against any other it
/// is an answer that may come out.
pub fn meets(name: &String, spec: &DependencySpec, record: &InstalledPackageRecord) -> (r: bool)
    ensures
        r ==> record_may_meet(name@, *spec, *record),
        record_must_meet(name@, *spec, *record) ==> r,
        spec.is_portable() ==> r == record_meets(name@, *spec, *record),
{
    if record.name != *name {
        return false;
    }
    let judgement = spec.judge(record.version.as_str(), record.build.as_str());
    assert(spec.may_judge(record.version@, record.build@, judgement));
    match judgement {
        Judgement::Rejected => false,
        Judgement::Accepted => true,
        Judgement::Unmatchable => true,
    }
}

/// Tells whether some installed record answers `dependency`.
pub fn is_met(dependency: &Dependency, installed: &Vec<InstalledPackageRecord>) -> (r: bool)
    ensures
        r ==> dependency_may_be_met(*dependency, installed@),
        dependency_must_be_met(*dependency, installed@) ==> r,
        is_portable_dependency(*dependency) ==> r == dependency_met(*dependency, installed@),
{
    if dependency.specs.len() == 0 {
        return true;
    }
    let spec = &dependency.specs[0];
    let mut i: usize = 0;
    while i < installed.len()
        invariant
            0 <= i <= installed.len(),
            dependency.specs@.len() > 0,
            *spec == dependency.specs@[0],
            forall|k: int|
                0 <= k < i ==> !record_must_meet(dependency.name@, *spec, #[trigger] installed@[k]),
            spec.is_portable() ==> forall|k: int|
                0 <= k < i ==> !record_meets(dependency.name@, *spec, #[trigger] installed@[k]),
        decreases installed.len() - i,
    {
        if meets(&dependency.name, spec, &installed[i]) {
            return true;
        }
        i += 1;
    }
    false
}

/// Finds the first desired dependency that no installed record answers.
/// Where the first spec of every dependency is portable, this is the first
/// dependency that is not met, and there is none exactly where the
/// dependencies are satisfied.
pub fn first_unsatisfied(desired: &Vec<Dependency>, installed: &Vec<InstalledPackageRecord>) -> (r:
    Option<usize>)
    ensures
        is_verdict(desired@, installed@, r is None),
        r matches Some(d) ==> d < desired.len() && !dependency_must_be_met(
            desired@[d as int],
            installed@,
        ) && forall|k: int| 0 <= k < d ==> dependency_may_be_met(#[trigger] desired@[k], installed@),
        all_portable(desired@) ==> (r is None <==> is_satisfied(desired@, installed@)),
        all_portable(desired@) ==> (r matches Some(d) ==> !dependency_met(
            desired@[d as int],
            installed@,
        ) && forall|k: int| 0 <= k < d ==> dependency_met(#[trigger] desired@[k], installed@)),
{
    let mut d: usize = 0;
    while d < desired.len()
        invariant
            0 <= d <= desired.len(),
            forall|k: int| 0 <= k < d ==> dependency_may_be_met(#[trigger] desired@[k], installed@),
            all_portable(desired@) ==> forall|k: int|
                0 <= k < d ==> dependency_met(#[trigger] desired@[k], installed@),
        decreases desired.len() - d,
    {
        assert(all_portable(desired@) ==> is_portable_dependency(desired@[d as int]));
        if !is_met(&desired[d], installed) {
            return Some(d);
        }
        d += 1;
    }
    None
}

/// Decides whether the installed records satisfy the desired dependencies:
/// every dependency must be answered, and the first that is not settles the
/// result. Where the first spec of every dependency is portable the result is
/// exact. A build pattern that is not portable is evaluated all the same; the
/// result is then yes where the dependencies are surely satisfied and no
/// where they cannot be.
pub fn dependencies_satisfied(desired: &Vec<Dependency>, installed: &Vec<InstalledPackageRecord>) -> (r:
    bool)
    ensures
        is_verdict(desired@, installed@, r),
        all_portable(desired@) ==> r == is_satisfied(desired@, installed@),
{
    first_unsatisfied(desired, installed).is_none()
}

/// Whether the installed set satisfies the desired dependencies depends on
/// which records it holds, not on where they stand: a set that holds every
/// record of another satisfies whatever the other satisfies.
pub proof fn lemma_satisfied_by_superset(
    desired: Seq<Dependency>,
    installed: Seq<InstalledPackageRecord>,
    larger: Seq<InstalledPackageRecord>,
)
    requires
        forall|i: int| 0 <= i < installed.len() ==> larger.contains(#[trigger] installed[i]),
        is_satisfied(desired, installed),
    ensures
        is_satisfied(desired, larger),
{
    assert forall|d: int| 0 <= d < desired.len() implies dependency_met(
        #[trigger] desired[d],
        larger,
    ) by {
        assert(dependency_met(desired[d], installed));
        if desired[d].specs@.len() > 0 {
            let i = choose|i: int|
                0 <= i < installed.len() && record_meets(
                    desired[d].name@,
                    desired[d].specs@[0],
                    #[trigger] installed[i],
                );
            assert(larger.contains(installed[i]));
            let j = choose|j: int| 0 <= j < larger.len() && larger[j] == installed[i];
            assert(record_meets(desired[d].name@, desired[d].specs@[0], larger[j]));
        }
    }
}

/// Adding, at any place, an installed record that answers none of the
/// desired dependencies never changes whether they are satisfied.
pub proof fn lemma_irrelevant_addition(
    desired: Seq<Dependency>,
    installed: Seq<InstalledPackageRecord>,
    at: int,
    extra: InstalledPackageRecord,
)
    requires
        0 <= at <= installed.len(),
        is_irrelevant(desired, extra),
    ensures
        is_satisfied(desired, installed.insert(at, extra)) == is_satisfied(desired, installed),
{
    let larger = installed.insert(at, extra);
    if is_satisfied(desired, installed) {
        assert forall|i: int| 0 <= i < installed.len() implies larger.contains(
            #[trigger] installed[i],
        ) by {
            if i < at {
                assert(larger[i] == installed[i]);
            } else {
                assert(larger[i + 1] == installed[i]);
            }
        }
        lemma_satisfied_by_superset(desired, installed, larger);
    }
    if is_satisfied(desired, larger) {
        assert forall|d: int| 0 <= d < desired.len() implies dependency_met(
            #[trigger] desired[d],
            installed,
        ) by {
            assert(dependency_met(desired[d], larger));
            if desired[d].specs@.len() > 0 {
                let j = choose|j: int|
                    0 <= j < larger.len() && record_meets(
                        desired[d].name@,
                        desired[d].specs@[0],
                        #[trigger] larger[j],
                    );
                assert(j != at);
                if j < at {
                    assert(installed[j] == larger[j]);
                } else {
                    assert(installed[j - 1] == larger[j]);
                }
            }
        }
    }
}

/// Whether `record` may answer none of the desired dependencies, whatever
/// judgements come out.
pub open spec fn is_surely_irrelevant(desired: Seq<Dependency>, record: InstalledPackageRecord) -> bool {
    forall|d: int|
        0 <= d < desired.len() && (#[trigger] desired[d]).specs@.len() > 0 ==> !record_may_meet(
            desired[d].name@,
            desired[d].specs@[0],
            record,
        )
}

/// Adding, at any place, an installed record that may answer none of the
/// desired dependencies changes neither whether they are possibly satisfied
/// nor whether they are surely satisfied: so it never changes the answer
/// where there is one answer only.
pub proof fn lemma_irrelevant_addition_keeps_bounds(
    desired: Seq<Dependency>,
    installed: Seq<InstalledPackageRecord>,
    at: int,
    extra: InstalledPackageRecord,
)
    requires
        0 <= at <= installed.len(),
        is_surely_irrelevant(desired, extra),
    ensures
        is_possibly_satisfied(desired, installed.insert(at, extra)) == is_possibly_satisfied(
            desired,
            installed,
        ),
        is_surely_satisfied(desired, installed.insert(at, extra)) == is_surely_satisfied(
            desired,
            installed,
        ),
{
    let larger = installed.insert(at, extra);
    assert forall|d: int| 0 <= d < desired.len() implies dependency_may_be_met(
        #[trigger] desired[d],
        larger,
    ) == dependency_may_be_met(desired[d], installed) && dependency_must_be_met(
        desired[d],
        larger,
    ) == dependency_must_be_met(desired[d], installed) by {
        if desired[d].specs@.len() > 0 {
            let name = desired[d].name@;
            let spec = desired[d].specs@[0];
            assert(!record_may_meet(name, spec, extra));
            assert(!record_must_meet(name, spec, extra)) by {
                lemma_some_judgement(spec, extra.version@, extra.build@);
            }
            assert forall|i: int| 0 <= i < installed.len() implies installed[i] == larger[if i
                < at {
                i
            } else {
                i + 1
            }] by {}
            if dependency_may_be_met(desired[d], installed) {
                let i = choose|i: int|
                    0 <= i < installed.len() && record_may_meet(name, spec, #[trigger] installed[i]);
                let j = if i < at {
                    i
                } else {
                    i + 1
                };
                assert(record_may_meet(name, spec, larger[j]));
            }
            if dependency_must_be_met(desired[d], installed) {
                let i = choose|i: int|
                    0 <= i < installed.len() && record_must_meet(name, spec, #[trigger] installed[i]);
                let j = if i < at {
                    i
                } else {
                    i + 1
                };
                assert(record_must_meet(name, spec, larger[j]));
            }
            if dependency_may_be_met(desired[d], larger) {
                let j = choose|j: int|
                    0 <= j < larger.len() && record_may_meet(name, spec, #[trigger] larger[j]);
                assert(j != at);
                let i = if j < at {
                    j
                } else {
                    j - 1
                };
                assert(installed[i] == larger[j]);
                assert(record_may_meet(name, spec, installed[i]));
            }
            if dependency_must_be_met(desired[d], larger) {
                let j = choose|j: int|
                    0 <= j < larger.len() && record_must_meet(name, spec, #[trigger] larger[j]);
                assert(j != at);
                let i = if j < at {
                    j
                } else {
                    j - 1
                };
                assert(installed[i] == larger[j]);
                assert(record_must_meet(name, spec, installed[i]));
            }
        }
    }
}

} // verus!
