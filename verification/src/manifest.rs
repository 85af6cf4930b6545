//! The manifest: for each environment the dependencies it declares and the
//! executables it exposes under names of the user's choosing, and the edits
//! that add and remove such mappings.

use crate::satisfaction::{dependency_models, duplicate_dependencies, Dependency, DependencyModel};
use vstd::prelude::*;
use vstd::string::*;

verus! {

/// A name bound to an executable of an environment.
#[derive(Debug, Clone, PartialEq, Eq)]
pub struct Mapping {
    /// The name under which the executable is exposed.
    pub exposed_name: String,
    /// The executable inside the environment.
    pub executable_name: String,
}

/// What a mapping says.
pub struct MappingModel {
    pub exposed_name: Seq<char>,
    pub executable_name: Seq<char>,
}

impl View for Mapping {
    type V = MappingModel;

    open spec fn view(&self) -> MappingModel {
        MappingModel { exposed_name: self.exposed_name@, executable_name: self.executable_name@ }
    }
}

/// Where `=` first occurs in `text`, or the length of `text` where it does
/// not occur.
pub open spec fn equals_position(text: Seq<char>) -> int
    decreases text.len(),
{
    if text.len() == 0 {
        0
    } else if text[0] == '=' {
        0
    } else {
        1 + equals_position(text.drop_first())
    }
}

/// The mapping that `text` writes: `exposed_name=executable_name`, split at
/// the first `=`, or the name of an executable that is exposed under its
/// own name.
pub open spec fn parsed_mapping(text: Seq<char>) -> MappingModel {
    let at = equals_position(text);
    if at < text.len() {
        MappingModel {
            exposed_name: text.subrange(0, at),
            executable_name: text.subrange(at + 1, text.len() as int),
        }
    } else {
        MappingModel { exposed_name: text, executable_name: text }
    }
}

impl Mapping {
    /// Reads a mapping written as `exposed_name=executable_name`, or as the
    /// name of an executable alone.
    pub fn parse(text: &str) -> (r: Mapping)
        ensures
            r@ == parsed_mapping(text@),
    {
        let n = text.unicode_len();
        let mut i: usize = 0;
        assert(text@.skip(0) =~= text@);
        while i < n
            invariant
                0 <= i <= n,
                n == text@.len(),
                equals_position(text@) == i + equals_position(text@.skip(i as int)),
            decreases n - i,
        {
            let ghost rest = text@.skip(i as int);
            assert(rest[0] == text@[i as int]);
            assert(rest.drop_first() =~= text@.skip(i + 1));
            if text.get_char(i) == '=' {
                return Mapping {
                    exposed_name: String::from_str(text.substring_char(0, i)),
                    executable_name: String::from_str(text.substring_char(i + 1, n)),
                };
            }
            i += 1;
        }
        assert(text@.skip(n as int).len() == 0);
        Mapping { exposed_name: String::from_str(text), executable_name: String::from_str(text) }
    }

    /// Writes the mapping as `exposed_name=executable_name`.
    pub fn render(&self) -> (r: String)
        ensures
            r@ == self.exposed_name@ + "="@ + self.executable_name@,
    {
        self.exposed_name.clone().concat("=").concat(self.executable_name.as_str())
    }
}

/// A mapping whose exposed name holds no `=` is read back as it was
/// written.
pub proof fn lemma_mapping_round_trip(mapping: MappingModel)
    requires
        !mapping.exposed_name.contains('='),
    ensures
        parsed_mapping(mapping.exposed_name + "="@ + mapping.executable_name) == mapping,
{
    reveal_strlit("=");
    let text = mapping.exposed_name + "="@ + mapping.executable_name;
    lemma_equals_position(mapping.exposed_name, "="@ + mapping.executable_name);
    let at = mapping.exposed_name.len() as int;
    assert(text =~= mapping.exposed_name + ("="@ + mapping.executable_name));
    assert(text.subrange(0, at) =~= mapping.exposed_name);
    assert(text.subrange(at + 1, text.len() as int) =~= mapping.executable_name);
}

/// In front of a text that starts with `=`, a text without `=` puts the
/// first `=` at its own length.
pub proof fn lemma_equals_position(head: Seq<char>, tail: Seq<char>)
    requires
        !head.contains('='),
        tail.len() > 0,
        tail[0] == '=',
    ensures
        equals_position(head + tail) == head.len(),
    decreases head.len(),
{
    if head.len() == 0 {
        assert(head + tail =~= tail);
    } else {
        assert((head + tail)[0] == head[0]);
        assert(head.contains(head[0]));
        assert((head + tail).drop_first() =~= head.drop_first() + tail);
        assert forall|c: char| head.drop_first().contains(c) implies head.contains(c) by {
            let i = choose|i: int| 0 <= i < head.drop_first().len() && head.drop_first()[i] == c;
            assert(head[i + 1] == c);
        }
        lemma_equals_position(head.drop_first(), tail);
    }
}

/// What the manifest holds for one environment.
#[derive(Debug, Clone, PartialEq, Eq)]
pub struct ManifestEnvironment {
    pub name: String,
    pub dependencies: Vec<Dependency>,
    pub exposed: Vec<Mapping>,
}

/// What the manifest says of one environment.
pub struct EnvironmentModel {
    pub name: Seq<char>,
    pub dependencies: Seq<DependencyModel>,
    pub exposed: Seq<MappingModel>,
}

/// What mappings say.
pub open spec fn mapping_models(mappings: Seq<Mapping>) -> Seq<MappingModel> {
    mappings.map_values(|m: Mapping| m@)
}

impl View for ManifestEnvironment {
    type V = EnvironmentModel;

    open spec fn view(&self) -> EnvironmentModel {
        EnvironmentModel {
            name: self.name@,
            dependencies: dependency_models(self.dependencies@),
            exposed: mapping_models(self.exposed@),
        }
    }
}

/// Why an edit was refused.
#[derive(Debug, Clone, Copy, PartialEq, Eq, Structural)]
pub enum EditError {
    /// The manifest has no environment of the given name.
    UnknownEnvironment,
    /// The environment already exposes something under the given name.
    ExposedNameTaken,
    /// The environment exposes nothing under the given name.
    UnknownExposedName,
}

/// One edit of an environment's exposed mappings.
#[derive(Debug, Clone, PartialEq, Eq)]
pub enum Edit {
    /// Expose an executable under a new name.
    AddExposed(Mapping),
    /// Stop exposing what is exposed under this name.
    RemoveExposed(String),
}

/// What an edit says.
pub enum EditModel {
    AddExposed(MappingModel),
    RemoveExposed(Seq<char>),
}

impl View for Edit {
    type V = EditModel;

    open spec fn view(&self) -> EditModel {
        match self {
            Edit::AddExposed(mapping) => EditModel::AddExposed(mapping@),
            Edit::RemoveExposed(name) => EditModel::RemoveExposed(name@),
        }
    }
}

/// What edits say.
pub open spec fn edit_models(edits: Seq<Edit>) -> Seq<EditModel> {
    edits.map_values(|e: Edit| e@)
}

/// The least position of `environments` that holds an environment named
/// `name`, or their number where none does.
pub open spec fn environment_position(environments: Seq<EnvironmentModel>, name: Seq<char>) -> int
    decreases environments.len(),
{
    if environments.len() == 0 {
        0
    } else if environments[0].name == name {
        0
    } else {
        1 + environment_position(environments.drop_first(), name)
    }
}

/// The least position of `exposed` that holds a mapping exposed as `name`,
/// or their number where none does.
pub open spec fn exposed_position(exposed: Seq<MappingModel>, name: Seq<char>) -> int
    decreases exposed.len(),
{
    if exposed.len() == 0 {
        0
    } else if exposed[0].exposed_name == name {
        0
    } else {
        1 + exposed_position(exposed.drop_first(), name)
    }
}

/// `environment_position` is within bounds, points at the name if it points
/// at anything, and passes over no environment of that name.
pub proof fn lemma_environment_position(environments: Seq<EnvironmentModel>, name: Seq<char>)
    ensures
        0 <= environment_position(environments, name) <= environments.len(),
        environment_position(environments, name) < environments.len()
            ==> environments[environment_position(environments, name)].name == name,
        forall|i: int|
            0 <= i < environment_position(environments, name) ==> (#[trigger] environments[i]).name
                != name,
    decreases environments.len(),
{
    if environments.len() > 0 && environments[0].name != name {
        let rest = environments.drop_first();
        lemma_environment_position(rest, name);
        assert forall|i: int| 0 <= i < environment_position(environments, name) implies (
        #[trigger] environments[i]).name != name by {
            if i > 0 {
                assert(environments[i] == rest[i - 1]);
            }
        }
    }
}

/// `exposed_position` is within bounds, points at the name if it points at
/// anything, and passes over no mapping of that name.
pub proof fn lemma_exposed_position(exposed: Seq<MappingModel>, name: Seq<char>)
    ensures
        0 <= exposed_position(exposed, name) <= exposed.len(),
        exposed_position(exposed, name) < exposed.len() ==> exposed[exposed_position(
            exposed,
            name,
        )].exposed_name == name,
        forall|i: int|
            0 <= i < exposed_position(exposed, name) ==> (#[trigger] exposed[i]).exposed_name
                != name,
    decreases exposed.len(),
{
    if exposed.len() > 0 && exposed[0].exposed_name != name {
        let rest = exposed.drop_first();
        lemma_exposed_position(rest, name);
        assert forall|i: int| 0 <= i < exposed_position(exposed, name) implies (
        #[trigger] exposed[i]).exposed_name != name by {
            if i > 0 {
                assert(exposed[i] == rest[i - 1]);
            }
        }
    }
}

/// The manifest after `mapping` was added to the environment named
/// `environment`, or why it cannot be added.
pub open spec fn with_mapping(
    manifest: Seq<EnvironmentModel>,
    environment: Seq<char>,
    mapping: MappingModel,
) -> Result<Seq<EnvironmentModel>, EditError> {
    let at = environment_position(manifest, environment);
    if at >= manifest.len() {
        Err(EditError::UnknownEnvironment)
    } else if exposed_position(manifest[at].exposed, mapping.exposed_name)
        < manifest[at].exposed.len() {
        Err(EditError::ExposedNameTaken)
    } else {
        Ok(
            manifest.update(
                at,
                EnvironmentModel { exposed: manifest[at].exposed.push(mapping), ..manifest[at] },
            ),
        )
    }
}

/// The manifest after the mapping exposed as `name` was removed from the
/// environment named `environment`, or why it cannot be removed.
pub open spec fn without_exposed(
    manifest: Seq<EnvironmentModel>,
    environment: Seq<char>,
    name: Seq<char>,
) -> Result<Seq<EnvironmentModel>, EditError> {
    let at = environment_position(manifest, environment);
    if at >= manifest.len() {
        Err(EditError::UnknownEnvironment)
    } else {
        let which = exposed_position(manifest[at].exposed, name);
        if which >= manifest[at].exposed.len() {
            Err(EditError::UnknownExposedName)
        } else {
            Ok(
                manifest.update(
                    at,
                    EnvironmentModel {
                        exposed: manifest[at].exposed.remove(which),
                        ..manifest[at]
                    },
                ),
            )
        }
    }
}

/// The manifest after one edit of the environment named `environment`.
pub open spec fn edited(manifest: Seq<EnvironmentModel>, environment: Seq<char>, edit: EditModel) -> Result<
    Seq<EnvironmentModel>,
    EditError,
> {
    match edit {
        EditModel::AddExposed(mapping) => with_mapping(manifest, environment, mapping),
        EditModel::RemoveExposed(name) => without_exposed(manifest, environment, name),
    }
}

/// The manifest after a batch of edits of the environment named
/// `environment`, made in order; the first edit that is refused refuses the
/// batch.
pub open spec fn edited_all(
    manifest: Seq<EnvironmentModel>,
    environment: Seq<char>,
    edits: Seq<EditModel>,
) -> Result<Seq<EnvironmentModel>, EditError>
    decreases edits.len(),
{
    if edits.len() == 0 {
        Ok(manifest)
    } else {
        match edited(manifest, environment, edits[0]) {
            Ok(next) => edited_all(next, environment, edits.drop_first()),
            Err(e) => Err(e),
        }
    }
}

/// The manifest.
#[derive(Debug, Clone, PartialEq, Eq)]
pub struct Manifest {
    pub environments: Vec<ManifestEnvironment>,
}

impl View for Manifest {
    type V = Seq<EnvironmentModel>;

    open spec fn view(&self) -> Seq<EnvironmentModel> {
        self.environments@.map_values(|e: ManifestEnvironment| e@)
    }
}

/// Copies mappings.
pub fn duplicate_mappings(mappings: &Vec<Mapping>) -> (r: Vec<Mapping>)
    ensures
        mapping_models(r@) == mapping_models(mappings@),
{
    let mut r: Vec<Mapping> = Vec::new();
    let mut i: usize = 0;
    while i < mappings.len()
        invariant
            0 <= i <= mappings.len(),
            r@.len() == i,
            forall|k: int| 0 <= k < i ==> (#[trigger] r@[k])@ == mappings@[k]@,
        decreases mappings.len() - i,
    {
        r.push(
            Mapping {
                exposed_name: mappings[i].exposed_name.clone(),
                executable_name: mappings[i].executable_name.clone(),
            },
        );
        i += 1;
    }
    assert(mapping_models(r@) =~= mapping_models(mappings@));
    r
}

impl Manifest {
    /// A copy that shares nothing with the manifest: what is done to the one
    /// does not show in the other.
    pub fn duplicate(&self) -> (r: Manifest)
        ensures
            r@ == self@,
    {
        let mut environments: Vec<ManifestEnvironment> = Vec::new();
        let mut i: usize = 0;
        while i < self.environments.len()
            invariant
                0 <= i <= self.environments.len(),
                environments@.len() == i,
                forall|k: int| 0 <= k < i ==> (#[trigger] environments@[k])@ == self.environments@[k]@,
            decreases self.environments.len() - i,
        {
            let e = &self.environments[i];
            environments.push(
                ManifestEnvironment {
                    name: e.name.clone(),
                    dependencies: duplicate_dependencies(&e.dependencies),
                    exposed: duplicate_mappings(&e.exposed),
                },
            );
            i += 1;
        }
        let r = Manifest { environments };
        assert(r@ =~= self@);
        r
    }

    /// Where the environment named `name` stands: the first of that name.
    pub fn find_environment(&self, name: &str) -> (r: Option<usize>)
        ensures
            r is Some <==> environment_position(self@, name@) < self@.len(),
            r matches Some(at) ==> at == environment_position(self@, name@),
    {
        let wanted = String::from_str(name);
        let mut i: usize = 0;
        proof {
            lemma_environment_position(self@, name@);
        }
        while i < self.environments.len()
            invariant
                0 <= i <= self.environments.len(),
                wanted@ == name@,
                self@.len() == self.environments@.len(),
                i <= environment_position(self@, name@) <= self@.len(),
                environment_position(self@, name@) < self@.len() ==> self@[environment_position(
                    self@,
                    name@,
                )].name == name@,
                forall|k: int|
                    0 <= k < environment_position(self@, name@) ==> (#[trigger] self@[k]).name
                        != name@,
            decreases self.environments.len() - i,
        {
            if self.environments[i].name == wanted {
                assert(self@[i as int].name == name@);
                return Some(i);
            }
            assert(self@[i as int].name != name@);
            i += 1;
        }
        None
    }

    /// Exposes an executable of the environment named `environment` under a
    /// name that the environment does not use yet. A refused edit leaves the
    /// manifest as it was.
    pub fn add_exposed_mapping(&mut self, environment: &str, mapping: Mapping) -> (r: Result<
        (),
        EditError,
    >)
        ensures
            match with_mapping(old(self)@, environment@, mapping@) {
                Ok(manifest) => r is Ok && final(self)@ == manifest,
                Err(e) => r == Err::<(), EditError>(e) && final(self)@ == old(self)@,
            },
    {
        match self.find_environment(environment) {
            None => Err(EditError::UnknownEnvironment),
            Some(at) => {
                match find_exposed(&self.environments[at].exposed, mapping.exposed_name.as_str()) {
                    Some(_) => Err(EditError::ExposedNameTaken),
                    None => {
                        self.environments[at].exposed.push(mapping);
                        assert(self@ =~= with_mapping(old(self)@, environment@, mapping@)->Ok_0)
                            by {
                            assert(mapping_models(self.environments@[at as int].exposed@)
                                =~= mapping_models(old(self).environments@[at as int].exposed@).push(
                                mapping@,
                            ));
                        }
                        Ok(())
                    },
                }
            },
        }
    }

    /// Stops exposing what the environment named `environment` exposes as
    /// `name`. A refused edit leaves the manifest as it was.
    pub fn remove_exposed_name(&mut self, environment: &str, name: &str) -> (r: Result<
        (),
        EditError,
    >)
        ensures
            match without_exposed(old(self)@, environment@, name@) {
                Ok(manifest) => r is Ok && final(self)@ == manifest,
                Err(e) => r == Err::<(), EditError>(e) && final(self)@ == old(self)@,
            },
    {
        match self.find_environment(environment) {
            None => Err(EditError::UnknownEnvironment),
            Some(at) => {
                match find_exposed(&self.environments[at].exposed, name) {
                    None => Err(EditError::UnknownExposedName),
                    Some(which) => {
                        self.environments[at].exposed.remove(which);
                        assert(self@ =~= without_exposed(old(self)@, environment@, name@)->Ok_0)
                            by {
                            assert(mapping_models(self.environments@[at as int].exposed@)
                                =~= mapping_models(
                                old(self).environments@[at as int].exposed@,
                            ).remove(which as int));
                        }
                        Ok(())
                    },
                }
            },
        }
    }

    /// Makes one edit of the environment named `environment`.
    pub fn apply(&mut self, environment: &str, edit: &Edit) -> (r: Result<(), EditError>)
        ensures
            match edited(old(self)@, environment@, edit@) {
                Ok(manifest) => r is Ok && final(self)@ == manifest,
                Err(e) => r == Err::<(), EditError>(e) && final(self)@ == old(self)@,
            },
    {
        match edit {
            Edit::AddExposed(mapping) => self.add_exposed_mapping(
                environment,
                Mapping {
                    exposed_name: mapping.exposed_name.clone(),
                    executable_name: mapping.executable_name.clone(),
                },
            ),
            Edit::RemoveExposed(name) => self.remove_exposed_name(environment, name.as_str()),
        }
    }
}

/// Where the mapping exposed as `name` stands: the first of that name.
pub fn find_exposed(exposed: &Vec<Mapping>, name: &str) -> (r: Option<usize>)
    ensures
        r is Some <==> exposed_position(mapping_models(exposed@), name@) < exposed@.len(),
        r matches Some(at) ==> at == exposed_position(mapping_models(exposed@), name@),
{
    let wanted = String::from_str(name);
    let ghost models = mapping_models(exposed@);
    let mut i: usize = 0;
    proof {
        lemma_exposed_position(models, name@);
    }
    while i < exposed.len()
        invariant
            0 <= i <= exposed.len(),
            wanted@ == name@,
            models == mapping_models(exposed@),
            i <= exposed_position(models, name@) <= models.len(),
            exposed_position(models, name@) < models.len() ==> models[exposed_position(
                models,
                name@,
            )].exposed_name == name@,
            forall|k: int|
                0 <= k < exposed_position(models, name@) ==> (#[trigger] models[k]).exposed_name
                    != name@,
        decreases exposed.len() - i,
    {
        if exposed[i].exposed_name == wanted {
            assert(models[i as int].exposed_name == name@);
            return Some(i);
        }
        assert(models[i as int].exposed_name != name@);
        i += 1;
    }
    None
}

} // verus!
