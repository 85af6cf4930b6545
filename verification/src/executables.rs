//! Which of a package's files are executables worth exposing, and the name
//! under which each gets a script in the global binary directory. A path is
//! held as the sequence of its components, relative to the environment's
//! root.

use crate::lock::clone_texts;
use crate::ordering::texts;
use vstd::prelude::*;
use vstd::string::*;

verus! {

/// The lowercase equivalent of `text`, as `str::to_lowercase` gives it.
pub uninterp spec fn lowercase_of(text: Seq<char>) -> Seq<char>;

/// `str::to_lowercase`: the lowercase equivalent of the text, which depends
/// on the text alone.
#[verifier::external_body]
fn lowercased(text: &str) -> (lower: String)
    ensures
        lower@ == lowercase_of(text@),
{
    text.to_lowercase()
}

/// A file that a package installed.
#[derive(Debug, Clone, PartialEq, Eq)]
pub struct PackageFile {
    /// The components of its path below the environment's root.
    pub path: Vec<String>,
    /// Whether the file on disk may be executed.
    pub executable: bool,
}

/// Whether `parent` is one of the directories that hold executables: `bin`
/// everywhere but on Windows, where it is the root itself,
/// `Library/mingw-w64/bin`, `Library/usr/bin`, `Library/bin`, `Scripts` or
/// `bin`.
pub open spec fn is_binary_folder(parent: Seq<Seq<char>>, windows: bool) -> bool {
    if windows {
        ||| parent == Seq::<Seq<char>>::empty()
        ||| parent == seq!["Library"@, "mingw-w64"@, "bin"@]
        ||| parent == seq!["Library"@, "usr"@, "bin"@]
        ||| parent == seq!["Library"@, "bin"@]
        ||| parent == seq!["Scripts"@]
        ||| parent == seq!["bin"@]
    } else {
        parent == seq!["bin"@]
    }
}

/// Whether the file at `path` stands directly in a directory that holds
/// executables. The empty path has no parent and stands nowhere.
pub open spec fn is_in_binary_folder(path: Seq<Seq<char>>, windows: bool) -> bool {
    path.len() > 0 && is_binary_folder(path.drop_last(), windows)
}

/// Tells whether the component at `position` of `path` is `wanted`.
fn component_is(path: &Vec<String>, position: usize, wanted: &str) -> (r: bool)
    requires
        position < path@.len(),
    ensures
        r == (path@[position as int]@ == wanted@),
{
    let wanted = String::from_str(wanted);
    path[position] == wanted
}

/// Tells whether the file at `path` stands directly in a directory that
/// holds executables.
pub fn in_binary_folder(path: &Vec<String>, windows: bool) -> (r: bool)
    ensures
        r == is_in_binary_folder(texts(path@), windows),
{
    let n = path.len();
    let ghost parent = texts(path@).drop_last();
    proof {
        reveal_strlit("Library");
        reveal_strlit("mingw-w64");
        reveal_strlit("usr");
        reveal_strlit("bin");
        reveal_strlit("Scripts");
    }
    if n == 0 {
        return false;
    }
    assert(parent.len() == n - 1);
    assert(forall|k: int| 0 <= k < n - 1 ==> parent[k] == path@[k]@);
    if n == 2 {
        if component_is(path, 0, "bin") {
            assert(parent =~= seq!["bin"@]);
            return true;
        }
        assert(parent[0] != "bin"@);
        assert(seq!["bin"@][0] == "bin"@);
    }
    if !windows {
        return false;
    }
    if n == 1 {
        assert(parent =~= Seq::<Seq<char>>::empty());
        return true;
    }
    if n == 2 {
        if component_is(path, 0, "Scripts") {
            assert(parent =~= seq!["Scripts"@]);
            return true;
        }
        assert(seq!["Scripts"@][0] == "Scripts"@);
        return false;
    }
    if n == 3 {
        if component_is(path, 0, "Library") && component_is(path, 1, "bin") {
            assert(parent =~= seq!["Library"@, "bin"@]);
            return true;
        }
        assert(seq!["Library"@, "bin"@][0] == "Library"@);
        assert(seq!["Library"@, "bin"@][1] == "bin"@);
        return false;
    }
    if n == 4 {
        if component_is(path, 0, "Library") && component_is(path, 2, "bin") {
            if component_is(path, 1, "mingw-w64") {
                assert(parent =~= seq!["Library"@, "mingw-w64"@, "bin"@]);
                return true;
            }
            if component_is(path, 1, "usr") {
                assert(parent =~= seq!["Library"@, "usr"@, "bin"@]);
                return true;
            }
        }
        assert(seq!["Library"@, "mingw-w64"@, "bin"@][0] == "Library"@);
        assert(seq!["Library"@, "mingw-w64"@, "bin"@][1] == "mingw-w64"@);
        assert(seq!["Library"@, "mingw-w64"@, "bin"@][2] == "bin"@);
        assert(seq!["Library"@, "usr"@, "bin"@][0] == "Library"@);
        assert(seq!["Library"@, "usr"@, "bin"@][1] == "usr"@);
        assert(seq!["Library"@, "usr"@, "bin"@][2] == "bin"@);
        return false;
    }
    false
}

/// Tells whether a file is an executable worth exposing: it stands directly
/// in a directory that holds executables, and the file on disk may be
/// executed.
pub fn is_executable(relative_path: &Vec<String>, windows: bool, executable_on_disk: bool) -> (r:
    bool)
    ensures
        r == (is_in_binary_folder(texts(relative_path@), windows) && executable_on_disk),
{
    in_binary_folder(relative_path, windows) && executable_on_disk
}

/// Whether the file is an executable worth exposing.
pub open spec fn is_exposable(file: PackageFile, windows: bool) -> bool {
    is_in_binary_folder(texts(file.path@), windows) && file.executable
}

/// The paths of the executables worth exposing among `files`, in their
/// order.
pub open spec fn exposable_paths(files: Seq<PackageFile>, windows: bool) -> Seq<Seq<Seq<char>>>
    decreases files.len(),
{
    if files.len() == 0 {
        Seq::empty()
    } else {
        let earlier = exposable_paths(files.drop_last(), windows);
        if is_exposable(files.last(), windows) {
            earlier.push(texts(files.last().path@))
        } else {
            earlier
        }
    }
}

/// Finds the executables among a package's files: their positions, in
/// ascending order.
pub fn find_executables(files: &Vec<PackageFile>, windows: bool) -> (r: Vec<usize>)
    ensures
        forall|k: int| 0 <= k < r@.len() ==> #[trigger] r@[k] < files@.len() && is_exposable(
            files@[r@[k] as int],
            windows,
        ),
        forall|i: int, j: int| 0 <= i < j < r@.len() ==> r@[i] < r@[j],
        forall|p: int|
            0 <= p < files@.len() && is_exposable(#[trigger] files@[p], windows) ==> r@.contains(
                p as usize,
            ),
{
    let mut r: Vec<usize> = Vec::new();
    let mut p: usize = 0;
    while p < files.len()
        invariant
            0 <= p <= files.len(),
            forall|k: int| 0 <= k < r@.len() ==> #[trigger] r@[k] < p && is_exposable(
                files@[r@[k] as int],
                windows,
            ),
            forall|i: int, j: int| 0 <= i < j < r@.len() ==> r@[i] < r@[j],
            forall|q: int|
                0 <= q < p && is_exposable(#[trigger] files@[q], windows) ==> r@.contains(
                    q as usize,
                ),
        decreases files.len() - p,
    {
        if is_executable(&files[p].path, windows, files[p].executable) {
            let ghost before = r@;
            r.push(p);
            assert forall|q: int|
                0 <= q < p + 1 && is_exposable(#[trigger] files@[q], windows) implies r@.contains(
                q as usize,
            ) by {
                if q < p {
                    let k = choose|k: int| 0 <= k < before.len() && before[k] == q as usize;
                    assert(r@[k] == q as usize);
                } else {
                    assert(r@[r@.len() - 1] == p);
                }
            }
        }
        p += 1;
    }
    r
}

/// The extensions that are taken off an executable's name: those of
/// scripts on Unix, and on Windows those that the system runs when no
/// `PATHEXT` says otherwise, in lower case.
pub open spec fn known_extension_texts(windows: bool) -> Seq<Seq<char>> {
    if windows {
        seq![
            ".com"@,
            ".exe"@,
            ".bat"@,
            ".cmd"@,
            ".vbs"@,
            ".vbe"@,
            ".js"@,
            ".jse"@,
            ".wsf"@,
            ".wsh"@,
            ".msc"@,
            ".cpl"@,
        ]
    } else {
        seq![
            ".sh"@,
            ".bash"@,
            ".zsh"@,
            ".csh"@,
            ".tcsh"@,
            ".ksh"@,
            ".fish"@,
            ".py"@,
            ".pl"@,
            ".rb"@,
            ".lua"@,
            ".php"@,
            ".tcl"@,
            ".awk"@,
            ".sed"@,
        ]
    }
}

/// The extensions that are taken off an executable's name where nothing
/// else is configured.
pub fn known_extensions(windows: bool) -> (r: Vec<String>)
    ensures
        texts(r@) == known_extension_texts(windows),
{
    let mut r: Vec<String> = Vec::new();
    if windows {
        r.push(String::from_str(".com"));
        r.push(String::from_str(".exe"));
        r.push(String::from_str(".bat"));
        r.push(String::from_str(".cmd"));
        r.push(String::from_str(".vbs"));
        r.push(String::from_str(".vbe"));
        r.push(String::from_str(".js"));
        r.push(String::from_str(".jse"));
        r.push(String::from_str(".wsf"));
        r.push(String::from_str(".wsh"));
        r.push(String::from_str(".msc"));
        r.push(String::from_str(".cpl"));
    } else {
        r.push(String::from_str(".sh"));
        r.push(String::from_str(".bash"));
        r.push(String::from_str(".zsh"));
        r.push(String::from_str(".csh"));
        r.push(String::from_str(".tcsh"));
        r.push(String::from_str(".ksh"));
        r.push(String::from_str(".fish"));
        r.push(String::from_str(".py"));
        r.push(String::from_str(".pl"));
        r.push(String::from_str(".rb"));
        r.push(String::from_str(".lua"));
        r.push(String::from_str(".php"));
        r.push(String::from_str(".tcl"));
        r.push(String::from_str(".awk"));
        r.push(String::from_str(".sed"));
    }
    assert(texts(r@) =~= known_extension_texts(windows));
    r
}

/// Whether `text` ends with `suffix`.
pub open spec fn ends_with(text: Seq<char>, suffix: Seq<char>) -> bool {
    suffix.len() <= text.len() && text.subrange(text.len() - suffix.len(), text.len() as int)
        == suffix
}

/// `name` without the first of `extensions` that it ends with; `name`
/// itself where it ends with none.
pub open spec fn without_extension(name: Seq<char>, extensions: Seq<Seq<char>>) -> Seq<char>
    decreases extensions.len(),
{
    if extensions.len() == 0 {
        name
    } else if ends_with(name, extensions[0]) {
        name.subrange(0, name.len() - extensions[0].len())
    } else {
        without_extension(name, extensions.drop_first())
    }
}

/// The position of the last `.` of `name`, or -1.
pub open spec fn last_dot(name: Seq<char>) -> int
    decreases name.len(),
{
    if name.len() == 0 {
        -1
    } else if name.last() == '.' {
        name.len() - 1
    } else {
        last_dot(name.drop_last())
    }
}

/// The stem of a file name: what stands before its last `.`, or the whole
/// name where it has no `.` after its first character.
pub open spec fn stem(name: Seq<char>) -> Seq<char> {
    if last_dot(name) > 0 {
        name.subrange(0, last_dot(name))
    } else {
        name
    }
}

/// The name of the script for an executable whose file is called
/// `file_name`: the lowercase name without a known extension, and on
/// Windows with the extension `bat` in place of whatever extension is left.
pub open spec fn script_name(file_name: Seq<char>, extensions: Seq<Seq<char>>, windows: bool) -> Seq<
    char,
> {
    let base = without_extension(lowercase_of(file_name), extensions);
    if windows {
        stem(base) + ".bat"@
    } else {
        base
    }
}

/// Tells whether `text` ends with `suffix`.
pub fn has_suffix(text: &str, suffix: &str) -> (r: bool)
    ensures
        r == ends_with(text@, suffix@),
{
    let n = text.unicode_len();
    let m = suffix.unicode_len();
    if m > n {
        return false;
    }
    let start = n - m;
    let mut i: usize = 0;
    while i < m
        invariant
            0 <= i <= m,
            m == suffix@.len(),
            n == text@.len(),
            start == n - m,
            forall|k: int| 0 <= k < i ==> text@[start + k] == suffix@[k],
        decreases m - i,
    {
        if text.get_char(start + i) != suffix.get_char(i) {
            assert(text@.subrange(n - m, n as int)[i as int] != suffix@[i as int]);
            return false;
        }
        i += 1;
    }
    assert(text@.subrange(n - m, n as int) =~= suffix@);
    true
}

/// Takes the first known extension that `name` ends with off its end.
pub fn strip_extension(name: &str, extensions: &Vec<String>) -> (r: String)
    ensures
        r@ == without_extension(name@, texts(extensions@)),
{
    let ghost all = texts(extensions@);
    let mut i: usize = 0;
    assert(all.skip(0) =~= all);
    while i < extensions.len()
        invariant
            0 <= i <= extensions.len(),
            all == texts(extensions@),
            without_extension(name@, all) == without_extension(name@, all.skip(i as int)),
        decreases extensions.len() - i,
    {
        let ghost rest = all.skip(i as int);
        assert(rest[0] == extensions@[i as int]@);
        assert(rest.drop_first() =~= all.skip(i + 1));
        if has_suffix(name, extensions[i].as_str()) {
            let n = name.unicode_len();
            let m = extensions[i].as_str().unicode_len();
            return String::from_str(name.substring_char(0, n - m));
        }
        i += 1;
    }
    assert(all.skip(extensions@.len() as int).len() == 0);
    String::from_str(name)
}

/// Takes the extension, if any, off a file name.
pub fn file_stem(name: &str) -> (r: String)
    ensures
        r@ == stem(name@),
{
    let n = name.unicode_len();
    let mut i: usize = n;
    assert(name@.subrange(0, n as int) =~= name@);
    while i > 0
        invariant
            0 <= i <= n,
            n == name@.len(),
            last_dot(name@) == last_dot(name@.subrange(0, i as int)),
        decreases i,
    {
        let ghost head = name@.subrange(0, i as int);
        assert(head.last() == name@[i - 1]);
        assert(head.drop_last() =~= name@.subrange(0, i - 1));
        if name.get_char(i - 1) == '.' {
            if i - 1 > 0 {
                return String::from_str(name.substring_char(0, i - 1));
            } else {
                return String::from_str(name);
            }
        }
        i -= 1;
    }
    String::from_str(name)
}

/// An executable of a package together with the name of the script that
/// exposes it in the global binary directory.
#[derive(Debug, Clone, PartialEq, Eq)]
pub struct BinScriptMapping {
    /// The components of the executable's path below the environment's root.
    pub original_executable: Vec<String>,
    /// The components of the path of its script, which stands directly in
    /// the global binary directory.
    pub global_binary_path: Vec<String>,
}

/// What a script mapping says.
pub struct ScriptModel {
    pub original_executable: Seq<Seq<char>>,
    pub global_binary_path: Seq<Seq<char>>,
}

impl View for BinScriptMapping {
    type V = ScriptModel;

    open spec fn view(&self) -> ScriptModel {
        ScriptModel {
            original_executable: texts(self.original_executable@),
            global_binary_path: texts(self.global_binary_path@),
        }
    }
}

/// Whether the path has a file name: it is not empty and does not end in
/// `..`.
pub open spec fn has_file_name(path: Seq<Seq<char>>) -> bool {
    path.len() > 0 && path.last() != ".."@
}

/// The script mappings of some executables, in their order. The script of
/// an executable stands directly in the global binary directory `bin_dir`,
/// under the script name of the executable's file. An executable whose path
/// has no file name gets none.
pub open spec fn script_mappings(
    executables: Seq<Seq<Seq<char>>>,
    bin_dir: Seq<Seq<char>>,
    extensions: Seq<Seq<char>>,
    windows: bool,
) -> Seq<ScriptModel>
    decreases executables.len(),
{
    if executables.len() == 0 {
        Seq::empty()
    } else {
        let earlier = script_mappings(executables.drop_last(), bin_dir, extensions, windows);
        let path = executables.last();
        if has_file_name(path) {
            earlier.push(
                ScriptModel {
                    original_executable: path,
                    global_binary_path: bin_dir.push(
                        script_name(path.last(), extensions, windows),
                    ),
                },
            )
        } else {
            earlier
        }
    }
}

/// Every script stands directly in the global binary directory, and belongs
/// to an executable that has a file name.
pub proof fn lemma_scripts_stand_in_bin_dir(
    executables: Seq<Seq<Seq<char>>>,
    bin_dir: Seq<Seq<char>>,
    extensions: Seq<Seq<char>>,
    windows: bool,
)
    ensures
        script_mappings(executables, bin_dir, extensions, windows).len() <= executables.len(),
        forall|k: int|
            0 <= k < script_mappings(executables, bin_dir, extensions, windows).len() ==> {
                let mapping = #[trigger] script_mappings(
                    executables,
                    bin_dir,
                    extensions,
                    windows,
                )[k];
                &&& mapping.global_binary_path.len() == bin_dir.len() + 1
                &&& mapping.global_binary_path.drop_last() == bin_dir
                &&& has_file_name(mapping.original_executable)
                &&& mapping.global_binary_path.last() == script_name(
                    mapping.original_executable.last(),
                    extensions,
                    windows,
                )
            },
    decreases executables.len(),
{
    if executables.len() > 0 {
        lemma_scripts_stand_in_bin_dir(executables.drop_last(), bin_dir, extensions, windows);
        let path = executables.last();
        let name = script_name(path.last(), extensions, windows);
        assert(bin_dir.push(name).drop_last() =~= bin_dir);
    }
}

/// The paths that path vectors hold.
pub open spec fn paths(executables: Seq<Vec<String>>) -> Seq<Seq<Seq<char>>> {
    executables.map_values(|p: Vec<String>| texts(p@))
}

/// What script mappings say.
pub open spec fn script_models(mappings: Seq<BinScriptMapping>) -> Seq<ScriptModel> {
    mappings.map_values(|m: BinScriptMapping| m@)
}

/// The name of the script for an executable whose file is called
/// `file_name`.
pub fn name_script(file_name: &str, extensions: &Vec<String>, windows: bool) -> (r: String)
    ensures
        r@ == script_name(file_name@, texts(extensions@), windows),
{
    let lower = lowercased(file_name);
    let base = strip_extension(lower.as_str(), extensions);
    if windows {
        file_stem(base.as_str()).concat(".bat")
    } else {
        base
    }
}

/// For each executable provided, maps it to the installation path of its
/// script in the global binary directory.
pub fn map_executables_to_global_bin_scripts(
    package_executables: &Vec<Vec<String>>,
    bin_dir: &Vec<String>,
    extensions: &Vec<String>,
    windows: bool,
) -> (r: Vec<BinScriptMapping>)
    ensures
        script_models(r@) == script_mappings(
            paths(package_executables@),
            texts(bin_dir@),
            texts(extensions@),
            windows,
        ),
{
    let mut r: Vec<BinScriptMapping> = Vec::new();
    let ghost all = paths(package_executables@);
    let mut i: usize = 0;
    assert(all.take(0) =~= Seq::<Seq<Seq<char>>>::empty());
    assert(script_models(r@) =~= Seq::<ScriptModel>::empty());
    while i < package_executables.len()
        invariant
            0 <= i <= package_executables.len(),
            all == paths(package_executables@),
            script_models(r@) == script_mappings(
                all.take(i as int),
                texts(bin_dir@),
                texts(extensions@),
                windows,
            ),
        decreases package_executables.len() - i,
    {
        let path = &package_executables[i];
        let ghost upto = all.take(i + 1);
        assert(upto.drop_last() =~= all.take(i as int));
        assert(upto.last() == texts(path@));
        proof {
            reveal_strlit("..");
        }
        if path.len() > 0 && !component_is(path, path.len() - 1, "..") {
            let name = name_script(path[path.len() - 1].as_str(), extensions, windows);
            let ghost before = script_models(r@);
            let mut script_path = clone_texts(bin_dir);
            script_path.push(name);
            assert(texts(script_path@) =~= texts(bin_dir@).push(name@));
            r.push(
                BinScriptMapping {
                    original_executable: clone_texts(path),
                    global_binary_path: script_path,
                },
            );
            assert(texts(path@).last() == path@[path@.len() - 1]@);
            assert(script_models(r@) =~= before.push(
                ScriptModel {
                    original_executable: texts(path@),
                    global_binary_path: texts(bin_dir@).push(
                        script_name(texts(path@).last(), texts(extensions@), windows),
                    ),
                },
            ));
        } else {
            assert(!has_file_name(texts(path@))) by {
                if path@.len() > 0 {
                    assert(texts(path@).last() == path@[path@.len() - 1]@);
                }
            }
        }
        i += 1;
    }
    assert(all.take(package_executables@.len() as int) =~= all);
    r
}

/// Finds the executables of a package and maps each to the installation
/// path of its script in the global binary directory.
pub fn find_and_map_executable_scripts(
    files: &Vec<PackageFile>,
    bin_dir: &Vec<String>,
    extensions: &Vec<String>,
    windows: bool,
) -> (r: Vec<BinScriptMapping>)
    ensures
        script_models(r@) == script_mappings(
            exposable_paths(files@, windows),
            texts(bin_dir@),
            texts(extensions@),
            windows,
        ),
{
    let mut found: Vec<Vec<String>> = Vec::new();
    let mut p: usize = 0;
    assert(paths(found@) =~= exposable_paths(files@.take(0), windows));
    while p < files.len()
        invariant
            0 <= p <= files.len(),
            paths(found@) == exposable_paths(files@.take(p as int), windows),
        decreases files.len() - p,
    {
        let ghost upto = files@.take(p + 1);
        assert(upto.drop_last() =~= files@.take(p as int));
        assert(upto.last() == files@[p as int]);
        if is_executable(&files[p].path, windows, files[p].executable) {
            let ghost before = paths(found@);
            found.push(clone_texts(&files[p].path));
            assert(paths(found@) =~= before.push(texts(files@[p as int].path@)));
        }
        p += 1;
    }
    assert(files@.take(files@.len() as int) =~= files@);
    map_executables_to_global_bin_scripts(&found, bin_dir, extensions, windows)
}

} // verus!
