use pixi_conda::executables::{
    file_stem, find_and_map_executable_scripts, find_executables, has_suffix, in_binary_folder,
    is_executable, known_extensions, map_executables_to_global_bin_scripts, name_script,
    strip_extension, BinScriptMapping, PackageFile,
};
use pixi_conda::scripts::{
    add_shebang, append_command, executable_script, get_catch_all_arg, ShellKind,
};
use rattler_shell::shell::{Bash, CmdExe, Shell};

fn path(text: &str) -> Vec<String> {
    text.split('/').filter(|c| !c.is_empty()).map(|c| c.to_string()).collect()
}

fn file(text: &str, executable: bool) -> PackageFile {
    PackageFile { path: path(text), executable }
}

#[test]
fn only_bin_holds_executables_on_unix() {
    assert!(in_binary_folder(&path("bin/python"), false));
    assert!(!in_binary_folder(&path("python"), false));
    assert!(!in_binary_folder(&path("lib/python"), false));
    assert!(!in_binary_folder(&path("bin/sub/python"), false));
    assert!(!in_binary_folder(&path("Scripts/pip.exe"), false));
    assert!(!in_binary_folder(&path("bin"), false));
    assert!(!in_binary_folder(&vec![], false));
}

#[test]
fn windows_knows_six_folders() {
    for p in [
        "python.exe",
        "Library/mingw-w64/bin/gcc.exe",
        "Library/usr/bin/ls.exe",
        "Library/bin/zlib.dll",
        "Scripts/pip.exe",
        "bin/tool.exe",
    ] {
        assert!(in_binary_folder(&path(p), true), "{}", p);
    }
    for p in [
        "Library/python.exe",
        "Library/lib/x.exe",
        "Library/mingw-w64/x.exe",
        "Library/usr/lib/x.exe",
        "library/bin/x.exe",
        "Lib/site-packages/x.py",
        "Library/mingw-w64/bin/sub/x.exe",
    ] {
        assert!(!in_binary_folder(&path(p), true), "{}", p);
    }
    assert!(!in_binary_folder(&vec![], true));
}

#[test]
fn an_executable_stands_in_a_binary_folder_and_may_be_executed() {
    assert!(is_executable(&path("bin/python"), false, true));
    assert!(!is_executable(&path("bin/python"), false, false));
    assert!(!is_executable(&path("share/python"), false, true));
}

#[test]
fn executables_are_found_in_order() {
    let files = vec![
        file("bin/a", true),
        file("lib/b", true),
        file("bin/c", false),
        file("bin/d", true),
    ];
    assert_eq!(find_executables(&files, false), vec![0, 3]);
    assert_eq!(find_executables(&vec![], false), Vec::<usize>::new());
}

#[test]
fn suffixes_and_stems() {
    assert!(has_suffix("script.py", ".py"));
    assert!(has_suffix("script.py", ""));
    assert!(has_suffix(".py", ".py"));
    assert!(!has_suffix("py", ".py"));
    assert!(!has_suffix("script.pyc", ".py"));
    assert_eq!(file_stem("tool.exe"), "tool");
    assert_eq!(file_stem("tool"), "tool");
    assert_eq!(file_stem(".hidden"), ".hidden");
    assert_eq!(file_stem("a.b.c"), "a.b");
    assert_eq!(file_stem("a."), "a");
    assert_eq!(file_stem(""), "");
}

#[test]
fn the_first_known_extension_that_fits_is_taken_off() {
    let extensions = vec![".sh".to_string(), "sh".to_string(), ".bash".to_string(), ".h".to_string()];
    assert_eq!(strip_extension("run.sh", &extensions), "run");
    assert_eq!(strip_extension("run.bash", &extensions), "run.ba");
    assert_eq!(strip_extension("run.h", &extensions), "run");
    assert_eq!(strip_extension("run.txt", &extensions), "run.txt");
    assert_eq!(strip_extension(".sh", &extensions), "");
    assert_eq!(strip_extension("run.sh", &vec![]), "run.sh");
}

#[test]
fn script_names_are_lower_case_without_known_extension() {
    let unix = known_extensions(false);
    assert_eq!(name_script("Python.SH", &unix, false), "python");
    assert_eq!(name_script("Jupyter-Lab", &unix, false), "jupyter-lab");
    assert_eq!(name_script("tool.py", &unix, false), "tool");
    assert_eq!(name_script("tool.exe", &unix, false), "tool.exe");
    let windows = known_extensions(true);
    assert_eq!(name_script("Tool.EXE", &windows, true), "tool.bat");
    assert_eq!(name_script("python3.12.exe", &windows, true), "python3.bat");
    assert_eq!(name_script("pip", &windows, true), "pip.bat");
}

#[test]
fn the_default_extensions_are_the_known_ones() {
    assert_eq!(
        known_extensions(false),
        vec![
            ".sh", ".bash", ".zsh", ".csh", ".tcsh", ".ksh", ".fish", ".py", ".pl", ".rb", ".lua",
            ".php", ".tcl", ".awk", ".sed"
        ]
    );
    assert_eq!(
        known_extensions(true),
        vec![
            ".com", ".exe", ".bat", ".cmd", ".vbs", ".vbe", ".js", ".jse", ".wsf", ".wsh", ".msc",
            ".cpl"
        ]
    );
}

#[test]
fn executables_are_mapped_to_scripts_in_order() {
    let executables = vec![path("bin/Python3.12"), path("bin/run.sh"), vec![], path("bin/..")];
    let mappings = map_executables_to_global_bin_scripts(
        &executables,
        &path("home/.pixi/bin"),
        &known_extensions(false),
        false,
    );
    assert_eq!(
        mappings,
        vec![
            BinScriptMapping {
                original_executable: path("bin/Python3.12"),
                global_binary_path: path("home/.pixi/bin/python3.12")
            },
            BinScriptMapping {
                original_executable: path("bin/run.sh"),
                global_binary_path: path("home/.pixi/bin/run")
            },
        ]
    );
    let mappings =
        map_executables_to_global_bin_scripts(&executables, &vec![], &known_extensions(true), true);
    assert_eq!(mappings[0].global_binary_path, path("python3.bat"));
}

#[test]
fn finding_and_mapping_go_together() {
    let files = vec![file("bin/a.py", true), file("lib/b", true), file("bin/C", true), file("bin/d", false)];
    let mappings =
        find_and_map_executable_scripts(&files, &path("opt/bin"), &known_extensions(false), false);
    let scripts: Vec<Vec<String>> = mappings.iter().map(|m| m.global_binary_path.clone()).collect();
    assert_eq!(scripts, vec![path("opt/bin/a"), path("opt/bin/c")]);
    assert_eq!(mappings[1].original_executable, path("bin/C"));
}

#[test]
fn each_shell_names_all_arguments_its_own_way() {
    assert_eq!(get_catch_all_arg(ShellKind::CmdExe), "%*");
    assert_eq!(get_catch_all_arg(ShellKind::PowerShell), "@args");
    assert_eq!(get_catch_all_arg(ShellKind::Bash), "\"$@\"");
}

#[test]
fn a_script_activates_then_calls_the_executable() {
    assert_eq!(
        executable_script("export PATH=/env/bin\n", "/env/bin/python", ShellKind::Bash),
        "export PATH=/env/bin\n\"/env/bin/python\" \"$@\"\n"
    );
    assert_eq!(
        executable_script("", "/env/bin/python", ShellKind::PowerShell),
        "\"/env/bin/python\" @args\n"
    );
}

#[test]
fn a_cmd_script_is_wrapped() {
    assert_eq!(
        executable_script("@SET PATH=C:\\env\n", "C:\\env\\python.exe", ShellKind::CmdExe),
        "@echo off\nsetlocal\n@SET PATH=C:\\env\n@\"C:\\env\\python.exe\" %*\n\nendlocal"
    );
}

#[test]
fn the_interpreter_line_is_added_on_unix_only() {
    assert_eq!(add_shebang("echo hi\n".to_string(), true), "#!/bin/sh\necho hi\n");
    assert_eq!(add_shebang("echo hi\n".to_string(), false), "echo hi\n");
}

#[test]
fn the_command_line_is_the_one_that_the_shells_write() {
    for (command, arguments) in [("\"/env/bin/python\"", "\"$@\""), ("tool", "%*"), ("", "")] {
        let mut expected = "set -e\n".to_string();
        Bash::default().run_command(&mut expected, [command, arguments]).unwrap();
        let mut script = "set -e\n".to_string();
        append_command(false, &mut script, command, arguments);
        assert_eq!(script, expected);

        let mut expected = String::new();
        CmdExe.run_command(&mut expected, [command, arguments]).unwrap();
        let mut script = String::new();
        append_command(true, &mut script, command, arguments);
        assert_eq!(script, expected);
    }
}
