use buildsys::detect::BuildProgram;
use buildsys::numeral::usize_to_string;

#[test]
fn cargo_invocation_is_fixed() {
    let inv = BuildProgram::Cargo.build_command(None, None);
    assert_eq!(inv.program, "cargo");
    assert_eq!(inv.args, vec!["build"]);
    let inv = BuildProgram::Cargo.build_command(Some(4), Some(&"/proj".to_string()));
    assert_eq!(inv.program, "cargo");
    assert_eq!(inv.args, vec!["build"]);
}

#[test]
fn make_with_threads_and_directory() {
    let inv = BuildProgram::build_make_command(Some(4), Some(&"/proj".to_string()));
    assert_eq!(inv.program, "make");
    assert_eq!(inv.args, vec!["-j", "4", "-C", "/proj"]);
}

#[test]
fn make_without_options() {
    let inv = BuildProgram::build_make_command(None, None);
    assert_eq!(inv.program, "make");
    assert!(inv.args.is_empty());
}

#[test]
fn make_with_threads_only() {
    let inv = BuildProgram::build_make_command(Some(16), None);
    assert_eq!(inv.args, vec!["-j", "16"]);
}

#[test]
fn make_with_directory_only() {
    let inv = BuildProgram::build_make_command(None, Some(&"sub/dir".to_string()));
    assert_eq!(inv.args, vec!["-C", "sub/dir"]);
}

#[test]
fn ninja_mirrors_make_flags() {
    let inv = BuildProgram::build_ninja_command(Some(8), Some(&"/work".to_string()));
    assert_eq!(inv.program, "ninja");
    assert_eq!(inv.args, vec!["-j", "8", "-C", "/work"]);
}

#[test]
fn cmake_defaults_directory_to_dot() {
    let inv = BuildProgram::build_cmake_command(None, None);
    assert_eq!(inv.program, "cmake");
    assert_eq!(inv.args, vec!["-C", "."]);
}

#[test]
fn cmake_directory_comes_before_threads() {
    let inv = BuildProgram::build_cmake_command(Some(2), Some(&"/proj".to_string()));
    assert_eq!(inv.program, "cmake");
    assert_eq!(inv.args, vec!["-C", "/proj", "-j", "2"]);
}

#[test]
fn build_command_dispatches_per_tool() {
    let dir = "/p".to_string();
    let make = BuildProgram::Make.build_command(Some(3), Some(&dir));
    assert_eq!(make.program, "make");
    assert_eq!(make.args, vec!["-j", "3", "-C", "/p"]);
    let ninja = BuildProgram::Ninja.build_command(Some(3), Some(&dir));
    assert_eq!(ninja.program, "ninja");
    assert_eq!(ninja.args, vec!["-j", "3", "-C", "/p"]);
    let cmake = BuildProgram::CMake.build_command(Some(3), Some(&dir));
    assert_eq!(cmake.program, "cmake");
    assert_eq!(cmake.args, vec!["-C", "/p", "-j", "3"]);
}

#[test]
fn construction_is_pure() {
    let dir = "/proj".to_string();
    for program in [BuildProgram::Make, BuildProgram::Ninja, BuildProgram::Cargo,
        BuildProgram::CMake]
    {
        let a = program.build_command(Some(5), Some(&dir));
        let b = program.build_command(Some(5), Some(&dir));
        assert_eq!(a.program, b.program);
        assert_eq!(a.args, b.args);
    }
}

#[test]
fn decimal_rendering_is_exact() {
    assert_eq!(usize_to_string(0), "0");
    assert_eq!(usize_to_string(7), "7");
    assert_eq!(usize_to_string(10), "10");
    assert_eq!(usize_to_string(42), "42");
    assert_eq!(usize_to_string(100), "100");
    assert_eq!(usize_to_string(12345), "12345");
    assert_eq!(usize_to_string(usize::MAX), usize::MAX.to_string());
}
