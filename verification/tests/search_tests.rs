use buildsys::detect::BuildProgram;
use buildsys::search::SearchTree;
use buildsys::search::find_build_dir;

fn names(list: &[&str]) -> Vec<String> {
    list.iter().map(|s| s.to_string()).collect()
}

fn tree(
    cwd: &[&str],
    listings: &[&[&str]],
    build_listing: Option<&[&str]>,
) -> SearchTree {
    assert_eq!(listings.len(), cwd.len() + 1);
    SearchTree {
        cwd: names(cwd),
        listings: listings.iter().map(|l| names(l)).collect(),
        build_listing: build_listing.map(names),
    }
}

#[test]
fn marker_in_working_directory_wins() {
    let t = tree(
        &["home", "proj"],
        &[&["home"], &["proj"], &["Cargo.toml", "src"]],
        None,
    );
    let found = find_build_dir(&t).unwrap();
    assert_eq!(found.0, BuildProgram::Cargo);
    assert_eq!(found.1, names(&["home", "proj"]));
}

#[test]
fn working_directory_preferred_over_build_subdirectory() {
    let t = tree(
        &["proj"],
        &[&[], &["Makefile"]],
        Some(&["build.ninja"]),
    );
    let found = find_build_dir(&t).unwrap();
    assert_eq!(found.0, BuildProgram::Make);
    assert_eq!(found.1, names(&["proj"]));
}

#[test]
fn build_subdirectory_preferred_over_ancestors() {
    let t = tree(
        &["proj", "src"],
        &[&["Makefile"], &["Makefile", "src"], &["main.c"]],
        Some(&["build.ninja"]),
    );
    let found = find_build_dir(&t).unwrap();
    assert_eq!(found.0, BuildProgram::Ninja);
    assert_eq!(found.1, names(&["proj", "src", "build"]));
}

#[test]
fn upward_search_finds_nearest_marked_ancestor() {
    let t = tree(
        &["a", "b", "c"],
        &[&[], &["CMakeLists.txt", "b"], &["c"], &["notes.txt"]],
        None,
    );
    let found = find_build_dir(&t).unwrap();
    assert_eq!(found.0, BuildProgram::CMake);
    assert_eq!(found.1, names(&["a"]));
}

#[test]
fn upward_search_reaches_filesystem_root() {
    let t = tree(
        &["a", "b"],
        &[&["GNUmakefile", "a"], &["b"], &["deep.txt"]],
        None,
    );
    let found = find_build_dir(&t).unwrap();
    assert_eq!(found.0, BuildProgram::Make);
    assert_eq!(found.1, Vec::<String>::new());
}

#[test]
fn nearest_of_several_marked_ancestors_wins() {
    let t = tree(
        &["a", "b", "c"],
        &[&["Makefile"], &["Cargo.toml"], &["build.ninja"], &[]],
        None,
    );
    let found = find_build_dir(&t).unwrap();
    assert_eq!(found.0, BuildProgram::Ninja);
    assert_eq!(found.1, names(&["a", "b"]));
}

#[test]
fn no_marker_anywhere_returns_none() {
    let t = tree(
        &["a", "b"],
        &[&["etc"], &["b", "x.txt"], &["README.md"]],
        Some(&["out.o"]),
    );
    assert!(find_build_dir(&t).is_none());
}

#[test]
fn root_as_working_directory() {
    let marked = tree(&[], &[&["Cargo.toml"]], None);
    let found = find_build_dir(&marked).unwrap();
    assert_eq!(found.0, BuildProgram::Cargo);
    assert_eq!(found.1, Vec::<String>::new());

    let bare = tree(&[], &[&["bin", "usr"]], None);
    assert!(find_build_dir(&bare).is_none());
}

#[test]
fn detected_cargo_project_yields_cargo_build() {
    let t = tree(&["proj"], &[&[], &["Cargo.toml"]], None);
    let (program, dir) = find_build_dir(&t).unwrap();
    assert_eq!(dir, names(&["proj"]));
    let inv = program.build_command(None, None);
    assert_eq!(inv.program, "cargo");
    assert_eq!(inv.args, vec!["build"]);
}

#[test]
fn missing_build_subdirectory_walks_upward() {
    let t = tree(
        &["proj", "src"],
        &[&[], &["Cargo.toml"], &["lib.rs"]],
        None,
    );
    let found = find_build_dir(&t).unwrap();
    assert_eq!(found.0, BuildProgram::Cargo);
    assert_eq!(found.1, names(&["proj"]));
}
