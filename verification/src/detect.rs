//! Recognition of build-system marker files: the mapping from a filename to
//! the build tool it signals, and the scan of a directory listing for the
//! first recognized marker.

use vstd::prelude::*;

verus! {

/// The build tools this dispatcher recognizes.
#[derive(Clone, Copy, Debug, PartialEq, Eq, Structural)]
pub enum BuildProgram {
    Make,
    Ninja,
    Cargo,
    CMake,
}

/// The marker-file mapping: which build tool a filename signals, if any.
/// The comparison is exact and case-sensitive.
pub open spec fn marker_spec(s: Seq<char>) -> Option<BuildProgram> {
    if s == "makefile"@ || s == "Makefile"@ || s == "GNUmakefile"@ {
        Some(BuildProgram::Make)
    } else if s == "build.ninja"@ {
        Some(BuildProgram::Ninja)
    } else if s == "Cargo.toml"@ {
        Some(BuildProgram::Cargo)
    } else if s == "CMakeLists.txt"@ {
        Some(BuildProgram::CMake)
    } else {
        None
    }
}

/// String equality by characters, through `String`'s specified `==`.
fn str_eq(a: &str, b: &str) -> (r: bool)
    ensures
        r == (a@ == b@),
{
    let oa = String::from_str(a);
    let ob = String::from_str(b);
    oa == ob
}

impl BuildProgram {
    /// The build tool whose marker file the given filename is, if any.
    pub fn from_filename(s: &str) -> (r: Option<BuildProgram>)
        ensures
            r == marker_spec(s@),
    {
        if str_eq(s, "makefile") || str_eq(s, "Makefile") || str_eq(s, "GNUmakefile") {
            Some(BuildProgram::Make)
        } else if str_eq(s, "build.ninja") {
            Some(BuildProgram::Ninja)
        } else if str_eq(s, "Cargo.toml") {
            Some(BuildProgram::Cargo)
        } else if str_eq(s, "CMakeLists.txt") {
            Some(BuildProgram::CMake)
        } else {
            None
        }
    }
}

/// The first recognized marker in a directory listing, scanned in listing
/// order; `None` when the listing holds no marker.
pub open spec fn first_marker(names: Seq<Seq<char>>) -> Option<BuildProgram>
    decreases names.len(),
{
    if names.len() == 0 {
        None
    } else if marker_spec(names[0]) is Some {
        marker_spec(names[0])
    } else {
        first_marker(names.drop_first())
    }
}

/// A scan finds a marker exactly when the listing holds one.
pub proof fn lemma_first_marker_some_iff(names: Seq<Seq<char>>)
    ensures
        first_marker(names) is Some <==> exists|k: int|
            0 <= k < names.len() && marker_spec(names[k]) is Some,
    decreases names.len(),
{
    if names.len() != 0 {
        lemma_first_marker_some_iff(names.drop_first());
        if marker_spec(names[0]) is Some {
            assert(marker_spec(names[0]) is Some);
        } else {
            if first_marker(names) is Some {
                let k = choose|k: int|
                    0 <= k < names.drop_first().len() && marker_spec(
                        names.drop_first()[k],
                    ) is Some;
                assert(names.drop_first()[k] == names[k + 1]);
                assert(marker_spec(names[k + 1]) is Some);
            }
            if exists|k: int| 0 <= k < names.len() && marker_spec(names[k]) is Some {
                let k = choose|k: int| 0 <= k < names.len() && marker_spec(names[k]) is Some;
                assert(k != 0);
                assert(names.drop_first()[k - 1] == names[k]);
                assert(marker_spec(names.drop_first()[k - 1]) is Some);
            }
        }
    }
}

/// The first marker in listing order wins: if position `i` holds a marker and
/// no earlier position does, the scan returns that marker's build tool.
pub proof fn lemma_first_marker_at(names: Seq<Seq<char>>, i: int)
    requires
        0 <= i < names.len(),
        marker_spec(names[i]) is Some,
        forall|j: int| 0 <= j < i ==> marker_spec(names[j]) is None,
    ensures
        first_marker(names) == marker_spec(names[i]),
    decreases i,
{
    if i != 0 {
        assert forall|j: int| 0 <= j < i - 1 implies marker_spec(
            names.drop_first()[j],
        ) is None by {
            assert(names.drop_first()[j] == names[j + 1]);
        }
        assert(names.drop_first()[i - 1] == names[i]);
        lemma_first_marker_at(names.drop_first(), i - 1);
    }
}

/// A single recognized marker file, alone in a listing, is detected as the
/// build tool it signals.
pub proof fn lemma_detect_single(name: Seq<char>)
    ensures
        first_marker(seq![name]) == marker_spec(name),
{
    reveal_with_fuel(first_marker, 2);
    assert(seq![name][0] == name);
    if marker_spec(name) is None {
        assert(seq![name].drop_first() =~= Seq::<Seq<char>>::empty());
    }
}

/// A listing without any recognized marker yields no identity.
pub proof fn lemma_detect_none(names: Seq<Seq<char>>)
    requires
        forall|k: int| 0 <= k < names.len() ==> marker_spec(names[k]) is None,
    ensures
        first_marker(names) is None,
    decreases names.len(),
{
    if names.len() != 0 {
        assert forall|k: int| 0 <= k < names.drop_first().len() implies marker_spec(
            names.drop_first()[k],
        ) is None by {
            assert(names.drop_first()[k] == names[k + 1]);
        }
        lemma_detect_none(names.drop_first());
    }
}

/// Detection is deterministic: two scans of one unchanged listing agree, and
/// return exactly one identity, even when the listing holds several markers.
pub proof fn lemma_detect_deterministic(
    names: Seq<Seq<char>>,
    r1: Option<BuildProgram>,
    r2: Option<BuildProgram>,
)
    requires
        r1 == first_marker(names),
        r2 == first_marker(names),
    ensures
        r1 == r2,
{
}

/// The first recognized marker in the listing, in listing order, or `None`
/// when the listing holds none.
pub fn get_build_system(names: &Vec<String>) -> (r: Option<BuildProgram>)
    ensures
        r == first_marker(names.deep_view()),
        r is Some <==> exists|k: int|
            0 <= k < names.deep_view().len() && marker_spec(names.deep_view()[k]) is Some,
{
    let ghost dv = names.deep_view();
    let mut i: usize = 0;
    while i < names.len()
        invariant
            i <= names.len(),
            dv == names.deep_view(),
            dv.len() == names@.len(),
            forall|j: int| 0 <= j < i ==> marker_spec(dv[j]) is None,
        decreases names.len() - i,
    {
        proof {
            assert(dv[i as int] == names@[i as int]@);
        }
        if let Some(p) = BuildProgram::from_filename(names[i].as_str()) {
            proof {
                lemma_first_marker_at(dv, i as int);
                lemma_first_marker_some_iff(dv);
            }
            return Some(p);
        }
        i += 1;
    }
    proof {
        lemma_detect_none(dv);
        lemma_first_marker_some_iff(dv);
    }
    None
}

} // verus!
