//! The search for the directory that holds a build system's marker file: the
//! working directory first, then its `build` subdirectory, then each ancestor
//! in turn up to the filesystem root.
//!
//! The search works on a plain image of the directory listings along that
//! path, gathered by the caller; the library itself reads no filesystem.

use crate::detect::BuildProgram;
use crate::detect::first_marker;
use crate::detect::get_build_system;
use vstd::prelude::*;

verus! {

/// The slice of the filesystem the search reads, as plain values.
pub struct SearchTree {
    /// Path components of the working directory, in order from the filesystem
    /// root; empty when the working directory is the root itself.
    pub cwd: Vec<String>,
    /// `listings[k]` holds the entry names of the directory formed by the
    /// first `k` components of `cwd`; `listings[cwd.len()]` is the working
    /// directory's own listing.
    pub listings: Vec<Vec<String>>,
    /// Entry names of the working directory's `build` subdirectory, when that
    /// subdirectory exists.
    pub build_listing: Option<Vec<String>>,
}

/// The ghost image of a `SearchTree`: every name as a character sequence.
pub struct SearchTreeView {
    pub cwd: Seq<Seq<char>>,
    pub listings: Seq<Seq<Seq<char>>>,
    pub build_listing: Option<Seq<Seq<char>>>,
}

impl SearchTreeView {
    /// One listing per prefix of the working directory's path, the working
    /// directory's own included.
    pub open spec fn wf(self) -> bool {
        self.listings.len() == self.cwd.len() + 1
    }
}

impl View for SearchTree {
    type V = SearchTreeView;

    open spec fn view(&self) -> SearchTreeView {
        SearchTreeView {
            cwd: self.cwd.deep_view(),
            listings: self.listings.deep_view(),
            build_listing: self.build_listing.deep_view(),
        }
    }
}

impl SearchTree {
    /// One listing per prefix of the working directory's path.
    pub open spec fn wf(self) -> bool {
        self@.wf()
    }
}

/// The nearest ancestor at depth `k` or less whose listing holds a marker,
/// paired with that ancestor's path components.
pub open spec fn ancestor_result(t: SearchTreeView, k: nat) -> Option<
    (BuildProgram, Seq<Seq<char>>),
>
    decreases k,
{
    match first_marker(t.listings[k as int]) {
        Some(p) => Some((p, t.cwd.take(k as int))),
        None => if k == 0 {
            None
        } else {
            ancestor_result(t, (k - 1) as nat)
        },
    }
}

/// Where the search finds a build system: the working directory first, then
/// its `build` subdirectory, then each ancestor in turn; `None` when no
/// directory along that path holds a marker.
pub open spec fn search_spec(t: SearchTreeView) -> Option<(BuildProgram, Seq<Seq<char>>)> {
    let n = t.cwd.len();
    if first_marker(t.listings[n as int]) is Some {
        Some((first_marker(t.listings[n as int]).unwrap(), t.cwd))
    } else if t.build_listing is Some && first_marker(t.build_listing.unwrap()) is Some {
        Some((first_marker(t.build_listing.unwrap()).unwrap(), t.cwd.push("build"@)))
    } else if n == 0 {
        None
    } else {
        ancestor_result(t, (n - 1) as nat)
    }
}

/// The first `k` path components, as owned strings.
fn path_prefix(v: &Vec<String>, k: usize) -> (r: Vec<String>)
    requires
        k <= v.len(),
    ensures
        r.deep_view() == v.deep_view().take(k as int),
{
    let mut r: Vec<String> = Vec::new();
    let mut i: usize = 0;
    while i < k
        invariant
            i <= k,
            k <= v.len(),
            r@.len() == i,
            forall|j: int| 0 <= j < i ==> r@[j]@ == v@[j]@,
        decreases k - i,
    {
        r.push(v[i].clone());
        i += 1;
    }
    proof {
        assert forall|j: int| 0 <= j < k implies r.deep_view()[j] == v.deep_view().take(
            k as int,
        )[j] by {
            assert(r.deep_view()[j] == r@[j]@);
            assert(v.deep_view()[j] == v@[j]@);
        }
        assert(r.deep_view() =~~= v.deep_view().take(k as int));
    }
    r
}

/// The directory governing the working tree and the build system whose marker
/// it holds: the working directory itself when it has a marker, else its
/// `build` subdirectory, else the nearest ancestor with a marker; `None` when
/// there is no marker anywhere along that path.
pub fn find_build_dir(t: &SearchTree) -> (r: Option<(BuildProgram, Vec<String>)>)
    requires
        t.wf(),
    ensures
        (match r {
            Some(found) => search_spec(t@) == Some((found.0, found.1.deep_view())),
            None => search_spec(t@) is None,
        }),
{
    let n = t.cwd.len();
    proof {
        assert(t@.listings.len() == t.listings@.len());
        assert(t@.cwd.len() == t.cwd@.len());
    }
    if let Some(p) = get_build_system(&t.listings[n]) {
        let d = path_prefix(&t.cwd, n);
        proof {
            assert(t@.listings[n as int] == t.listings@[n as int].deep_view());
            assert(d.deep_view() =~~= t@.cwd);
        }
        return Some((p, d));
    }
    proof {
        assert(t@.listings[n as int] == t.listings@[n as int].deep_view());
    }
    match &t.build_listing {
        Some(bl) => {
            if let Some(p) = get_build_system(bl) {
                let mut d = path_prefix(&t.cwd, n);
                let ghost pre = d@;
                let ghost pre_dv = d.deep_view();
                d.push(String::from_str("build"));
                proof {
                    assert(t@.build_listing == Some(bl.deep_view()));
                    assert(t.cwd.deep_view().len() == t.cwd@.len());
                    assert(pre_dv.len() == pre.len());
                    assert(pre.len() == n);
                    assert forall|j: int| 0 <= j < d@.len() implies d.deep_view()[j]
                        == t@.cwd.push("build"@)[j] by {
                        assert(d.deep_view()[j] == d@[j]@);
                        if j < pre.len() {
                            assert(d@[j] == pre[j]);
                            assert(pre_dv[j] == pre[j]@);
                            assert(t.cwd.deep_view().take(n as int)[j] == t@.cwd[j]);
                        }
                    }
                    assert(d.deep_view() =~~= t@.cwd.push("build"@));
                }
                return Some((p, d));
            }
        },
        None => {},
    }
    proof {
        assert((match t@.build_listing {
            Some(bl) => first_marker(bl) is None,
            None => true,
        }));
    }
    let mut k = n;
    while k > 0
        invariant
            k <= n,
            n == t.cwd.len(),
            t.wf(),
            t@.listings.len() == t.listings@.len(),
            t@.cwd.len() == t.cwd@.len(),
            search_spec(t@) == (if k > 0 {
                ancestor_result(t@, (k - 1) as nat)
            } else {
                None::<(BuildProgram, Seq<Seq<char>>)>
            }),
        decreases k,
    {
        k = k - 1;
        let found = get_build_system(&t.listings[k]);
        proof {
            assert(t@.listings[k as int] == t.listings@[k as int].deep_view());
        }
        if let Some(p) = found {
            let d = path_prefix(&t.cwd, k);
            return Some((p, d));
        }
    }
    None
}

/// `build/` preference: when the working directory has no marker but its
/// `build` subdirectory has one, the search returns the `build` subdirectory,
/// not an ancestor.
pub proof fn lemma_build_subdir_preferred(t: SearchTreeView, p: BuildProgram)
    requires
        t.wf(),
        first_marker(t.listings[t.cwd.len() as int]) is None,
        t.build_listing is Some,
        first_marker(t.build_listing.unwrap()) == Some(p),
    ensures
        search_spec(t) == Some((p, t.cwd.push("build"@))),
{
}

proof fn lemma_ancestor_result_at(t: SearchTreeView, k: nat, a: nat)
    requires
        a <= k < t.listings.len(),
        forall|j: int| a < j <= k ==> first_marker(t.listings[j]) is None,
        first_marker(t.listings[a as int]) is Some,
    ensures
        ancestor_result(t, k) == Some(
            (first_marker(t.listings[a as int]).unwrap(), t.cwd.take(a as int)),
        ),
    decreases k - a,
{
    if k != a {
        lemma_ancestor_result_at(t, (k - 1) as nat, a);
    }
}

/// Upward search: when neither the working directory nor its `build`
/// subdirectory holds a marker, the search returns the nearest ancestor whose
/// listing holds one, with that ancestor's path.
pub proof fn lemma_upward_search(t: SearchTreeView, a: nat, p: BuildProgram)
    requires
        t.wf(),
        a < t.cwd.len(),
        first_marker(t.listings[t.cwd.len() as int]) is None,
        (match t.build_listing {
            Some(bl) => first_marker(bl) is None,
            None => true,
        }),
        forall|j: int| a < j < t.cwd.len() ==> first_marker(t.listings[j]) is None,
        first_marker(t.listings[a as int]) == Some(p),
    ensures
        search_spec(t) == Some((p, t.cwd.take(a as int))),
{
    lemma_ancestor_result_at(t, (t.cwd.len() - 1) as nat, a);
}

proof fn lemma_ancestor_result_none(t: SearchTreeView, k: nat)
    requires
        k < t.listings.len(),
        forall|j: int| 0 <= j <= k ==> first_marker(t.listings[j]) is None,
    ensures
        ancestor_result(t, k) is None,
    decreases k,
{
    if k != 0 {
        lemma_ancestor_result_none(t, (k - 1) as nat);
    }
}

proof fn lemma_ancestor_result_none_rev(t: SearchTreeView, k: nat)
    requires
        k < t.listings.len(),
        ancestor_result(t, k) is None,
    ensures
        forall|j: int| 0 <= j <= k ==> first_marker(t.listings[j]) is None,
    decreases k,
{
    if k != 0 {
        lemma_ancestor_result_none_rev(t, (k - 1) as nat);
    }
}

/// The search misses nothing: when it finds no build system, no directory
/// along the whole search path holds a marker.
pub proof fn lemma_search_complete(t: SearchTreeView)
    requires
        t.wf(),
        search_spec(t) is None,
    ensures
        forall|j: int| 0 <= j < t.listings.len() ==> first_marker(t.listings[j]) is None,
        (match t.build_listing {
            Some(bl) => first_marker(bl) is None,
            None => true,
        }),
{
    if t.cwd.len() > 0 {
        lemma_ancestor_result_none_rev(t, (t.cwd.len() - 1) as nat);
    }
}

/// When no directory along the whole search path holds a marker, the search
/// finds nothing.
pub proof fn lemma_search_none(t: SearchTreeView)
    requires
        t.wf(),
        forall|j: int| 0 <= j < t.listings.len() ==> first_marker(t.listings[j]) is None,
        (match t.build_listing {
            Some(bl) => first_marker(bl) is None,
            None => true,
        }),
    ensures
        search_spec(t) is None,
{
    if t.cwd.len() > 0 {
        lemma_ancestor_result_none(t, (t.cwd.len() - 1) as nat);
    }
}

} // verus!
