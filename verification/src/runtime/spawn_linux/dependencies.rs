//! Discover the files used to run the program.
//!
//! The executable and its shared libraries are inspected by the caller; what
//! was found is weighed here: which libraries are required, and which files
//! the child has to be able to read.

use crate::runtime::bytes::{contains_bytes, contains_text, copy_bytes};
use vstd::prelude::*;

verus! {

/// A binary dependency.  If the `realpath` is None, then it could not be found.
pub struct Dependency {
    pub path: Vec<u8>,
    pub realpath: Option<Vec<u8>>,
    pub required: bool,
}

/// A dependency as a value: its paths as byte sequences.
pub struct DependencyView {
    pub path: Seq<u8>,
    pub realpath: Option<Seq<u8>>,
    pub required: bool,
}

/// A shared library as the analysis of the executable reports it.
pub struct Library {
    /// The name under which the library is asked for.
    pub name: String,
    /// The path that the library was declared at.
    pub path: Vec<u8>,
    /// The file that the path leads to, where there is one.
    pub realpath: Option<Vec<u8>>,
    /// The names of the libraries that this library asks for itself.
    pub needed: Vec<String>,
}

/// What the analysis of an executable reports: the names it asks for itself,
/// and every library of its dependency graph, in the order in which the
/// analysis gave them.
pub struct DependencyTree {
    pub needed: Vec<String>,
    pub libraries: Vec<Library>,
}

impl View for Dependency {
    type V = DependencyView;

    open spec fn view(&self) -> DependencyView {
        DependencyView {
            path: self.path@,
            realpath: match self.realpath {
                Some(p) => Some(p@),
                None => None,
            },
            required: self.required,
        }
    }
}

impl DependencyView {
    /// The resolved path, or the declared one where the dependency is not
    /// resolved.
    pub open spec fn best_path(self) -> Seq<u8> {
        match self.realpath {
            Some(r) => r,
            None => self.path,
        }
    }

    /// True for a dependency that is required and not resolved.
    pub open spec fn invalid(self) -> bool {
        self.required && self.realpath is None
    }
}

/// The views of a list of dependencies.
pub open spec fn dependency_views(deps: Seq<Dependency>) -> Seq<DependencyView> {
    Seq::new(deps.len(), |i: int| deps[i]@)
}

/// True where some participant of the tree asks for the name directly: the
/// executable or one of the libraries.
pub open spec fn is_required(tree: DependencyTree, name: Seq<char>) -> bool {
    tree.needed.deep_view().contains(name) || exists|i: int|
        0 <= i < tree.libraries@.len() && (#[trigger] tree.libraries@[i]).needed.deep_view().contains(
            name,
        )
}

/// The dependency that a library of the tree stands for.
pub open spec fn library_dependency(tree: DependencyTree, lib: Library) -> DependencyView {
    DependencyView {
        path: lib.path@,
        realpath: match lib.realpath {
            Some(p) => Some(p@),
            None => None,
        },
        required: is_required(tree, lib.name@),
    }
}

/// The dependencies of the first `count` libraries, each path once: of two
/// with the same best path the first stays.
pub open spec fn library_dependencies(tree: DependencyTree, count: int) -> Seq<DependencyView>
    decreases count,
{
    if count <= 0 {
        Seq::empty()
    } else {
        let before = library_dependencies(tree, count - 1);
        let dep = library_dependency(tree, tree.libraries@[count - 1]);
        if exists|i: int| 0 <= i < before.len() && (#[trigger] before[i]).best_path() == dep.best_path() {
            before
        } else {
            before.push(dep)
        }
    }
}

impl Dependency {
    /// The record for a path, from what the file system says about it: the
    /// absolute form of the path, where that can be had, and whether the path
    /// leads to something.  The record is resolved where both hold.
    pub fn from_path(path: &Vec<u8>, absolute: Option<Vec<u8>>, found: bool, required: bool) -> (dep:
        Dependency)
        ensures
            dep.path@ == path@,
            dep.required == required,
            dep@.realpath == (if found {
                match absolute {
                    Some(p) => Some(p@),
                    None => None,
                }
            } else {
                None
            }),
    {
        let abs = match absolute {
            Some(p) => p,
            None => {
                return Dependency { path: copy_bytes(path), realpath: None, required };
            },
        };
        if found {
            Dependency { path: copy_bytes(path), realpath: Some(abs), required }
        } else {
            Dependency { path: copy_bytes(path), realpath: None, required }
        }
    }

    /// The record for a library; it is required where its name is among the
    /// names given.
    fn from_library(lib: &Library, required_set: &Vec<String>) -> (dep: Dependency)
        ensures
            dep.path@ == lib.path@,
            dep@.realpath == (match lib.realpath {
                Some(p) => Some(p@),
                None => None,
            }),
            dep.required == required_set.deep_view().contains(lib.name@),
    {
        Dependency {
            path: copy_bytes(&lib.path),
            realpath: match &lib.realpath {
                Some(p) => Some(copy_bytes(p)),
                None => None,
            },
            required: contains_text(required_set, &lib.name),
        }
    }

    pub fn exists_on_disk(&self) -> (r: bool)
        ensures
            r == (self@.realpath is Some),
    {
        self.realpath.is_some()
    }

    pub fn best_path(&self) -> (r: &Vec<u8>)
        ensures
            r@ == self@.best_path(),
    {
        match &self.realpath {
            Some(r) => r,
            None => &self.path,
        }
    }

    pub fn invalid(&self) -> (r: bool)
        ensures
            r == self@.invalid(),
    {
        self.required && self.realpath.is_none()
    }

    /// Tells whether the best path is new to the paths visited, and puts it
    /// among them where it is.
    fn not_visited(&self, visited: &mut Vec<Vec<u8>>) -> (r: bool)
        ensures
            r == !old(visited).deep_view().contains(self@.best_path()),
            final(visited).deep_view() == (if r {
                old(visited).deep_view().push(self@.best_path())
            } else {
                old(visited).deep_view()
            }),
    {
        let r = self.best_path();
        let ret = !contains_bytes(visited, r);
        if ret {
            visited.push(copy_bytes(r));
            assert(visited.deep_view() =~~= old(visited).deep_view().push(self@.best_path()));
        }
        ret
    }
}

/// The names that the executable or one of its libraries asks for directly.
fn load_required_libs(tree: &DependencyTree) -> (ret: Vec<String>)
    ensures
        forall|name: Seq<char>| ret.deep_view().contains(name) <==> is_required(*tree, name),
{
    let mut ret: Vec<String> = Vec::new();
    let mut i: usize = 0;
    while i < tree.needed.len()
        invariant
            i <= tree.needed@.len(),
            forall|name: Seq<char>|
                ret.deep_view().contains(name) <==> tree.needed.deep_view().take(i as int).contains(
                    name,
                ),
        decreases tree.needed@.len() - i,
    {
        let ghost before = ret.deep_view();
        ret.push(tree.needed[i].clone());
        proof {
            let added = tree.needed@[i as int]@;
            let taken = tree.needed.deep_view().take(i as int);
            assert(tree.needed.deep_view()[i as int] == added);
            assert(ret.deep_view() =~= before.push(added));
            assert(tree.needed.deep_view().take(i + 1) =~= taken.push(added));
            lemma_push_contains(before, added);
            lemma_push_contains(taken, added);
            assert forall|name: Seq<char>|
                ret.deep_view().contains(name) <==> tree.needed.deep_view().take(i + 1).contains(
                    name,
                ) by {
                assert(before.contains(name) <==> taken.contains(name));
            }
        }
        i += 1;
    }
    assert(tree.needed.deep_view().take(i as int) =~= tree.needed.deep_view());
    let mut l: usize = 0;
    while l < tree.libraries.len()
        invariant
            l <= tree.libraries@.len(),
            forall|name: Seq<char>|
                ret.deep_view().contains(name) <==> (tree.needed.deep_view().contains(name)
                    || exists|k: int|
                    0 <= k < l && (#[trigger] tree.libraries@[k]).needed.deep_view().contains(name)),
        decreases tree.libraries@.len() - l,
    {
        let lib = &tree.libraries[l];
        let ghost at_lib = ret.deep_view();
        let mut n: usize = 0;
        while n < lib.needed.len()
            invariant
                n <= lib.needed@.len(),
                forall|name: Seq<char>| #[trigger]
                    ret.deep_view().contains(name) <==> (at_lib.contains(name)
                        || lib.needed.deep_view().take(n as int).contains(name)),
            decreases lib.needed@.len() - n,
        {
            let ghost before = ret.deep_view();
            ret.push(lib.needed[n].clone());
            proof {
                let added = lib.needed@[n as int]@;
                let taken = lib.needed.deep_view().take(n as int);
                assert(lib.needed.deep_view()[n as int] == added);
                assert(ret.deep_view() =~= before.push(added));
                assert(lib.needed.deep_view().take(n + 1) =~= taken.push(added));
                lemma_push_contains(before, added);
                lemma_push_contains(taken, added);
                assert forall|name: Seq<char>| #[trigger]
                    ret.deep_view().contains(name) <==> (at_lib.contains(name)
                        || lib.needed.deep_view().take(n + 1).contains(name)) by {
                    assert(before.contains(name) <==> (at_lib.contains(name) || taken.contains(
                        name,
                    )));
                }
            }
            n += 1;
        }
        proof {
            assert(lib.needed.deep_view().take(n as int) =~= lib.needed.deep_view());
            assert forall|name: Seq<char>|
                ret.deep_view().contains(name) <==> (tree.needed.deep_view().contains(name)
                    || exists|k: int|
                    0 <= k < l + 1 && (#[trigger] tree.libraries@[k]).needed.deep_view().contains(
                        name,
                    )) by {
                assert(at_lib.contains(name) <==> (tree.needed.deep_view().contains(name)
                    || exists|k: int|
                    0 <= k < l && (#[trigger] tree.libraries@[k]).needed.deep_view().contains(
                        name,
                    )));
                if lib.needed.deep_view().contains(name) {
                    assert(tree.libraries@[l as int].needed.deep_view().contains(name));
                }
            }
        }
        l += 1;
    }
    ret
}

/// A list with one more item holds what it held and the item.
proof fn lemma_push_contains<A>(s: Seq<A>, a: A)
    ensures
        forall|x: A| s.push(a).contains(x) <==> (s.contains(x) || x == a),
{
    assert forall|x: A| s.push(a).contains(x) <==> (s.contains(x) || x == a) by {
        if s.push(a).contains(x) {
            let i = choose|i: int| 0 <= i < s.push(a).len() && s.push(a)[i] == x;
            if i < s.len() {
                assert(s[i] == x);
            }
        }
        if s.contains(x) {
            let i = choose|i: int| 0 <= i < s.len() && s[i] == x;
            assert(s.push(a)[i] == x);
        }
        if x == a {
            assert(s.push(a)[s.len() as int] == x);
        }
    }
}

/// Discovers all binary dependencies for the executable.
///
/// `exec_dep` is the record of the executable itself, `tree` what the analysis
/// of its dependency graph gave, or `None` where the analysis failed.  An
/// executable that is not resolved is reported alone, and so is one whose
/// analysis failed.  Otherwise the libraries follow the executable, each best
/// path once; a library is required where the executable or a library asks for
/// it by name.
pub fn find_bin_dependencies(exec_dep: Dependency, tree: Option<DependencyTree>) -> (ret: Vec<
    Dependency,
>)
    ensures
        dependency_views(ret@) == (if exec_dep@.realpath is None {
            seq![exec_dep@]
        } else {
            match tree {
                None => seq![exec_dep@],
                Some(t) => seq![exec_dep@] + library_dependencies(t, t.libraries@.len() as int),
            }
        }),
{
    let ghost exec_view = exec_dep@;
    // Only perform the inspection if the executable exists.
    if exec_dep.realpath.is_none() {
        let mut ret: Vec<Dependency> = Vec::new();
        ret.push(exec_dep);
        assert(dependency_views(ret@) =~= seq![exec_view]);
        return ret;
    }
    let mut ret: Vec<Dependency> = Vec::new();
    ret.push(exec_dep);
    assert(dependency_views(ret@) =~= seq![exec_view]);
    let deps = match tree {
        Some(d) => d,
        None => {
            return ret;
        },
    };
    let mut visited: Vec<Vec<u8>> = Vec::new();
    let required = load_required_libs(&deps);
    let mut i: usize = 0;
    assert(dependency_views(ret@) =~= seq![exec_view] + library_dependencies(deps, 0));
    while i < deps.libraries.len()
        invariant
            i <= deps.libraries@.len(),
            forall|name: Seq<char>| required.deep_view().contains(name) <==> is_required(deps, name),
            dependency_views(ret@) == seq![exec_view] + library_dependencies(deps, i as int),
            visited.deep_view().len() == library_dependencies(deps, i as int).len(),
            forall|k: int|
                0 <= k < visited.deep_view().len() ==> visited.deep_view()[k]
                    == #[trigger] library_dependencies(deps, i as int)[k].best_path(),
        decreases deps.libraries@.len() - i,
    {
        let ghost before = library_dependencies(deps, i as int);
        let ghost ret_before = dependency_views(ret@);
        let dep = Dependency::from_library(&deps.libraries[i], &required);
        assert(dep@ == library_dependency(deps, deps.libraries@[i as int]));
        let ghost seen = visited.deep_view();
        let fresh = dep.not_visited(&mut visited);
        proof {
            if !fresh {
                let k = choose|k: int| 0 <= k < seen.len() && seen[k] == dep@.best_path();
                assert(before[k].best_path() == dep@.best_path());
            } else {
                if exists|k: int| 0 <= k < before.len() && (#[trigger] before[k]).best_path() == dep@.best_path() {
                    let k = choose|k: int| 0 <= k < before.len() && (#[trigger] before[k]).best_path() == dep@.best_path();
                    assert(seen[k] == dep@.best_path());
                    assert(false);
                }
            }
        }
        if fresh {
            let ghost dep_view = dep@;
            ret.push(dep);
            assert(dependency_views(ret@) =~= ret_before.push(dep_view));
            assert(ret_before.push(dep_view) =~= seq![exec_view] + before.push(dep_view));
        }
        i += 1;
    }
    ret
}

} // verus!
