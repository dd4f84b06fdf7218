//! The catalogue: the libraries of graphs known to the engine, in the order
//! they were loaded, and the lookups the controller and nodes make in it.
use vstd::prelude::*;
use crate::graph::{GraphInfo, GraphRef, VersionInfo};
use crate::ids::{INTERNAL_LIBRARY_ID, Id};
use crate::keyed::keys_unique;
use crate::library::{
    Library, LibraryGraphInfo, LibraryInfo, get_graph_version_from_library,
    has_graph_version_from_library, lemma_found_record_version_exists,
};
use crate::nodes::canvas::CANVAS_GRAPH_ID;
use crate::nodes::graph::GRAPH_GRAPH_ID;
use crate::nodes::log::LOG_GRAPH_ID;

verus! {

/// The libraries known to the engine. Lookups go through them in order and
/// the first match wins; the built-in library comes first.
pub struct Catalogue {
    pub libraries: Vec<Library>,
}

/// The key of a library: its id.
pub open spec fn library_key() -> spec_fn(Library) -> Id {
    |l: Library| l.info.uuid
}

/// The first library, in order, that holds the graph: its id and the graph.
pub open spec fn find_graph(libs: Seq<Library>, id: Id) -> Option<(Id, LibraryGraphInfo)>
    decreases libs.len(),
{
    if libs.len() == 0 {
        None
    } else if libs[0].graph_map().contains_key(id) {
        Some((libs[0].info.uuid, libs[0].graph_map()[id]))
    } else {
        find_graph(libs.skip(1), id)
    }
}

/// The first record, in library order, of the given version of the graph.
pub open spec fn find_version(libs: Seq<Library>, id: Id, version: u64) -> Option<VersionInfo>
    decreases libs.len(),
{
    if libs.len() == 0 {
        None
    } else if libs[0].version_spec(id, version) is Some {
        libs[0].version_spec(id, version)
    } else {
        find_version(libs.skip(1), id, version)
    }
}

/// Whether some library has the given version of the graph.
pub open spec fn any_has_version(libs: Seq<Library>, id: Id, version: u64) -> bool {
    exists|i: int| 0 <= i < libs.len() && (#[trigger] libs[i]).has_version_spec(id, version)
}

/// The libraries after adding one: it replaces the library with the same id
/// in place, or goes last.
pub open spec fn with_library(libs: Seq<Library>, lib: Library) -> Seq<Library> {
    if exists|i: int| 0 <= i < libs.len() && libs[i].info.uuid == lib.info.uuid {
        let i = choose|i: int| 0 <= i < libs.len() && libs[i].info.uuid == lib.info.uuid;
        libs.update(i, lib)
    } else {
        libs.push(lib)
    }
}

/// The libraries after adding several, in order.
pub open spec fn with_libraries(libs: Seq<Library>, more: Seq<Library>) -> Seq<Library>
    decreases more.len(),
{
    if more.len() == 0 {
        libs
    } else {
        with_library(with_libraries(libs, more.drop_last()), more.last())
    }
}

/// The reference to a graph version that a lookup result gives.
pub open spec fn graph_ref_of(found: Option<(Id, LibraryGraphInfo)>, version: u64) -> Option<
    GraphRef,
> {
    match found {
        Some((lib, g)) => Some(
            GraphRef { name: g.info.name, uuid: g.info.uuid, library: Some(lib), version },
        ),
        None => None,
    }
}

/// A built-in graph as the built-in library holds it: version one, and no
/// version records, since the node's code declares its pins.
pub open spec fn builtin_graph(g: LibraryGraphInfo, id: Id, name: Seq<char>) -> bool {
    &&& g.info.uuid == id
    &&& g.info.name@ == name
    &&& g.info.format == 1
    &&& g.versions@ == seq![1u64]
    &&& g.records@.len() == 0
}

/// The built-in library: its identity, and the Graph, Canvas and Log graphs.
pub open spec fn is_internal_library(lib: Library) -> bool {
    &&& lib.wf()
    &&& lib.info.uuid == INTERNAL_LIBRARY_ID
    &&& lib.info.name@ == "internal"@
    &&& lib.info.author@ == "Proc Flow Internal"@
    &&& lib.info.format == 1
    &&& lib.graph_map().dom() == set![GRAPH_GRAPH_ID, CANVAS_GRAPH_ID, LOG_GRAPH_ID]
    &&& builtin_graph(lib.graph_map()[GRAPH_GRAPH_ID], GRAPH_GRAPH_ID, "Graph"@)
    &&& builtin_graph(lib.graph_map()[CANVAS_GRAPH_ID], CANVAS_GRAPH_ID, "Canvas"@)
    &&& builtin_graph(lib.graph_map()[LOG_GRAPH_ID], LOG_GRAPH_ID, "Log"@)
}

/// The versions one to `count`, in order.
fn versions_up_to(count: u64) -> (r: Vec<u64>)
    ensures
        r@ == Seq::new(count as nat, |i: int| (i + 1) as u64),
{
    let mut r: Vec<u64> = Vec::new();
    let mut v: u64 = 0;
    while v < count
        invariant
            v <= count,
            r@ == Seq::new(v as nat, |i: int| (i + 1) as u64),
        decreases count - v,
    {
        v = v + 1;
        r.push(v);
        assert(r@ =~= Seq::new(v as nat, |i: int| (i + 1) as u64));
    }
    r
}

/// The built-in library, holding the registered built-in graphs.
pub fn internal_library() -> (r: Library)
    ensures
        is_internal_library(r),
{
    let info = LibraryInfo {
        name: "internal".to_owned(),
        uuid: INTERNAL_LIBRARY_ID,
        author: "Proc Flow Internal".to_owned(),
        format: 1,
    };
    let mut lib = Library::new(info, String::new());
    let mut registered = crate::nodes::register();
    assert(lib.graph_map() =~= Map::<Id, LibraryGraphInfo>::empty());
    let (info, count) = registered.remove(0);
    lib.insert_graph(
        LibraryGraphInfo {
            info,
            versions: versions_up_to(count),
            path: String::new(),
            records: Vec::new(),
        },
    );
    let (info, count) = registered.remove(0);
    lib.insert_graph(
        LibraryGraphInfo {
            info,
            versions: versions_up_to(count),
            path: String::new(),
            records: Vec::new(),
        },
    );
    let (info, count) = registered.remove(0);
    lib.insert_graph(
        LibraryGraphInfo {
            info,
            versions: versions_up_to(count),
            path: String::new(),
            records: Vec::new(),
        },
    );
    assert(lib.graph_map().dom() =~= set![GRAPH_GRAPH_ID, CANVAS_GRAPH_ID, LOG_GRAPH_ID]);
    assert(Seq::new(1nat, |i: int| (i + 1) as u64) =~= seq![1u64]);
    lib
}

/// The libraries to load: the built-in library first, then those found.
pub fn load_libraries(found: Vec<Library>) -> (r: Vec<Library>)
    ensures
        r@.len() == found@.len() + 1,
        is_internal_library(r@[0]),
        r@.skip(1) == found@,
{
    let mut libs: Vec<Library> = Vec::new();
    libs.push(internal_library());
    let mut found = found;
    let ghost f = found@;
    libs.append(&mut found);
    assert(libs@.skip(1) =~= f);
    libs
}

impl Catalogue {
    /// Library ids are unique and every library is well formed.
    pub open spec fn wf(&self) -> bool {
        &&& keys_unique(self.libraries@, library_key())
        &&& forall|i: int| 0 <= i < self.libraries@.len() ==> (#[trigger] self.libraries@[i]).wf()
    }

    /// An empty catalogue.
    pub fn new() -> (r: Catalogue)
        ensures
            r.wf(),
            r.libraries@.len() == 0,
    {
        Catalogue { libraries: Vec::new() }
    }

    /// Adds a library, replacing the library with the same id in place.
    pub fn insert_library(&mut self, lib: Library)
        requires
            old(self).wf(),
            lib.wf(),
        ensures
            final(self).wf(),
            final(self).libraries@ == with_library(old(self).libraries@, lib),
    {
        let ghost before = self.libraries@;
        let ghost l = lib;
        let mut i: usize = 0;
        while i < self.libraries.len()
            invariant
                i <= self.libraries@.len(),
                self.libraries@ == before,
                forall|j: int| 0 <= j < i ==> self.libraries@[j].info.uuid != lib.info.uuid,
            ensures
                i <= self.libraries@.len(),
                self.libraries@ == before,
                forall|j: int| 0 <= j < i ==> self.libraries@[j].info.uuid != lib.info.uuid,
                i < self.libraries@.len() ==> self.libraries@[i as int].info.uuid == lib.info.uuid,
            decreases self.libraries@.len() - i,
        {
            if self.libraries[i].info.uuid == lib.info.uuid {
                break;
            }
            i = i + 1;
        }
        if i < self.libraries.len() {
            proof {
                let k = choose|k: int|
                    0 <= k < before.len() && before[k].info.uuid == l.info.uuid;
                if k != i {
                    assert((library_key())(before[k]) != (library_key())(before[i as int]));
                }
            }
            self.libraries.remove(i);
            self.libraries.insert(i, lib);
            assert(self.libraries@ =~= before.update(i as int, l));
            assert(keys_unique(self.libraries@, library_key())) by {
                assert forall|a: int, b: int|
                    0 <= a < before.len() && 0 <= b < before.len() && a != b implies (
                    library_key())(#[trigger] self.libraries@[a]) != (library_key())(
                    #[trigger] self.libraries@[b],
                ) by {
                    assert((library_key())(before[a]) != (library_key())(before[b]));
                    assert((library_key())(l) == (library_key())(before[i as int]));
                }
            }
        } else {
            self.libraries.push(lib);
            assert(keys_unique(self.libraries@, library_key())) by {
                assert forall|a: int, b: int|
                    0 <= a < self.libraries@.len() && 0 <= b < self.libraries@.len() && a
                        != b implies (library_key())(#[trigger] self.libraries@[a]) != (
                    library_key())(#[trigger] self.libraries@[b]) by {
                    if a < before.len() && b < before.len() {
                        assert((library_key())(before[a]) != (library_key())(before[b]));
                    }
                }
            }
        }
    }

    /// Replaces the whole contents by the given libraries, added in order.
    pub fn load(&mut self, libs: Vec<Library>)
        requires
            forall|i: int| 0 <= i < libs@.len() ==> (#[trigger] libs@[i]).wf(),
        ensures
            final(self).wf(),
            final(self).libraries@ == with_libraries(Seq::empty(), libs@),
    {
        self.libraries = Vec::new();
        let mut rest = libs;
        let ghost all = rest@;
        let n = rest.len();
        let mut i: usize = 0;
        while i < n
            invariant
                self.wf(),
                n == all.len(),
                i <= n,
                rest@ == all.skip(i as int),
                self.libraries@ == with_libraries(Seq::empty(), all.take(i as int)),
                forall|j: int| 0 <= j < all.len() ==> (#[trigger] all[j]).wf(),
            decreases n - i,
        {
            let lib = rest.remove(0);
            assert(lib == all[i as int]);
            assert(rest@ =~= all.skip(i as int + 1));
            assert(all.take(i as int + 1).drop_last() =~= all.take(i as int));
            self.insert_library(lib);
            i = i + 1;
        }
        assert(all.take(n as int) =~= all);
    }

    /// Replaces the contents by the built-in library followed by the
    /// libraries found on disk, added in order.
    pub fn load_default_libraries(&mut self, found: Vec<Library>)
        requires
            forall|i: int| 0 <= i < found@.len() ==> (#[trigger] found@[i]).wf(),
        ensures
            final(self).wf(),
            exists|internal: Library|
                is_internal_library(internal) && final(self).libraries@ == with_libraries(
                    Seq::empty(),
                    seq![internal] + found@,
                ),
    {
        let ghost f = found@;
        let libs = load_libraries(found);
        let ghost l = libs@;
        assert(l =~= seq![l[0]] + f);
        self.load(libs);
        assert(is_internal_library(l[0]));
    }

    /// The first library, in order, that holds the graph, and the graph.
    fn lookup(&self, id: Id) -> (r: Option<(Id, &LibraryGraphInfo)>)
        requires
            self.wf(),
        ensures
            match r {
                Some((lib, g)) => find_graph(self.libraries@, id) == Some((lib, *g)),
                None => find_graph(self.libraries@, id) is None,
            },
    {
        let mut i: usize = 0;
        assert(self.libraries@.skip(0) =~= self.libraries@);
        while i < self.libraries.len()
            invariant
                i <= self.libraries@.len(),
                self.wf(),
                find_graph(self.libraries@, id) == find_graph(self.libraries@.skip(i as int), id),
            decreases self.libraries@.len() - i,
        {
            assert(self.libraries@.skip(i as int).skip(1) =~= self.libraries@.skip(i as int + 1));
            assert(self.libraries@.skip(i as int)[0] == self.libraries@[i as int]);
            let lib = &self.libraries[i];
            match lib.get_graph(id) {
                Some(g) => {
                    return Some((lib.info.uuid, g));
                },
                None => {},
            }
            i = i + 1;
        }
        None
    }

    /// The graph's information, from the first library that holds it.
    pub fn get_graph_info(&self, id: Id) -> (r: Option<GraphInfo>)
        requires
            self.wf(),
        ensures
            r == (match find_graph(self.libraries@, id) {
                Some((_, g)) => Some(g.info),
                None => None,
            }),
    {
        match self.lookup(id) {
            Some((_, g)) => Some(g.info.clone()),
            None => None,
        }
    }

    /// A reference to a version of the graph, naming the first library that
    /// holds the graph. The version itself is not checked.
    pub fn get_graph_ref(&self, id: Id, version: u64) -> (r: Option<GraphRef>)
        requires
            self.wf(),
        ensures
            r == graph_ref_of(find_graph(self.libraries@, id), version),
    {
        match self.lookup(id) {
            Some((lib, g)) => Some(
                GraphRef { name: g.info.name.clone(), uuid: g.info.uuid, library: Some(lib), version },
            ),
            None => None,
        }
    }

    /// The record of the referenced graph version, from the first library
    /// that has one.
    pub fn get_graph_version(&self, graph_ref: &GraphRef) -> (r: Option<&VersionInfo>)
        requires
            self.wf(),
        ensures
            match r {
                Some(v) => find_version(self.libraries@, graph_ref.uuid, graph_ref.version)
                    == Some(*v),
                None => find_version(self.libraries@, graph_ref.uuid, graph_ref.version) is None,
            },
            r is Some ==> any_has_version(self.libraries@, graph_ref.uuid, graph_ref.version),
    {
        let mut i: usize = 0;
        let ghost libs = self.libraries@;
        assert(libs.skip(0) =~= libs);
        while i < self.libraries.len()
            invariant
                i <= libs.len(),
                libs == self.libraries@,
                self.wf(),
                find_version(libs, graph_ref.uuid, graph_ref.version) == find_version(
                    libs.skip(i as int),
                    graph_ref.uuid,
                    graph_ref.version,
                ),
            decreases libs.len() - i,
        {
            assert(libs.skip(i as int).skip(1) =~= libs.skip(i as int + 1));
            assert(libs.skip(i as int)[0] == libs[i as int]);
            match get_graph_version_from_library(&self.libraries[i], graph_ref.uuid, graph_ref.version) {
                Some(v) => {
                    proof {
                        lemma_loaded_version_exists(*self, graph_ref.uuid, graph_ref.version);
                    }
                    return Some(v);
                },
                None => {},
            }
            i = i + 1;
        }
        None
    }

    /// Whether some library has the referenced version. This looks at the
    /// version counts only and reads no record.
    pub fn has_graph_version(&self, graph_ref: &GraphRef) -> (r: bool)
        requires
            self.wf(),
        ensures
            r == any_has_version(self.libraries@, graph_ref.uuid, graph_ref.version),
    {
        let mut i: usize = 0;
        while i < self.libraries.len()
            invariant
                i <= self.libraries@.len(),
                self.wf(),
                forall|j: int|
                    0 <= j < i ==> !(#[trigger] self.libraries@[j]).has_version_spec(
                        graph_ref.uuid,
                        graph_ref.version,
                    ),
            decreases self.libraries@.len() - i,
        {
            if has_graph_version_from_library(&self.libraries[i], graph_ref.uuid, graph_ref.version) {
                return true;
            }
            i = i + 1;
        }
        false
    }
}

/// A graph version that no library holds a record of loads as nothing.
/// Loading takes the catalogue by shared reference and so never changes it.
pub proof fn lemma_missing_version_loads_nothing(catalogue: Catalogue, id: Id, version: u64)
    requires
        forall|i: int|
            0 <= i < catalogue.libraries@.len() ==> (#[trigger] catalogue.libraries@[i]).version_spec(
                id,
                version,
            ) is None,
    ensures
        find_version(catalogue.libraries@, id, version) is None,
{
    lemma_find_version_none(catalogue.libraries@, id, version);
}

proof fn lemma_find_version_none(libs: Seq<Library>, id: Id, version: u64)
    requires
        forall|i: int| 0 <= i < libs.len() ==> (#[trigger] libs[i]).version_spec(id, version) is None,
    ensures
        find_version(libs, id, version) is None,
    decreases libs.len(),
{
    if libs.len() > 0 {
        let t = libs.skip(1);
        assert forall|i: int| 0 <= i < t.len() implies (#[trigger] t[i]).version_spec(id, version) is None by {
            assert(t[i] == libs[i + 1]);
        }
        lemma_find_version_none(t, id, version);
        assert(libs[0].version_spec(id, version) is None);
    }
}

/// A version whose record the catalogue loads is a version the catalogue
/// has: loading never finds what the version check denies.
pub proof fn lemma_loaded_version_exists(catalogue: Catalogue, id: Id, version: u64)
    requires
        catalogue.wf(),
        find_version(catalogue.libraries@, id, version) is Some,
    ensures
        any_has_version(catalogue.libraries@, id, version),
{
    lemma_find_version_found(catalogue.libraries@, id, version);
    let i = choose|i: int|
        0 <= i < catalogue.libraries@.len() && (#[trigger] catalogue.libraries@[i]).version_spec(
            id,
            version,
        ) is Some;
    lemma_found_record_version_exists(catalogue.libraries@[i], id, version);
}

proof fn lemma_find_version_found(libs: Seq<Library>, id: Id, version: u64)
    requires
        find_version(libs, id, version) is Some,
    ensures
        exists|i: int| 0 <= i < libs.len() && (#[trigger] libs[i]).version_spec(id, version) is Some,
    decreases libs.len(),
{
    if libs[0].version_spec(id, version) is None {
        lemma_find_version_found(libs.skip(1), id, version);
        let i = choose|i: int|
            0 <= i < libs.skip(1).len() && (#[trigger] libs.skip(1)[i]).version_spec(id, version) is Some;
        assert(libs[i + 1] == libs.skip(1)[i]);
    }
}

} // verus!
