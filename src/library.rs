//! Libraries: named collections of graphs, each graph with its version count
//! and the version records that were loaded for it.
use vstd::prelude::*;
use crate::graph::{GraphInfo, VersionInfo};
use crate::ids::Id;
use crate::keyed::{keyed_view, keys_unique, lemma_keyed_contains, lemma_keyed_index, lemma_keyed_update, lemma_keyed_push, lemma_keyed_value};

verus! {

/// Information about a library as a whole.
pub struct LibraryInfo {
    pub name: String,
    pub uuid: Id,
    pub author: String,
    pub format: u64,
}

/// A version of a graph whose record was read.
pub struct VersionRecord {
    pub version: u64,
    pub info: VersionInfo,
}

/// A graph of a library: its information, the versions it has, where it
/// came from, and the version records that were read for it.
pub struct LibraryGraphInfo {
    pub info: GraphInfo,
    /// The version numbers the graph has: for a graph on disk, those whose
    /// directory holds a version file.
    pub versions: Vec<u64>,
    pub path: String,
    pub records: Vec<VersionRecord>,
}

/// A library of graphs, keyed by graph id.
pub struct Library {
    pub info: LibraryInfo,
    pub path: String,
    pub graphs: Vec<LibraryGraphInfo>,
}

/// The key of a library graph: the graph's id.
pub open spec fn graph_key() -> spec_fn(LibraryGraphInfo) -> Id {
    |g: LibraryGraphInfo| g.info.uuid
}

/// The first record of the given version.
pub open spec fn record_for(records: Seq<VersionRecord>, version: u64) -> Option<VersionInfo>
    decreases records.len(),
{
    if records.len() == 0 {
        None
    } else if records[0].version == version {
        Some(records[0].info)
    } else {
        record_for(records.skip(1), version)
    }
}

impl LibraryGraphInfo {
    /// Whether the graph has the given version.
    pub open spec fn has_version(self, version: u64) -> bool {
        self.versions@.contains(version)
    }

    /// Every record read is of a version the graph has.
    pub open spec fn wf(self) -> bool {
        forall|i: int|
            0 <= i < self.records@.len() ==> self.versions@.contains(
                (#[trigger] self.records@[i]).version,
            )
    }
}

/// A record found for a version is a record of one of the records.
pub proof fn lemma_record_for_found(records: Seq<VersionRecord>, version: u64)
    requires
        record_for(records, version) is Some,
    ensures
        exists|i: int| 0 <= i < records.len() && (#[trigger] records[i]).version == version,
    decreases records.len(),
{
    if records[0].version != version {
        lemma_record_for_found(records.skip(1), version);
        let i = choose|i: int|
            0 <= i < records.skip(1).len() && (#[trigger] records.skip(1)[i]).version == version;
        assert(records[i + 1] == records.skip(1)[i]);
    }
}

impl Library {
    /// Graph ids are unique within the library, and each graph's records
    /// are of versions it has.
    pub open spec fn wf(&self) -> bool {
        &&& keys_unique(self.graphs@, graph_key())
        &&& forall|i: int| 0 <= i < self.graphs@.len() ==> (#[trigger] self.graphs@[i]).wf()
    }

    /// The library's graphs by id.
    pub open spec fn graph_map(&self) -> Map<Id, LibraryGraphInfo> {
        keyed_view(self.graphs@, graph_key())
    }

    /// Whether the library holds the given version of the given graph.
    pub open spec fn has_version_spec(&self, id: Id, version: u64) -> bool {
        self.graph_map().contains_key(id) && self.graph_map()[id].has_version(version)
    }

    /// The record of the given version of the given graph, if it was read.
    pub open spec fn version_spec(&self, id: Id, version: u64) -> Option<VersionInfo> {
        if self.graph_map().contains_key(id) {
            record_for(self.graph_map()[id].records@, version)
        } else {
            None
        }
    }

    /// A library without graphs.
    pub fn new(info: LibraryInfo, path: String) -> (r: Self)
        ensures
            r.info == info,
            r.path == path,
            r.graphs@.len() == 0,
            r.wf(),
    {
        Library { info, path, graphs: Vec::new() }
    }

    /// The graph with the given id.
    pub fn get_graph(&self, id: Id) -> (r: Option<&LibraryGraphInfo>)
        requires
            self.wf(),
        ensures
            match r {
                Some(g) => self.graph_map().contains_key(id) && *g == self.graph_map()[id],
                None => !self.graph_map().contains_key(id),
            },
    {
        match self.find_graph(id) {
            Some(i) => Some(&self.graphs[i]),
            None => None,
        }
    }

    fn find_graph(&self, id: Id) -> (r: Option<usize>)
        requires
            self.wf(),
        ensures
            match r {
                Some(i) => i < self.graphs@.len() && self.graphs@[i as int].info.uuid == id
                    && self.graph_map().contains_key(id) && self.graph_map()[id]
                    == self.graphs@[i as int],
                None => !self.graph_map().contains_key(id),
            },
    {
        let mut i: usize = 0;
        while i < self.graphs.len()
            invariant
                i <= self.graphs@.len(),
                self.wf(),
                forall|j: int| 0 <= j < i ==> self.graphs@[j].info.uuid != id,
            decreases self.graphs@.len() - i,
        {
            if self.graphs[i].info.uuid == id {
                proof {
                    lemma_keyed_index(self.graphs@, graph_key(), i as int);
                }
                return Some(i);
            }
            i = i + 1;
        }
        proof {
            lemma_keyed_contains(self.graphs@, graph_key(), id);
        }
        None
    }

    /// Adds a graph, replacing any graph with the same id.
    pub fn insert_graph(&mut self, graph: LibraryGraphInfo)
        requires
            old(self).wf(),
            graph.wf(),
        ensures
            final(self).wf(),
            final(self).info == old(self).info,
            final(self).path == old(self).path,
            final(self).graph_map() == old(self).graph_map().insert(graph.info.uuid, graph),
    {
        let ghost gs = self.graphs@;
        let ghost g = graph;
        match self.find_graph(graph.info.uuid) {
            Some(i) => {
                self.graphs.remove(i);
                self.graphs.insert(i, graph);
                proof {
                    assert(self.graphs@ =~= gs.update(i as int, g));
                    lemma_keyed_update(gs, graph_key(), i as int, g);
                    assert forall|j: int| 0 <= j < self.graphs@.len() implies (#[trigger] self.graphs@[j]).wf() by {
                        if j != i {
                            assert(self.graphs@[j] == gs[j]);
                        }
                    }
                }
            },
            None => {
                self.graphs.push(graph);
                proof {
                    lemma_keyed_push(gs, graph_key(), g);
                    assert forall|j: int| 0 <= j < self.graphs@.len() implies (#[trigger] self.graphs@[j]).wf() by {
                        if j < gs.len() {
                            assert(self.graphs@[j] == gs[j]);
                        }
                    }
                }
            },
        }
    }
}

/// The first record of a version among a graph's records.
fn find_record(records: &Vec<VersionRecord>, version: u64) -> (r: Option<&VersionInfo>)
    ensures
        match r {
            Some(v) => record_for(records@, version) == Some(*v),
            None => record_for(records@, version) is None,
        },
{
    let mut i: usize = 0;
    assert(records@.skip(0) =~= records@);
    while i < records.len()
        invariant
            i <= records@.len(),
            record_for(records@, version) == record_for(records@.skip(i as int), version),
        decreases records@.len() - i,
    {
        assert(records@.skip(i as int).skip(1) =~= records@.skip(i as int + 1));
        if records[i].version == version {
            return Some(&records[i].info);
        }
        i = i + 1;
    }
    None
}

/// The record of the given version of a graph of the library, if the graph
/// is there and that version's record was read.
pub fn get_graph_version_from_library(lib: &Library, id: Id, version: u64) -> (r: Option<
    &VersionInfo,
>)
    requires
        lib.wf(),
    ensures
        match r {
            Some(v) => lib.version_spec(id, version) == Some(*v),
            None => lib.version_spec(id, version) is None,
        },
        r is Some ==> lib.has_version_spec(id, version),
{
    proof {
        if lib.version_spec(id, version) is Some {
            lemma_found_record_version_exists(*lib, id, version);
        }
    }
    match lib.get_graph(id) {
        Some(graph) => find_record(&graph.records, version),
        None => None,
    }
}

/// Whether a list of version numbers holds a version.
fn holds_version(versions: &Vec<u64>, version: u64) -> (r: bool)
    ensures
        r == versions@.contains(version),
{
    let mut i: usize = 0;
    while i < versions.len()
        invariant
            i <= versions@.len(),
            forall|j: int| 0 <= j < i ==> versions@[j] != version,
        decreases versions@.len() - i,
    {
        if versions[i] == version {
            return true;
        }
        i = i + 1;
    }
    false
}

/// Whether the library has the given version of a graph. This looks at the
/// versions found and reads no record.
pub fn has_graph_version_from_library(lib: &Library, id: Id, version: u64) -> (r: bool)
    requires
        lib.wf(),
    ensures
        r == lib.has_version_spec(id, version),
{
    match lib.get_graph(id) {
        Some(graph) => holds_version(&graph.versions, version),
        None => false,
    }
}

/// In a well-formed library, a version whose record was read is a version
/// the library has.
pub proof fn lemma_found_record_version_exists(lib: Library, id: Id, version: u64)
    requires
        lib.wf(),
        lib.version_spec(id, version) is Some,
    ensures
        lib.has_version_spec(id, version),
{
    lemma_keyed_value(lib.graphs@, graph_key(), id);
    let k = choose|k: int|
        0 <= k < lib.graphs@.len() && (graph_key())(lib.graphs@[k]) == id && lib.graph_map()[id]
            == lib.graphs@[k];
    assert(lib.graphs@[k].wf());
    lemma_record_for_found(lib.graph_map()[id].records@, version);
}

} // verus!
