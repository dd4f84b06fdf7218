use proc_flow::catalogue::{Catalogue, internal_library, load_libraries};
use proc_flow::graph::{GraphInfo, GraphRef, VersionInfo};
use proc_flow::ids::{INTERNAL_LIBRARY_ID, parse_id};
use proc_flow::library::{
    Library, LibraryGraphInfo, LibraryInfo, VersionRecord, get_graph_version_from_library,
    has_graph_version_from_library,
};
use proc_flow::nodes::canvas::CANVAS_GRAPH_ID;
use proc_flow::nodes::graph::GRAPH_GRAPH_ID;
use proc_flow::nodes::log::{LOG_GRAPH_ID, LOG_INFO_INPUT, LOG_INFO_OUTPUT};
use proc_flow::nodes::{create, register, BuiltinNode};

fn library(id: u128, name: &str) -> Library {
    let info = LibraryInfo { name: name.to_owned(), uuid: id, author: "a".to_owned(), format: 1 };
    Library::new(info, format!("/libs/{}", name))
}

fn graph(id: u128, name: &str, versions: u64) -> LibraryGraphInfo {
    LibraryGraphInfo {
        info: GraphInfo { name: name.to_owned(), uuid: id, format: 1 },
        versions: (1..=versions).collect(),
        path: String::new(),
        records: Vec::new(),
    }
}

fn empty_version(format: u16) -> VersionInfo {
    VersionInfo {
        format,
        receives: Vec::new(),
        sends: Vec::new(),
        inputs: Vec::new(),
        outputs: Vec::new(),
        nodes: Vec::new(),
        connections: Vec::new(),
    }
}

fn reference(id: u128, version: u64) -> GraphRef {
    GraphRef { name: String::new(), uuid: id, library: None, version }
}

#[test]
fn identifiers_parse_from_text() {
    assert_eq!(parse_id("fd41d8ef-d10f-4499-8a90-35b73d8ff246"), Some(LOG_GRAPH_ID));
    assert_eq!(parse_id("5e6ab872-5cca-4e01-8dbb-2df843102dc0"), Some(LOG_INFO_INPUT));
    assert_eq!(parse_id("44a986b1dc0945d9ab65e2c0c7b6f5ce"), Some(LOG_INFO_OUTPUT));
    assert_eq!(parse_id("b0fa443c-20d0-4c2a-acf9-76c63af3cbed"), Some(INTERNAL_LIBRARY_ID));
    assert_eq!(parse_id("00000000-0000-0000-0000-000000000000"), Some(0));
    assert_eq!(parse_id("not an id"), None);
    assert_eq!(parse_id(""), None);
}

#[test]
fn builtins_are_registered() {
    let r = register();
    let ids: Vec<u128> = r.iter().map(|(g, _)| g.uuid).collect();
    assert_eq!(ids, vec![GRAPH_GRAPH_ID, CANVAS_GRAPH_ID, LOG_GRAPH_ID]);
    assert!(r.iter().all(|(_, versions)| *versions == 1));
    assert!(internal_library().graphs.iter().all(|g| g.versions == vec![1]));
    let lib = internal_library();
    assert_eq!(lib.info.uuid, INTERNAL_LIBRARY_ID);
    assert_eq!(lib.info.name, "internal");
    assert_eq!(lib.graphs.len(), 3);
}

#[test]
fn builtins_are_created_by_id() {
    let c = Catalogue::new();
    assert!(matches!(create(1, &c, LOG_GRAPH_ID, 1, 2).map(|n| n.process), Some(BuiltinNode::Log(_))));
    assert!(matches!(create(1, &c, GRAPH_GRAPH_ID, 1, 2).map(|n| n.process), Some(BuiltinNode::Graph(_))));
    assert!(matches!(create(1, &c, CANVAS_GRAPH_ID, 1, 2).map(|n| n.process), Some(BuiltinNode::Canvas(_))));
    assert!(create(1, &c, LOG_GRAPH_ID, 2, 2).is_none());
    assert!(create(1, &c, 12345, 1, 2).is_none());
}

#[test]
fn builtin_library_comes_first() {
    let libs = load_libraries(vec![library(1, "one"), library(2, "two")]);
    let ids: Vec<u128> = libs.iter().map(|l| l.info.uuid).collect();
    assert_eq!(ids, vec![INTERNAL_LIBRARY_ID, 1, 2]);
}

#[test]
fn first_library_wins() {
    let mut a = library(1, "one");
    a.insert_graph(graph(50, "from one", 1));
    let mut b = library(2, "two");
    b.insert_graph(graph(50, "from two", 4));
    b.insert_graph(graph(60, "only two", 1));
    let mut c = Catalogue::new();
    c.load_default_libraries(vec![a, b]);
    assert_eq!(c.get_graph_info(50).unwrap().name, "from one");
    let r = c.get_graph_ref(50, 3).unwrap();
    assert_eq!(r.library, Some(1));
    assert_eq!(r.name, "from one");
    assert_eq!(r.version, 3);
    assert_eq!(c.get_graph_ref(60, 1).unwrap().library, Some(2));
    assert_eq!(c.get_graph_ref(LOG_GRAPH_ID, 1).unwrap().library, Some(INTERNAL_LIBRARY_ID));
    // Version 3 exists only in the second library: some library has it.
    assert!(c.has_graph_version(&reference(50, 3)));
    assert!(!c.has_graph_version(&reference(50, 5)));
    assert!(!c.has_graph_version(&reference(50, 0)));
    assert!(c.get_graph_info(70).is_none());
    assert!(c.get_graph_ref(70, 1).is_none());
}

#[test]
fn libraries_with_the_same_id_replace() {
    let mut a = library(1, "one");
    a.insert_graph(graph(50, "old", 1));
    let mut a2 = library(1, "one again");
    a2.insert_graph(graph(51, "new", 1));
    let mut c = Catalogue::new();
    c.load_default_libraries(vec![a, library(2, "two"), a2]);
    let names: Vec<&str> = c.libraries.iter().map(|l| l.info.name.as_str()).collect();
    assert_eq!(names, vec!["internal", "one again", "two"]);
    assert!(c.get_graph_info(50).is_none());
    assert!(c.get_graph_info(51).is_some());
}

#[test]
fn graphs_with_the_same_id_replace() {
    let mut a = library(1, "one");
    a.insert_graph(graph(50, "old", 1));
    a.insert_graph(graph(51, "other", 1));
    a.insert_graph(graph(50, "new", 2));
    assert_eq!(a.graphs.len(), 2);
    assert_eq!(a.get_graph(50).unwrap().info.name, "new");
    assert!(has_graph_version_from_library(&a, 50, 2));
    assert!(!has_graph_version_from_library(&a, 50, 3));
    assert!(!has_graph_version_from_library(&a, 52, 1));
}

#[test]
fn missing_versions_load_nothing() {
    let mut a = library(1, "one");
    let mut g = graph(50, "g", 3);
    g.records.push(VersionRecord { version: 2, info: empty_version(7) });
    g.records.push(VersionRecord { version: 2, info: empty_version(8) });
    a.insert_graph(g);
    assert_eq!(get_graph_version_from_library(&a, 50, 2).unwrap().format, 7);
    assert!(get_graph_version_from_library(&a, 50, 1).is_none());
    assert!(get_graph_version_from_library(&a, 51, 2).is_none());
    let mut c = Catalogue::new();
    c.load_default_libraries(vec![a]);
    let before = c.libraries.len();
    assert!(c.get_graph_version(&reference(50, 9)).is_none());
    assert!(c.get_graph_version(&reference(99, 2)).is_none());
    assert!(c.get_graph_version(&reference(LOG_GRAPH_ID, 1)).is_none());
    assert_eq!(c.get_graph_version(&reference(50, 2)).unwrap().format, 7);
    assert_eq!(c.libraries.len(), before);
}

#[test]
fn versions_are_those_found() {
    let mut a = library(1, "one");
    let mut g = graph(50, "g", 0);
    g.versions = vec![5];
    g.records.push(VersionRecord { version: 5, info: empty_version(3) });
    a.insert_graph(g);
    assert!(has_graph_version_from_library(&a, 50, 5));
    assert!(!has_graph_version_from_library(&a, 50, 1));
    assert_eq!(get_graph_version_from_library(&a, 50, 5).unwrap().format, 3);
    let mut c = Catalogue::new();
    c.load_default_libraries(vec![a]);
    assert!(c.has_graph_version(&reference(50, 5)));
    assert!(!c.has_graph_version(&reference(50, 1)));
    assert!(c.get_graph_version(&reference(50, 5)).is_some());
    assert!(c.get_graph_version(&reference(50, 1)).is_none());
}
