//! The graph data model: pin descriptors, graph references, and the records
//! that describe a version of a graph.
use vstd::prelude::*;
use crate::ids::Id;
use crate::value::{Value, clone_opt_value};

verus! {

/// Information about a pin.
pub struct PinInfo {
    /// The name of this pin.
    pub name: String,
    /// The id of this pin within the graph version that declares it.
    pub uuid: Id,
    /// The pin's datatype tag.
    pub datatype: String,
    /// Whether or not the user can type a constant directly into this input.
    pub valuable: Option<bool>,
    /// If it exists and is greater than 1, how many dimensions the matrix is.
    pub dimensions: Option<u16>,
    /// Whether or not many pins represent this one input as an array.
    pub expandable: Option<bool>,
}

impl Clone for PinInfo {
    fn clone(&self) -> (r: Self)
        ensures
            r == *self,
    {
        PinInfo {
            name: self.name.clone(),
            uuid: self.uuid,
            datatype: self.datatype.clone(),
            valuable: self.valuable,
            dimensions: self.dimensions,
            expandable: self.expandable,
        }
    }
}

impl PinInfo {
    /// A pin descriptor without any of the optional flags.
    pub fn new_basic(name: String, uuid: Id, datatype: String) -> (r: Self)
        ensures
            r == (PinInfo {
                name,
                uuid,
                datatype,
                valuable: None,
                dimensions: None,
                expandable: None,
            }),
    {
        PinInfo { name, uuid, datatype, valuable: None, dimensions: None, expandable: None }
    }

    /// A pin descriptor with every flag given.
    pub fn new_extended(
        name: String,
        uuid: Id,
        datatype: String,
        valuable: Option<bool>,
        dimensions: Option<u16>,
        expandable: Option<bool>,
    ) -> (r: Self)
        ensures
            r == (PinInfo { name, uuid, datatype, valuable, dimensions, expandable }),
    {
        PinInfo { name, uuid, datatype, valuable, dimensions, expandable }
    }
}

/// Reference to a graph version. A blank library means the library of the
/// enclosing context.
pub struct GraphRef {
    pub name: String,
    pub uuid: Id,
    pub library: Option<Id>,
    pub version: u64,
}

impl Clone for GraphRef {
    fn clone(&self) -> (r: Self)
        ensures
            r == *self,
    {
        GraphRef {
            name: self.name.clone(),
            uuid: self.uuid,
            library: self.library,
            version: self.version,
        }
    }
}

/// A named value that a node holds outside its pins.
pub struct Datum {
    pub name: String,
    pub value: Value,
}

/// A node placed in a graph version.
pub struct NodeInfo {
    /// The id of this individual instance of the node.
    pub uuid: Id,
    /// Whatever the node needs to hold that is not on a pin.
    pub data: Option<Vec<Datum>>,
    /// The graph that this node instance represents.
    pub graph: GraphRef,
}

/// Reference to a pin within the graph.
pub struct PinRef {
    /// The node this pin references.
    pub node: Id,
    /// The pin this reference targets.
    pub pin: Option<Id>,
    /// A built-in property of the node this reference targets.
    pub property: Option<String>,
    /// Whether this pin caches its value; absent means it does.
    pub cache: Option<bool>,
    /// A direct value input from the user.
    pub value: Option<Value>,
}

impl Clone for PinRef {
    fn clone(&self) -> (r: Self)
        ensures
            r == *self,
    {
        PinRef {
            node: self.node,
            pin: self.pin,
            property: match &self.property {
                Some(p) => Some(p.clone()),
                None => None,
            },
            cache: self.cache,
            value: clone_opt_value(&self.value),
        }
    }
}

/// References to two connected pins.
pub struct ConnectionInfo {
    pub receives: Option<PinRef>,
    pub sends: Option<PinRef>,
    pub output: Option<PinRef>,
    pub input: Option<PinRef>,
}

/// Information about a given version of a graph.
pub struct VersionInfo {
    pub format: u16,
    pub receives: Vec<PinInfo>,
    pub sends: Vec<PinInfo>,
    pub inputs: Vec<PinInfo>,
    pub outputs: Vec<PinInfo>,
    pub nodes: Vec<NodeInfo>,
    pub connections: Vec<ConnectionInfo>,
}

/// Information about a graph as a whole, regardless of version.
pub struct GraphInfo {
    pub name: String,
    pub uuid: Id,
    pub format: u16,
}

impl Clone for GraphInfo {
    fn clone(&self) -> (r: Self)
        ensures
            r == *self,
    {
        GraphInfo { name: self.name.clone(), uuid: self.uuid, format: self.format }
    }
}

} // verus!
