//! Node identifiers, used for hit-testing and event routing.
use vstd::prelude::*;

verus! {

/// Unique identifier for a node, used for hit-testing and event routing
#[derive(Debug, Eq, Hash)]
pub struct NodeId(String);

impl View for NodeId {
    type V = Seq<char>;

    closed spec fn view(&self) -> Seq<char> {
        self.0@
    }
}

impl NodeId {
    /// Create a new NodeId from a string
    pub fn new(id: &str) -> (r: Self)
        ensures
            r@ == id@,
    {
        NodeId(id.to_owned())
    }

    /// Get the ID as a string slice
    pub fn as_str(&self) -> (r: &str)
        ensures
            r@ == self@,
    {
        self.0.as_str()
    }
}

impl Clone for NodeId {
    fn clone(&self) -> (r: Self)
        ensures
            r@ == self@,
    {
        NodeId(self.0.clone())
    }
}

impl PartialEq for NodeId {
    fn eq(&self, other: &Self) -> (r: bool) {
        self.0 == other.0
    }
}

impl vstd::std_specs::cmp::PartialEqSpecImpl for NodeId {
    open spec fn obeys_eq_spec() -> bool {
        true
    }

    open spec fn eq_spec(&self, other: &NodeId) -> bool {
        self@ == other@
    }
}

impl From<&str> for NodeId {
    fn from(s: &str) -> (r: Self)
        ensures
            r@ == s@,
    {
        NodeId(s.to_owned())
    }
}

impl vstd::std_specs::convert::FromSpecImpl<&str> for NodeId {
    open spec fn obeys_from_spec() -> bool {
        false
    }

    closed spec fn from_spec(v: &str) -> NodeId {
        choose|n: NodeId| n@ == v@
    }
}

impl From<String> for NodeId {
    fn from(s: String) -> (r: Self)
        ensures
            r@ == s@,
    {
        NodeId(s)
    }
}

impl vstd::std_specs::convert::FromSpecImpl<String> for NodeId {
    open spec fn obeys_from_spec() -> bool {
        true
    }

    closed spec fn from_spec(v: String) -> NodeId {
        NodeId(v)
    }
}

/// The identifier text of an optional node identifier.
pub open spec fn opt_id_view(o: Option<NodeId>) -> Option<Seq<char>> {
    match o {
        Some(n) => Some(n@),
        None => None,
    }
}

} // verus!
