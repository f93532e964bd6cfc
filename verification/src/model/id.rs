//! Typed identifiers of the model's entities.
use vstd::prelude::*;
use vstd::std_specs::convert::FromSpecImpl;

verus! {

/// The identifier of a space.
#[derive(Debug, PartialEq, Eq, Hash)]
pub struct SpaceId(pub String);

impl SpaceId {
    /// The identifier spelled `s`.
    pub fn new(s: &str) -> (id: Self)
        ensures
            id.0@ == s@,
    {
        SpaceId(s.to_owned())
    }
}

impl Clone for SpaceId {
    fn clone(&self) -> (c: Self)
        ensures
            c == *self,
    {
        SpaceId(self.0.clone())
    }
}

impl From<String> for SpaceId {
    fn from(s: String) -> (id: Self) {
        SpaceId(s)
    }
}

impl<'a> From<&'a str> for SpaceId {
    /// The identifier spelled `s`.
    fn from(s: &'a str) -> (id: Self)
        ensures
            id.0@ == s@,
    {
        SpaceId(s.to_owned())
    }
}

/// No `String` value can be named from a `&str` in a specification, so the
/// conversion from `&str` states what it gives in its own `ensures`.
impl<'a> FromSpecImpl<&'a str> for SpaceId {
    open spec fn obeys_from_spec() -> bool {
        false
    }

    open spec fn from_spec(s: &'a str) -> Self {
        SpaceId(arbitrary())
    }
}

impl FromSpecImpl<String> for SpaceId {
    open spec fn obeys_from_spec() -> bool {
        true
    }

    open spec fn from_spec(s: String) -> Self {
        SpaceId(s)
    }
}

/// The identifier of a node.
#[derive(Debug, PartialEq, Eq, Hash)]
pub struct NodeId(pub String);

impl NodeId {
    /// The identifier spelled `s`.
    pub fn new(s: &str) -> (id: Self)
        ensures
            id.0@ == s@,
    {
        NodeId(s.to_owned())
    }
}

impl Clone for NodeId {
    fn clone(&self) -> (c: Self)
        ensures
            c == *self,
    {
        NodeId(self.0.clone())
    }
}

impl From<String> for NodeId {
    fn from(s: String) -> (id: Self) {
        NodeId(s)
    }
}

impl<'a> From<&'a str> for NodeId {
    /// The identifier spelled `s`.
    fn from(s: &'a str) -> (id: Self)
        ensures
            id.0@ == s@,
    {
        NodeId(s.to_owned())
    }
}

/// No `String` value can be named from a `&str` in a specification, so the
/// conversion from `&str` states what it gives in its own `ensures`.
impl<'a> FromSpecImpl<&'a str> for NodeId {
    open spec fn obeys_from_spec() -> bool {
        false
    }

    open spec fn from_spec(s: &'a str) -> Self {
        NodeId(arbitrary())
    }
}

impl FromSpecImpl<String> for NodeId {
    open spec fn obeys_from_spec() -> bool {
        true
    }

    open spec fn from_spec(s: String) -> Self {
        NodeId(s)
    }
}

/// The identifier of an edge.
#[derive(Debug, PartialEq, Eq, Hash)]
pub struct EdgeId(pub String);

impl EdgeId {
    /// The identifier spelled `s`.
    pub fn new(s: &str) -> (id: Self)
        ensures
            id.0@ == s@,
    {
        EdgeId(s.to_owned())
    }
}

impl Clone for EdgeId {
    fn clone(&self) -> (c: Self)
        ensures
            c == *self,
    {
        EdgeId(self.0.clone())
    }
}

impl From<String> for EdgeId {
    fn from(s: String) -> (id: Self) {
        EdgeId(s)
    }
}

impl<'a> From<&'a str> for EdgeId {
    /// The identifier spelled `s`.
    fn from(s: &'a str) -> (id: Self)
        ensures
            id.0@ == s@,
    {
        EdgeId(s.to_owned())
    }
}

/// No `String` value can be named from a `&str` in a specification, so the
/// conversion from `&str` states what it gives in its own `ensures`.
impl<'a> FromSpecImpl<&'a str> for EdgeId {
    open spec fn obeys_from_spec() -> bool {
        false
    }

    open spec fn from_spec(s: &'a str) -> Self {
        EdgeId(arbitrary())
    }
}

impl FromSpecImpl<String> for EdgeId {
    open spec fn obeys_from_spec() -> bool {
        true
    }

    open spec fn from_spec(s: String) -> Self {
        EdgeId(s)
    }
}

/// The identifier of a resource.
#[derive(Debug, PartialEq, Eq, Hash)]
pub struct ResourceId(pub String);

impl ResourceId {
    /// The identifier spelled `s`.
    pub fn new(s: &str) -> (id: Self)
        ensures
            id.0@ == s@,
    {
        ResourceId(s.to_owned())
    }
}

impl Clone for ResourceId {
    fn clone(&self) -> (c: Self)
        ensures
            c == *self,
    {
        ResourceId(self.0.clone())
    }
}

impl From<String> for ResourceId {
    fn from(s: String) -> (id: Self) {
        ResourceId(s)
    }
}

impl<'a> From<&'a str> for ResourceId {
    /// The identifier spelled `s`.
    fn from(s: &'a str) -> (id: Self)
        ensures
            id.0@ == s@,
    {
        ResourceId(s.to_owned())
    }
}

/// No `String` value can be named from a `&str` in a specification, so the
/// conversion from `&str` states what it gives in its own `ensures`.
impl<'a> FromSpecImpl<&'a str> for ResourceId {
    open spec fn obeys_from_spec() -> bool {
        false
    }

    open spec fn from_spec(s: &'a str) -> Self {
        ResourceId(arbitrary())
    }
}

impl FromSpecImpl<String> for ResourceId {
    open spec fn obeys_from_spec() -> bool {
        true
    }

    open spec fn from_spec(s: String) -> Self {
        ResourceId(s)
    }
}

/// The identifier of a transformer contract.
#[derive(Debug, PartialEq, Eq, Hash)]
pub struct ContractId(pub String);

impl ContractId {
    /// The identifier spelled `s`.
    pub fn new(s: &str) -> (id: Self)
        ensures
            id.0@ == s@,
    {
        ContractId(s.to_owned())
    }
}

impl Clone for ContractId {
    fn clone(&self) -> (c: Self)
        ensures
            c == *self,
    {
        ContractId(self.0.clone())
    }
}

impl From<String> for ContractId {
    fn from(s: String) -> (id: Self) {
        ContractId(s)
    }
}

impl<'a> From<&'a str> for ContractId {
    /// The identifier spelled `s`.
    fn from(s: &'a str) -> (id: Self)
        ensures
            id.0@ == s@,
    {
        ContractId(s.to_owned())
    }
}

/// No `String` value can be named from a `&str` in a specification, so the
/// conversion from `&str` states what it gives in its own `ensures`.
impl<'a> FromSpecImpl<&'a str> for ContractId {
    open spec fn obeys_from_spec() -> bool {
        false
    }

    open spec fn from_spec(s: &'a str) -> Self {
        ContractId(arbitrary())
    }
}

impl FromSpecImpl<String> for ContractId {
    open spec fn obeys_from_spec() -> bool {
        true
    }

    open spec fn from_spec(s: String) -> Self {
        ContractId(s)
    }
}

/// The identifier of a gate.
#[derive(Debug, PartialEq, Eq, Hash)]
pub struct GateId(pub String);

impl GateId {
    /// The identifier spelled `s`.
    pub fn new(s: &str) -> (id: Self)
        ensures
            id.0@ == s@,
    {
        GateId(s.to_owned())
    }
}

impl Clone for GateId {
    fn clone(&self) -> (c: Self)
        ensures
            c == *self,
    {
        GateId(self.0.clone())
    }
}

impl From<String> for GateId {
    fn from(s: String) -> (id: Self) {
        GateId(s)
    }
}

impl<'a> From<&'a str> for GateId {
    /// The identifier spelled `s`.
    fn from(s: &'a str) -> (id: Self)
        ensures
            id.0@ == s@,
    {
        GateId(s.to_owned())
    }
}

/// No `String` value can be named from a `&str` in a specification, so the
/// conversion from `&str` states what it gives in its own `ensures`.
impl<'a> FromSpecImpl<&'a str> for GateId {
    open spec fn obeys_from_spec() -> bool {
        false
    }

    open spec fn from_spec(s: &'a str) -> Self {
        GateId(arbitrary())
    }
}

impl FromSpecImpl<String> for GateId {
    open spec fn obeys_from_spec() -> bool {
        true
    }

    open spec fn from_spec(s: String) -> Self {
        GateId(s)
    }
}

} // verus!
