//! Resource filters and gate expressions.
use super::id::ResourceId;
use super::resource::Amount;
use vstd::prelude::*;

verus! {

/// Which resources a node or edge lets through.
#[derive(Debug, Clone, PartialEq, Eq, Hash)]
pub enum ResourceFilter {
    Any,
    Exact(ResourceId),
    OneOf(Vec<ResourceId>),
    Nothing,
}

/// Whether `ids` lists `resource`.
pub open spec fn listed(ids: Seq<ResourceId>, resource: ResourceId) -> bool {
    exists|i: int| #![trigger ids[i]] 0 <= i < ids.len() && ids[i].0@ == resource.0@
}

fn lists_id(ids: &Vec<ResourceId>, resource: &ResourceId) -> (b: bool)
    ensures
        b == listed(ids@, *resource),
{
    let n = ids.len();
    let mut i: usize = 0;
    while i < n
        invariant
            n == ids@.len(),
            i <= n,
            forall|j: int| 0 <= j < i ==> ids@[j].0@ != resource.0@,
        decreases n - i,
    {
        if ids[i].0 == resource.0 {
            assert(ids@[i as int].0@ == resource.0@);
            return true;
        }
        i = i + 1;
    }
    false
}

/// `OneOf` lets a resource through exactly when an id it lists, at any
/// position, is that resource's: every listed id passes, and a resource that
/// no listed id names does not.
pub proof fn lemma_one_of_admits_exactly_listed(ids: Vec<ResourceId>, resource: ResourceId)
    ensures
        forall|i: int|
            0 <= i < ids@.len() ==> #[trigger] ResourceFilter::OneOf(ids).admits(&ids@[i]),
        (forall|i: int| 0 <= i < ids@.len() ==> #[trigger] ids@[i].0@ != resource.0@)
            ==> !ResourceFilter::OneOf(ids).admits(&resource),
{
    assert forall|i: int| 0 <= i < ids@.len() implies #[trigger] ResourceFilter::OneOf(
        ids,
    ).admits(&ids@[i]) by {
        assert(ids@[i].0@ == ids@[i].0@);
    }
}

impl ResourceFilter {
    /// Whether the filter lets `resource` through: `Any` lets every resource
    /// through, `Exact` the one it names, `OneOf` those it lists, `Nothing` none.
    pub open spec fn admits(&self, resource: &ResourceId) -> bool {
        match self {
            ResourceFilter::Any => true,
            ResourceFilter::Exact(id) => id.0@ == resource.0@,
            ResourceFilter::OneOf(ids) => listed(ids@, *resource),
            ResourceFilter::Nothing => false,
        }
    }

    pub fn matches(&self, resource: &ResourceId) -> (b: bool)
        ensures
            b == self.admits(resource),
    {
        match self {
            ResourceFilter::Any => true,
            ResourceFilter::Exact(id) => id.0 == resource.0,
            ResourceFilter::OneOf(ids) => lists_id(ids, resource),
            ResourceFilter::Nothing => false,
        }
    }
}

/// A condition on resource stocks that opens or closes a gate.
#[derive(Debug, PartialEq, Eq)]
pub enum GateExpr {
    Always,
    ResourceAtLeast(ResourceId, Amount),
    ResourceBelow(ResourceId, Amount),
    And(Box<GateExpr>, Box<GateExpr>),
    Or(Box<GateExpr>, Box<GateExpr>),
    Not(Box<GateExpr>),
}

/// A copy of a gate expression, equal to it.
pub fn clone_gate(g: &GateExpr) -> (c: GateExpr)
    ensures
        c == *g,
    decreases g,
{
    match g {
        GateExpr::Always => GateExpr::Always,
        GateExpr::ResourceAtLeast(id, a) => GateExpr::ResourceAtLeast(id.clone(), *a),
        GateExpr::ResourceBelow(id, a) => GateExpr::ResourceBelow(id.clone(), *a),
        GateExpr::And(a, b) => GateExpr::And(Box::new(clone_gate(a)), Box::new(clone_gate(b))),
        GateExpr::Or(a, b) => GateExpr::Or(Box::new(clone_gate(a)), Box::new(clone_gate(b))),
        GateExpr::Not(a) => GateExpr::Not(Box::new(clone_gate(a))),
    }
}

impl Clone for GateExpr {
    fn clone(&self) -> (c: Self)
        ensures
            c == *self,
    {
        clone_gate(self)
    }
}

} // verus!
