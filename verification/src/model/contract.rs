//! Contracts that transformers carry out.
use super::id::ContractId;
use super::resource::ResourceAmount;
use super::time::SimTime;
use vstd::prelude::*;

verus! {

#[derive(Debug, Clone, PartialEq, Eq)]
pub struct TransformerContract {
    pub id: ContractId,
    pub inputs: Vec<ResourceAmount>,
    pub outputs: Vec<ResourceAmount>,
    pub catalysts: Vec<ResourceAmount>,
    pub fuel: Vec<ResourceAmount>,
    pub duration: SimTime,
    pub deterministic: bool,
    pub parallelism: u32,
}

} // verus!
