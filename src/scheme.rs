//! What a tree view of a decoded structure needs to draw an explicit or an application
//! tag node: the node, and which node is selected, if any.
use vstd::prelude::*;
use crate::asn1::{OwnedApplicationTag, OwnedExplicitTag};

verus! {

#[derive(Debug, PartialEq)]
pub struct ExplicitTagProps {
    pub node: OwnedExplicitTag,
    pub cur_node: Option<u64>,
}

#[derive(Debug, PartialEq)]
pub struct ApplicationTagProps {
    pub node: OwnedApplicationTag,
    pub cur_node: Option<u64>,
}

} // verus!
