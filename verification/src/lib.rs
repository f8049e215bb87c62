//! Administration of CUPS printers and classes: the argument parsers, the
//! option and access-control models, the IPP request builders and the
//! command planner, each with its contract.
pub mod text;
pub mod access_control;
pub mod options;
pub mod ipp;
pub mod cli;

use vstd::prelude::*;

verus! {

} // verus!
