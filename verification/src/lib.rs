//! Bit-level writers (and the receiver parser) for C-DIS, the compressed
//! encoding of Distributed Interactive Simulation PDUs.

pub mod acknowledge;
pub mod bits;
pub mod constants;
pub mod designator;
pub mod electromagnetic_emission;
pub mod parsing;
pub mod receiver;
pub mod records;
pub mod remove_entity;
pub mod signal;
pub mod transmitter;
pub mod types;
pub mod writing;

use vstd::prelude::*;
use crate::acknowledge::model::Acknowledge;
use crate::designator::model::Designator;
use crate::electromagnetic_emission::model::ElectromagneticEmission;
use crate::receiver::model::Receiver;
use crate::records::model::CdisHeader;
use crate::remove_entity::model::RemoveEntity;
use crate::signal::model::Signal;
use crate::transmitter::model::Transmitter;

verus! {

/// A C-DIS PDU: header and body.
#[derive(Clone, Debug, PartialEq, Eq)]
pub struct CdisPdu {
    pub header: CdisHeader,
    pub body: CdisBody,
}

/// The body of a C-DIS PDU, for the PDU types that can be written.
#[derive(Clone, Debug, PartialEq, Eq)]
pub enum CdisBody {
    /// A body of a type that is not supported: nothing is written for it.
    Unsupported,
    RemoveEntity(RemoveEntity),
    Acknowledge(Acknowledge),
    ElectromagneticEmission(ElectromagneticEmission),
    Designator(Designator),
    Transmitter(Transmitter),
    Signal(Signal),
    Receiver(Receiver),
}

} // verus!
