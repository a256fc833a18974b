//! Adapters around a stream of DCP items.
use vstd::prelude::*;

use crate::checkpoint_runtime::{registration, CheckpointCoordinator, TrackedEvent};
use crate::collections::{decoration, CollectionRegistry};
use crate::error::Result;
use crate::protocol::Frame;
use crate::stream::DcpStreamItem;

verus! {

/// Item emitted by a checkpoint-aware adapter around a DCP stream.
#[derive(Debug)]
#[non_exhaustive]
pub enum CheckpointStreamItem {
    /// DCP event with explicit processed-ACK ownership.
    Event(TrackedEvent),
    /// Raw cluster configuration notification.
    TopologyConfig {
        /// Peer that supplied the configuration.
        source: String,
        /// Raw configuration payload.
        payload: Vec<u8>,
    },
    /// Future server request retained for forward compatibility.
    Unknown(Frame),
}

impl CheckpointCoordinator {
    /// Registers the event of an item before it is yielded; every other item
    /// passes unchanged.
    pub fn wrap(&mut self, item: DcpStreamItem) -> (result: Result<CheckpointStreamItem>)
        ensures
            match item {
                DcpStreamItem::Event(event) => match result {
                    Ok(CheckpointStreamItem::Event(taken)) => registration(
                        old(self)@,
                        final(self)@,
                        event,
                        Ok(taken),
                    ),
                    Ok(_) => false,
                    Err(e) => registration(old(self)@, final(self)@, event, Err(e)),
                },
                DcpStreamItem::TopologyConfig { source, payload } => {
                    &&& *final(self) == *old(self)
                    &&& result is Ok
                    &&& result->Ok_0 == (CheckpointStreamItem::TopologyConfig { source, payload })
                },
                DcpStreamItem::Unknown(frame) => {
                    &&& *final(self) == *old(self)
                    &&& result is Ok
                    &&& result->Ok_0 == CheckpointStreamItem::Unknown(frame)
                },
            },
    {
        match item {
            DcpStreamItem::Event(event) => match self.track_event(event) {
                Ok(taken) => Ok(CheckpointStreamItem::Event(taken)),
                Err(e) => Err(e),
            },
            DcpStreamItem::TopologyConfig { source, payload } => Ok(
                CheckpointStreamItem::TopologyConfig { source, payload },
            ),
            DcpStreamItem::Unknown(frame) => Ok(CheckpointStreamItem::Unknown(frame)),
        }
    }
}

impl CollectionRegistry {
    /// Decorates the event of an item before it is yielded; every other item
    /// passes unchanged.
    pub fn wrap(&mut self, item: DcpStreamItem) -> (result: Result<DcpStreamItem>)
        ensures
            match item {
                DcpStreamItem::Event(event) => match result {
                    Ok(DcpStreamItem::Event(shown)) => decoration(
                        *old(self),
                        *final(self),
                        event,
                        Ok(shown),
                    ),
                    Ok(_) => false,
                    Err(e) => decoration(*old(self), *final(self), event, Err(e)),
                },
                _ => {
                    &&& *final(self) == *old(self)
                    &&& result is Ok
                    &&& result->Ok_0 == item
                },
            },
    {
        match item {
            DcpStreamItem::Event(event) => match self.decorate(event) {
                Ok(shown) => Ok(DcpStreamItem::Event(shown)),
                Err(e) => Err(e),
            },
            other => Ok(other),
        }
    }
}

} // verus!
