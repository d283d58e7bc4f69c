//! The engine handle's routing logic.
//!
//! Other tasks push events into a running engine through a handle. A handle
//! may be unbound — not wired to a live engine — in which case every send is
//! a no-op reporting "not delivered". A client update is delivered only when
//! the client sits in a monitored channel; otherwise the handle asks the
//! engine for a refresh instead. The channel transport itself lives outside
//! this crate; the handle here decides, and the caller sends.

use crate::engine::contains_i64;
use crate::engine::ClientBasicInfo;
use vstd::prelude::*;

verus! {

/// Where one client update goes.
#[derive(Debug)]
pub enum SendRoute {
    /// The handle is unbound: nothing is sent, the caller learns "not
    /// delivered".
    NotDelivered,
    /// The client is outside every monitored channel: a refresh request is
    /// sent in place of the update, and the caller learns "not delivered".
    Refresh,
    /// The client is in a monitored channel: the update itself is sent.
    Deliver,
}

/// A handle to a running engine: the monitored channel set, fixed at
/// construction, and whether the handle is bound to a live engine.
pub struct AutoChannelInstance {
    pub channel_ids: Vec<i64>,
    pub bound: bool,
}

impl AutoChannelInstance {
    /// Make a handle; an unbound one is valid and inert.
    pub fn new(channel_ids: Vec<i64>, bound: bool) -> (r: Self)
        ensures
            r.channel_ids == channel_ids,
            r.bound == bound,
    {
        AutoChannelInstance { channel_ids, bound }
    }

    /// Whether the handle is wired to a live engine.
    pub fn valid(&self) -> (r: bool)
        ensures
            r == self.bound,
    {
        self.bound
    }

    /// Route one client update: unbound handles drop it, clients outside the
    /// monitored set become a refresh request, the rest are delivered.
    pub fn route_send(&self, view: &ClientBasicInfo) -> (r: SendRoute)
        ensures
            !self.bound ==> r matches SendRoute::NotDelivered,
            self.bound && !self.channel_ids@.contains(view.channel_id) ==> r
                matches SendRoute::Refresh,
            self.bound && self.channel_ids@.contains(view.channel_id) ==> r
                matches SendRoute::Deliver,
    {
        if !self.bound {
            SendRoute::NotDelivered
        } else if !contains_i64(&self.channel_ids, view.channel_id) {
            SendRoute::Refresh
        } else {
            SendRoute::Deliver
        }
    }
}

} // verus!
