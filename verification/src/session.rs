//! Client sessions.
//!
//! One session per live connection. A session subscribes to the reload bus
//! and the patch bus when it connects, forwards their events to its client
//! in order, and disconnects — terminally — when a send fails or the peer
//! closes. A reload is forwarded before pending patches: a reload renders
//! them moot.
use vstd::prelude::*;

use crate::builder::ReloadSignal;
use crate::bus::{Bus, Subscriber};
use crate::differ::PatchMessage;

verus! {

/// Where a session stands: forwarding, or gone for good.
#[derive(Debug, PartialEq, Eq)]
pub enum SessionState {
    /// Subscribed to both buses and forwarding their events.
    Connected,
    /// The connection ended; the session never comes back.
    Disconnected,
}

/// One message sent to a client over its live connection.
#[derive(Debug, PartialEq, Eq)]
pub enum OutboundMessage {
    /// Discard current patches and fully re-render.
    Reload,
    /// Apply each patch in place; order inside the batch carries no
    /// meaning, the locations are disjoint.
    Patch(Vec<PatchMessage>),
}

/// One client's forwarding loop state: its place on both buses.
pub struct ClientSession {
    /// Whether the session still forwards events.
    pub state: SessionState,
    /// The session's cursor on the reload bus.
    pub reload_sub: Subscriber,
    /// The session's cursor on the patch bus.
    pub patch_sub: Subscriber,
}

impl ClientSession {
    /// Whether the session still forwards events.
    pub open spec fn is_connected(&self) -> bool {
        self.state is Connected
    }

    /// Connects a new session: subscribed to both buses at their current
    /// ends, so it observes only events emitted after this call.
    pub fn connect(reload_bus: &Bus<ReloadSignal>, patch_bus: &Bus<Vec<PatchMessage>>) -> (r:
        ClientSession)
        ensures
            r.is_connected(),
            r.reload_sub.cursor == reload_bus@.len(),
            r.patch_sub.cursor == patch_bus@.len(),
    {
        ClientSession {
            state: SessionState::Connected,
            reload_sub: reload_bus.subscribe(),
            patch_sub: patch_bus.subscribe(),
        }
    }

    /// The next message to forward to the client: the next reload if one is
    /// pending — a reload renders pending patches moot — else the next
    /// patch batch, else nothing. A disconnected session forwards nothing,
    /// ever.
    pub fn next_outbound(
        &mut self,
        reload_bus: &Bus<ReloadSignal>,
        patch_bus: &Bus<Vec<PatchMessage>>,
    ) -> (r: Option<OutboundMessage>)
        ensures
            final(self).state == old(self).state,
            !old(self).is_connected() ==> r is None && final(self).reload_sub == old(
                self,
            ).reload_sub && final(self).patch_sub == old(self).patch_sub,
            old(self).is_connected() && old(self).reload_sub.cursor < reload_bus@.len() ==> (r
                == Some(OutboundMessage::Reload) && final(self).reload_sub.cursor == old(
                self,
            ).reload_sub.cursor + 1 && final(self).patch_sub == old(self).patch_sub),
            old(self).is_connected() && old(self).reload_sub.cursor >= reload_bus@.len() && old(
                self,
            ).patch_sub.cursor < patch_bus@.len() ==> (r matches Some(
                OutboundMessage::Patch(batch),
            ) && batch@.len() == patch_bus@[old(self).patch_sub.cursor as int]@.len() && (
            forall|i: int|
                0 <= i < batch@.len() ==> batch@[i]@ == patch_bus@[old(
                    self,
                ).patch_sub.cursor as int]@[i]@) && final(self).patch_sub.cursor == old(
                self,
            ).patch_sub.cursor + 1 && final(self).reload_sub == old(self).reload_sub),
            old(self).is_connected() && old(self).reload_sub.cursor >= reload_bus@.len() && old(
                self,
            ).patch_sub.cursor >= patch_bus@.len() ==> (r is None && final(self).reload_sub == old(
                self,
            ).reload_sub && final(self).patch_sub == old(self).patch_sub),
    {
        match self.state {
            SessionState::Disconnected => None,
            SessionState::Connected => {
                match reload_bus.recv(&mut self.reload_sub) {
                    Some(_) => Some(OutboundMessage::Reload),
                    None => {
                        match patch_bus.recv(&mut self.patch_sub) {
                            Some(batch) => Some(
                                OutboundMessage::Patch(duplicate_patches(batch)),
                            ),
                            None => None,
                        }
                    },
                }
            },
        }
    }

    /// Records the result of one write to the client socket: a failed send
    /// ends the session, and a session once disconnected never reconnects —
    /// a later connection is a new session.
    pub fn note_send_result(&mut self, ok: bool)
        ensures
            final(self).reload_sub == old(self).reload_sub,
            final(self).patch_sub == old(self).patch_sub,
            ok ==> final(self).state == old(self).state,
            !ok ==> !final(self).is_connected(),
    {
        if !ok {
            self.state = SessionState::Disconnected;
        }
    }
}

/// Copies a patch batch for one client, entry for entry.
pub fn duplicate_patches(batch: &Vec<PatchMessage>) -> (r: Vec<PatchMessage>)
    ensures
        r@.len() == batch@.len(),
        forall|i: int| 0 <= i < r@.len() ==> r@[i]@ == batch@[i]@,
{
    let mut r: Vec<PatchMessage> = Vec::new();
    let mut i: usize = 0;
    while i < batch.len()
        invariant
            0 <= i <= batch@.len(),
            r@.len() == i,
            forall|j: int| 0 <= j < i ==> r@[j]@ == batch@[j]@,
        decreases batch@.len() - i,
    {
        let m = &batch[i];
        let file = m.location.file.clone();
        let new_text = m.new_text.clone();
        proof {
            assert(file@ =~= m.location.file@);
            assert(new_text@ =~= m.new_text@);
        }
        let copy = PatchMessage {
            location: crate::location::LocationId {
                file,
                line: m.location.line,
                col: m.location.col,
            },
            new_text,
        };
        proof {
            assert(copy@ == batch@[i as int]@);
        }
        r.push(copy);
        i += 1;
    }
    r
}

} // verus!
