//! The client side of the live connection.
//!
//! A running application connects to the development server and reads
//! messages line by line. The reading and the parsing are the caller's;
//! what to do with each read is decided here: a real read error ends the
//! loop, a line that does not parse is skipped, a parsed message is handed
//! to the application's callback.
use vstd::prelude::*;

use crate::differ::PatchMessage;

verus! {

/// A message the hot reloading server sends to the client.
#[derive(Debug, PartialEq, Eq)]
pub enum HotReloadMsg {
    /// A template has been updated: apply the patch in place.
    UpdateTemplate(PatchMessage),
    /// An asset file has been updated: refetch the named asset.
    UpdateAsset(Vec<u8>),
    /// The program needs to be recompiled; the client should shut down.
    Shutdown,
}

/// What the connection loop does with one read.
#[derive(Debug, PartialEq, Eq)]
pub enum ConnectAction {
    /// Hand this message to the callback and keep reading.
    Deliver(HotReloadMsg),
    /// Nothing usable on this read: keep reading.
    Skip,
    /// The connection is gone: stop the loop.
    Stop,
}

/// Decides one round of the connection loop. A read error other than
/// would-block ends the loop; a line that yielded no message is skipped; a
/// parsed message is delivered.
pub fn connect_step(read_ok: bool, would_block: bool, msg: Option<HotReloadMsg>) -> (r:
    ConnectAction)
    ensures
        !read_ok && !would_block ==> r == ConnectAction::Stop,
        (read_ok || would_block) && msg is None ==> r == ConnectAction::Skip,
        (read_ok || would_block) ==> (msg matches Some(m) ==> r == ConnectAction::Deliver(m)),
{
    if !read_ok && !would_block {
        ConnectAction::Stop
    } else {
        match msg {
            Some(m) => ConnectAction::Deliver(m),
            None => ConnectAction::Skip,
        }
    }
}

} // verus!
