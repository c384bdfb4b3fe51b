//! Client API surface: `connect`, object creation and update, and intents.
use vstd::prelude::*;

verus! {

#[derive(Debug, Clone, Copy, PartialEq, Eq, Hash, Structural)]
pub struct ObjectId(pub u128);

#[derive(Debug)]
pub enum SdkError {
    NotConnected,
    Transport(String),
}

pub type SdkResult<T> = Result<T, SdkError>;

/// A connection to an Aether node. No transport is wired in yet: a client
/// is connected from the moment `connect` returns it.
pub struct AetherClient {
    connected: bool,
}

impl AetherClient {
    /// Whether the client holds a live connection.
    pub closed spec fn is_connected(&self) -> bool {
        self.connected
    }

    /// Connect to the node at `endpoint`. Always succeeds for now.
    pub fn connect(endpoint: &str) -> (r: SdkResult<Self>)
        ensures
            r matches Ok(c) && c.is_connected(),
    {
        Ok(Self { connected: true })
    }

    /// The id of a newly created object under `parent`: the object is not
    /// published yet, so every new object gets id 0. Fails with
    /// `NotConnected` when the client is not connected.
    pub fn create_object_id(&self, parent: Option<ObjectId>) -> (r: SdkResult<ObjectId>)
        ensures
            self.is_connected() ==> (r matches Ok(id) && id == ObjectId(0)),
            !self.is_connected() ==> r matches Err(SdkError::NotConnected),
    {
        if !self.connected {
            return Err(SdkError::NotConnected);
        }
        Ok(ObjectId(0))
    }

    /// Accept an update of object `id`. Fails with `NotConnected` when the
    /// client is not connected.
    pub fn update_object_id(&self, id: ObjectId) -> (r: SdkResult<()>)
        ensures
            self.is_connected() ==> r is Ok,
            !self.is_connected() ==> r matches Err(SdkError::NotConnected),
    {
        if !self.connected {
            return Err(SdkError::NotConnected);
        }
        Ok(())
    }

    /// Forward a natural-language intent. Fails with `NotConnected` when the
    /// client is not connected.
    pub fn send_intent(&self, text: &str) -> (r: SdkResult<()>)
        ensures
            self.is_connected() ==> r is Ok,
            !self.is_connected() ==> r matches Err(SdkError::NotConnected),
    {
        if !self.connected {
            return Err(SdkError::NotConnected);
        }
        Ok(())
    }
}

} // verus!
