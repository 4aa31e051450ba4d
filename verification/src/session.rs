//! The shared session state: the framework identity and the stream token.
//!
//! One `Session` lives for the whole client. The event-stream side writes
//! both fields (the identity on a `Subscribed` event, the token on a
//! successful resubscribe) while any number of outbound callers read them
//! concurrently. Each field sits behind its own verified reader-writer lock
//! from `vstd`, so a reader always observes a complete value — never a torn
//! one — and no operation ever holds two locks at once, so no deadlock is
//! possible.
//!
//! The locks make the stored values opaque to contracts: what a read returns
//! depends on concurrent writers. The exact behaviour of the call builders is
//! therefore stated over whatever complete identity the read produced; see
//! the client module.

use crate::messages::FrameworkID;
use vstd::prelude::*;
use vstd::rwlock::RwLock;
use vstd::slice::slice_to_vec;

verus! {

/// Shared identity and token, each guarded independently.
pub struct Session {
    framework_id: RwLock<Option<FrameworkID>, spec_fn(Option<FrameworkID>) -> bool>,
    stream_token: RwLock<Option<Vec<u8>>, spec_fn(Option<Vec<u8>>) -> bool>,
}

impl Session {
    /// Validity: both locks admit every value, so any context may read or
    /// write them.
    pub closed spec fn wf(&self) -> bool {
        (forall|v: Option<FrameworkID>| self.framework_id.inv(v)) && (forall|v: Option<Vec<u8>>|
            self.stream_token.inv(v))
    }

    /// A fresh session: no identity assigned, no stream token.
    pub fn new(framework_id: Option<FrameworkID>) -> (r: Session)
        ensures
            r.wf(),
    {
        let r = Session {
            framework_id: RwLock::new(framework_id, Ghost(|v: Option<FrameworkID>| true)),
            stream_token: RwLock::new(None, Ghost(|v: Option<Vec<u8>>| true)),
        };
        proof {
            assert forall|v: Option<FrameworkID>| r.framework_id.inv(v) by {}
            assert forall|v: Option<Vec<u8>>| r.stream_token.inv(v) by {}
        }
        r
    }

    /// Reads the current framework identity: some complete value that was
    /// stored, or nothing if none has been stored yet.
    pub fn get_framework_id(&self) -> Option<FrameworkID>
        requires
            self.wf(),
    {
        let handle = self.framework_id.acquire_read();
        let r = match handle.borrow() {
            Some(f) => Some(f.duplicate()),
            None => None,
        };
        handle.release_read();
        r
    }

    /// Stores the framework identity; the sole writer is the event side, on
    /// a `Subscribed` event.
    pub fn set_framework_id(&self, framework_id: Option<FrameworkID>)
        requires
            self.wf(),
    {
        let (_, handle) = self.framework_id.acquire_write();
        handle.release_write(framework_id);
    }

    /// Reads the current stream token.
    pub fn get_stream_token(&self) -> Option<Vec<u8>>
        requires
            self.wf(),
    {
        let handle = self.stream_token.acquire_read();
        let r = match handle.borrow() {
            Some(t) => Some(slice_to_vec(t.as_slice())),
            None => None,
        };
        handle.release_read();
        r
    }

    /// Replaces the stream token; cleared on each new subscribe, set from
    /// the response's session header on success, never merged.
    pub fn set_stream_token(&self, token: Option<Vec<u8>>)
        requires
            self.wf(),
    {
        let (_, handle) = self.stream_token.acquire_write();
        handle.release_write(token);
    }
}

} // verus!
