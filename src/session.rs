use vstd::prelude::*;

use crate::endpoint::ProxyConnection;

verus! {

/// The one-shot slot that holds the sender of a granted data channel: empty,
/// or armed with one sender that can be taken once.
pub struct DataSlot<T> {
    sender: Option<T>,
}

impl<T> View for DataSlot<T> {
    type V = Option<T>;

    closed spec fn view(&self) -> Option<T> {
        self.sender
    }
}

impl<T> DataSlot<T> {
    pub fn empty() -> (r: DataSlot<T>)
        ensures
            r@ is None,
    {
        DataSlot { sender: None }
    }

    /// Arms the slot with the sender of a newly granted data channel.
    pub fn arm(&mut self, sender: T)
        ensures
            final(self)@ == Some(sender),
    {
        self.sender = Some(sender);
    }

    pub fn is_armed(&self) -> (r: bool)
        ensures
            r == self@ is Some,
    {
        self.sender.is_some()
    }

    /// Takes the sender out; the slot is empty afterwards.
    pub fn take(&mut self) -> (r: Option<T>)
        ensures
            r == old(self)@,
            final(self)@ is None,
    {
        self.sender.take()
    }
}

/// What the control loop asks of the data handler.
pub enum DataChanCmd {
    /// Store the upload at this path.
    StoreAtPath { path: String },
}

/// Per-client state shared by the control loop and the router.
pub struct Session<T> {
    /// Current working directory.
    pub cwd: String,
    pub data_slot: DataSlot<T>,
    /// The proxied control connection of this session.
    pub control: Option<ProxyConnection>,
    /// The data connection currently bound to this session, if any.
    pub active_datachan: Option<ProxyConnection>,
}

/// The abstract state of a session.
pub struct SessionView<T> {
    pub cwd: Seq<char>,
    pub data_slot: Option<T>,
    pub control: Option<ProxyConnection>,
    pub active_datachan: Option<ProxyConnection>,
}

impl<T> View for Session<T> {
    type V = SessionView<T>;

    open spec fn view(&self) -> SessionView<T> {
        SessionView {
            cwd: self.cwd@,
            data_slot: self.data_slot@,
            control: self.control,
            active_datachan: self.active_datachan,
        }
    }
}

impl<T> Session<T> {
    pub fn new(cwd: String, control: Option<ProxyConnection>) -> (r: Session<T>)
        ensures
            r.cwd == cwd,
            r.data_slot@ is None,
            r.control == control,
            r.active_datachan is None,
    {
        Session { cwd, data_slot: DataSlot::empty(), control, active_datachan: None }
    }
}

} // verus!
