//! Handles to an open container. The decision logic lives here; actually
//! sending the close or click to a server is the surrounding runtime's
//! work, driven by the action values these handles return.

use vstd::prelude::*;

verus! {

/// A request to close the container with the given id; handed to the
/// runtime that owns the transport.
#[derive(Debug, Clone, Copy, PartialEq, Eq, Structural)]
pub struct CloseContainerEvent {
    pub id: i32,
}

/// A handle to a container that may be open; dropping it does not close
/// the container.
#[derive(Debug, Clone, Copy, PartialEq, Eq, Structural)]
pub struct ContainerHandleRef {
    id: i32,
}

impl ContainerHandleRef {
    /// The container id this handle refers to.
    pub closed spec fn id_view(&self) -> i32 {
        self.id
    }

    /// A handle to the container with the given id.
    pub fn new(id: i32) -> (r: Self)
        ensures
            r.id_view() == id,
    {
        ContainerHandleRef { id }
    }

    /// The id of the container. Zero means the player's own inventory;
    /// any other number only distinguishes the one open container.
    pub fn id(&self) -> (r: i32)
        ensures
            r == self.id_view(),
    {
        self.id
    }

    /// The close request for this container, for the runtime to send.
    pub fn close(&self) -> (r: CloseContainerEvent)
        ensures
            r.id == self.id_view(),
    {
        CloseContainerEvent { id: self.id }
    }
}

/// A handle to the open container that is meant to be closed when its
/// holder is done with it.
#[derive(Debug, Clone, Copy, PartialEq, Eq, Structural)]
pub struct ContainerHandle {
    inner: ContainerHandleRef,
}

impl ContainerHandle {
    /// The container id this handle refers to.
    pub closed spec fn id_view(&self) -> i32 {
        self.inner.id_view()
    }

    /// A handle to the container with the given id.
    pub fn new(id: i32) -> (r: Self)
        ensures
            r.id_view() == id,
    {
        ContainerHandle { inner: ContainerHandleRef::new(id) }
    }

    /// The id of the container. Zero means the player's own inventory.
    pub fn id(&self) -> (r: i32)
        ensures
            r == self.id_view(),
    {
        self.inner.id()
    }

    /// Give the handle up, yielding the close request the runtime must
    /// send.
    pub fn close(self) -> (r: CloseContainerEvent)
        ensures
            r.id == self.id_view(),
    {
        self.inner.close()
    }
}

} // verus!
