use vstd::prelude::*;

verus! {

/// A device notification of the system.
#[derive(Clone, Copy, Debug, PartialEq, Eq, Structural)]
pub enum Notification {
    DeviceStateChanged,
    DeviceAdded,
    DeviceRemoved,
    /// The default device changed: whether for rendering, and whether for the
    /// console role.
    DefaultDeviceChanged { render: bool, console: bool },
    PropertyValueChanged,
}

/// Set by notification callbacks, which also wake the worker.
#[derive(Clone, Copy, Debug, PartialEq, Eq, Structural)]
pub struct DeviceChangeSignal {
    pub requested: bool,
}

/// Whether a notification may concern the endpoint that is played on.
pub open spec fn concerns_output(notification: Notification) -> bool {
    match notification {
        Notification::DeviceStateChanged => true,
        Notification::DeviceAdded => true,
        Notification::DeviceRemoved => true,
        Notification::DefaultDeviceChanged { render, console } => render && console,
        Notification::PropertyValueChanged => false,
    }
}

impl DeviceChangeSignal {
    pub fn new() -> (signal: Self)
        ensures
            !signal.requested,
    {
        DeviceChangeSignal { requested: false }
    }

    /// Ask for a recovery. The worker has to be woken.
    pub fn request(&mut self)
        ensures
            final(self).requested,
    {
        self.requested = true;
    }

    /// Take a notification in. Returns whether the worker has to be woken.
    pub fn notify(&mut self, notification: Notification) -> (wake: bool)
        ensures
            wake == concerns_output(notification),
            final(self).requested == (old(self).requested || concerns_output(notification)),
    {
        let concerned = match notification {
            Notification::DeviceStateChanged => true,
            Notification::DeviceAdded => true,
            Notification::DeviceRemoved => true,
            Notification::DefaultDeviceChanged { render, console } => render && console,
            Notification::PropertyValueChanged => false,
        };
        if concerned {
            self.request();
        }
        concerned
    }

    /// Take a pending request.
    pub fn take(&mut self) -> (requested: bool)
        ensures
            requested == old(self).requested,
            !final(self).requested,
    {
        let requested = self.requested;
        self.requested = false;
        requested
    }
}

} // verus!
