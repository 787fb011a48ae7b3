use vstd::prelude::*;

verus! {

/// What can go wrong inside one event-action-render cycle.
#[derive(Clone, Copy, Debug, PartialEq, Eq, Structural)]
pub enum Error {
    /// Every window identity the manager may hand out is in use.
    WindowsExhausted,
    /// A window identity that the manager never handed out.
    InvalidWindow,
    /// A composited frame grew past what a coordinate can address.
    FrameTooLarge,
    /// The volume backend failed to enumerate or to create a volume.
    Backend,
    /// A partitioning or formatting tool failed, or a device node never appeared.
    ExternalTool,
}

impl Error {
    /// A short description for logs and panic messages.
    pub fn message(&self) -> (text: &'static str)
        ensures
            text@ == self.message_spec(),
    {
        match self {
            Error::WindowsExhausted => "window identities exhausted",
            Error::InvalidWindow => "no such window",
            Error::FrameTooLarge => "frame too large",
            Error::Backend => "volume backend failed",
            Error::ExternalTool => "external tool failed",
        }
    }

    pub open spec fn message_spec(&self) -> Seq<char> {
        match self {
            Error::WindowsExhausted => "window identities exhausted"@,
            Error::InvalidWindow => "no such window"@,
            Error::FrameTooLarge => "frame too large"@,
            Error::Backend => "volume backend failed"@,
            Error::ExternalTool => "external tool failed"@,
        }
    }
}

} // verus!
