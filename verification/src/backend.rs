use vstd::prelude::*;
use crate::lvm::Volume;

verus! {

/// Work that only the outside world can do: the widgets ask for it, the
/// program around them performs it and hands back a `Reply`.
#[derive(Clone, Debug, PartialEq, Eq)]
pub enum Request {
    /// Count the logical volumes of the volume group.
    CountVolumes,
    /// Create a logical volume of `size` bytes called `name`.
    CreateVolume { name: String, size: u64 },
    /// Run `program` with `args`, wait for it, and capture what it prints.
    Run { program: String, args: Vec<String> },
    /// Wait until `path` exists, but no longer than `timeout_ms` milliseconds.
    WaitForPath { path: String, timeout_ms: u64 },
}

/// The mathematical content of a `Request`.
pub enum RequestView {
    CountVolumes,
    CreateVolume { name: Seq<char>, size: u64 },
    Run { program: Seq<char>, args: Seq<Seq<char>> },
    WaitForPath { path: Seq<char>, timeout_ms: u64 },
}

/// The texts that a sequence of strings holds.
pub open spec fn texts(strings: Seq<String>) -> Seq<Seq<char>> {
    Seq::new(strings.len(), |i: int| strings[i]@)
}

impl View for Request {
    type V = RequestView;

    open spec fn view(&self) -> RequestView {
        match self {
            Request::CountVolumes => RequestView::CountVolumes,
            Request::CreateVolume { name, size } => RequestView::CreateVolume { name: name@, size: *size },
            Request::Run { program, args } => RequestView::Run { program: program@, args: texts(args@) },
            Request::WaitForPath { path, timeout_ms } => RequestView::WaitForPath {
                path: path@,
                timeout_ms: *timeout_ms,
            },
        }
    }
}

/// The content of an optional request.
pub open spec fn request_view(request: Option<Request>) -> Option<RequestView> {
    match request {
        Some(r) => Some(r@),
        None => None,
    }
}

/// How a `Request` ended.
#[derive(Clone, Debug, PartialEq, Eq)]
pub enum Reply {
    /// The volume group holds this many logical volumes.
    VolumeCount(usize),
    /// The volume was created.
    VolumeCreated(Volume),
    /// The program ended with success and printed this.
    Output(String),
    /// The path exists.
    PathReady,
    /// The backend refused, the program ended with failure, or the wait timed out.
    Failed,
}

} // verus!
