use vstd::prelude::*;
use vstd::string::*;
use crate::backend::{request_view, texts, Reply, Request, RequestView};
use crate::error::Error;
use crate::lvm::Volume;
use crate::newdrive::{DriveFormat, InitialDriveFormat};
use crate::text::{decimal, decimal_spec, trim_end, trim_end_spec};

verus! {

/// How long to wait for a device node, in milliseconds.
pub const DEVICE_TIMEOUT_MS: u64 = 1000;

/// Where the formatting of a volume stands.
#[derive(Clone, Copy, Debug, PartialEq, Eq, Structural)]
pub enum FormatStage {
    /// Write the partition table.
    Partition,
    /// Ask which loopback device is free.
    FindLoop,
    /// Bind that loopback device to the volume.
    AttachLoop,
    /// Wait for the loopback device node.
    WaitLoop,
    /// Have the kernel read the partition table.
    Probe,
    /// Wait for the node of the first partition.
    WaitPartition,
    /// Make the file system.
    MakeFs,
    /// Every step succeeded.
    Finished,
    /// A step failed; nothing more is asked for.
    Failed,
}

/// The formatting of one volume: a fixed series of outside steps, each asked
/// for by `request` and concluded by `advance`. The loopback device that the
/// job binds to the volume stays bound when the job ends, in success as in
/// failure; nothing that a failed step left behind is undone.
#[derive(Clone, Debug, PartialEq, Eq)]
pub struct FormatJob {
    /// Block device of the volume.
    pub volume_path: String,
    pub format: InitialDriveFormat,
    pub stage: FormatStage,
    /// What the query for a free loopback device printed, once it has.
    pub loop_output: Option<String>,
}

impl FormatJob {
    /// The `mkpart` command for the partition that holds `format`.
    pub open spec fn partition_command(format: InitialDriveFormat) -> Seq<char> {
        match format {
            InitialDriveFormat::Linux => "mkpart primary ext3 0% 100%"@,
            _ => "mkpart primary ntfs 0% 100%"@,
        }
    }

    /// Path of the loopback device: what the query printed, without the
    /// white space at its end.
    pub open spec fn loopback_path(&self) -> Seq<char> {
        match self.loop_output {
            Some(output) => trim_end_spec(output@),
            None => Seq::empty(),
        }
    }

    /// Path of the first partition on the loopback device.
    pub open spec fn partition_path(&self) -> Seq<char> {
        self.loopback_path() + "p1"@
    }

    /// The tool that makes the file system, with its arguments.
    pub open spec fn mkfs_request(&self) -> RequestView {
        match self.format {
            InitialDriveFormat::Windows => RequestView::Run {
                program: "mkfs.ntfs"@,
                args: seq!["-f"@, self.partition_path()],
            },
            InitialDriveFormat::MacOs | InitialDriveFormat::Universal => RequestView::Run {
                program: "mkfs.exfat"@,
                args: seq![self.partition_path()],
            },
            InitialDriveFormat::Linux => RequestView::Run {
                program: "mkfs.ext3"@,
                args: seq![self.partition_path()],
            },
        }
    }

    /// The outside step that the job waits for; none once it has ended.
    pub open spec fn request_spec(&self) -> Option<RequestView> {
        match self.stage {
            FormatStage::Partition => Some(
                RequestView::Run {
                    program: "parted"@,
                    args: seq![
                        "--script"@,
                        self.volume_path@,
                        "mklabel msdos"@,
                        FormatJob::partition_command(self.format),
                    ],
                },
            ),
            FormatStage::FindLoop => Some(RequestView::Run { program: "losetup"@, args: seq!["-f"@] }),
            FormatStage::AttachLoop => Some(
                RequestView::Run { program: "losetup"@, args: seq!["-fPL"@, self.volume_path@] },
            ),
            FormatStage::WaitLoop => Some(
                RequestView::WaitForPath { path: self.loopback_path(), timeout_ms: DEVICE_TIMEOUT_MS },
            ),
            FormatStage::Probe => Some(
                RequestView::Run { program: "partprobe"@, args: seq![self.loopback_path()] },
            ),
            FormatStage::WaitPartition => Some(
                RequestView::WaitForPath { path: self.partition_path(), timeout_ms: DEVICE_TIMEOUT_MS },
            ),
            FormatStage::MakeFs => Some(self.mkfs_request()),
            FormatStage::Finished | FormatStage::Failed => None,
        }
    }

    /// Whether `reply` reports the success of the step asked for at `stage`.
    pub open spec fn accepts(stage: FormatStage, reply: Reply) -> bool {
        match stage {
            FormatStage::Partition
            | FormatStage::FindLoop
            | FormatStage::AttachLoop
            | FormatStage::Probe
            | FormatStage::MakeFs => reply is Output,
            FormatStage::WaitLoop | FormatStage::WaitPartition => reply is PathReady,
            FormatStage::Finished | FormatStage::Failed => false,
        }
    }

    /// The stage that follows the success of `stage`.
    pub open spec fn next_stage(stage: FormatStage) -> FormatStage {
        match stage {
            FormatStage::Partition => FormatStage::FindLoop,
            FormatStage::FindLoop => FormatStage::AttachLoop,
            FormatStage::AttachLoop => FormatStage::WaitLoop,
            FormatStage::WaitLoop => FormatStage::Probe,
            FormatStage::Probe => FormatStage::WaitPartition,
            FormatStage::WaitPartition => FormatStage::MakeFs,
            FormatStage::MakeFs => FormatStage::Finished,
            FormatStage::Finished => FormatStage::Finished,
            FormatStage::Failed => FormatStage::Failed,
        }
    }

    /// Whether the job has ended, in success or in failure.
    pub open spec fn ended(&self) -> bool {
        self.stage is Finished || self.stage is Failed
    }

    /// The job after `reply` concluded the step it was waiting for. A job
    /// that has ended stays as it is; any reply but the success of the
    /// pending step fails the job.
    pub open spec fn advance_spec(self, reply: Reply) -> FormatJob {
        if self.ended() {
            self
        } else if !FormatJob::accepts(self.stage, reply) {
            FormatJob { stage: FormatStage::Failed, ..self }
        } else if self.stage is FindLoop {
            FormatJob { stage: FormatStage::AttachLoop, loop_output: Some(reply->Output_0), ..self }
        } else {
            FormatJob { stage: FormatJob::next_stage(self.stage), ..self }
        }
    }

    /// How many steps the job has before it, if each succeeds.
    pub open spec fn steps_left(stage: FormatStage) -> nat {
        match stage {
            FormatStage::Partition => 7,
            FormatStage::FindLoop => 6,
            FormatStage::AttachLoop => 5,
            FormatStage::WaitLoop => 4,
            FormatStage::Probe => 3,
            FormatStage::WaitPartition => 2,
            FormatStage::MakeFs => 1,
            FormatStage::Finished | FormatStage::Failed => 0,
        }
    }

    /// A job has seven steps at most, and asks for a step exactly while it
    /// has steps before it.
    pub proof fn lemma_steps_left(self)
        ensures
            FormatJob::steps_left(self.stage) <= 7,
            self.request_spec() is None <==> FormatJob::steps_left(self.stage) == 0,
            self.ended() <==> FormatJob::steps_left(self.stage) == 0,
    {
    }

    /// Every reply brings a job nearer to its end: a success by one step,
    /// anything else at once. A job that has ended stays as it is.
    pub proof fn lemma_reply_lowers(self, reply: Reply)
        ensures
            FormatJob::steps_left(self.stage) > 0 ==> FormatJob::steps_left(self.advance_spec(reply).stage)
                < FormatJob::steps_left(self.stage),
            FormatJob::steps_left(self.stage) == 0 ==> self.advance_spec(reply) == self,
    {
    }

    /// Whether the job has ended.
    pub fn has_ended(&self) -> (ended: bool)
        ensures
            ended == self.ended(),
    {
        match self.stage {
            FormatStage::Finished | FormatStage::Failed => true,
            _ => false,
        }
    }

    fn tool(program: &str, args: Vec<String>) -> (request: Request)
        ensures
            request@ == (RequestView::Run { program: program@, args: texts(args@) }),
    {
        Request::Run { program: String::from_str(program), args }
    }

    fn one(a: String) -> (args: Vec<String>)
        ensures
            texts(args@) == seq![a@],
    {
        let mut args: Vec<String> = Vec::new();
        args.push(a);
        assert(texts(args@) =~= seq![a@]);
        args
    }

    fn two(a: String, b: String) -> (args: Vec<String>)
        ensures
            texts(args@) == seq![a@, b@],
    {
        let mut args: Vec<String> = Vec::new();
        args.push(a);
        args.push(b);
        assert(texts(args@) =~= seq![a@, b@]);
        args
    }

    /// Path of the loopback device.
    pub fn loopback(&self) -> (path: String)
        ensures
            path@ == self.loopback_path(),
    {
        match &self.loop_output {
            Some(output) => trim_end(output.as_str()),
            None => String::new(),
        }
    }

    /// An independent copy of this job.
    pub fn duplicate(&self) -> (copy: FormatJob)
        ensures
            copy == *self,
    {
        FormatJob {
            volume_path: self.volume_path.clone(),
            format: self.format,
            stage: self.stage,
            loop_output: match &self.loop_output {
                Some(output) => Some(output.clone()),
                None => None,
            },
        }
    }

    /// Path of the first partition on the loopback device.
    pub fn first_partition(&self) -> (path: String)
        ensures
            path@ == self.partition_path(),
    {
        let mut path = self.loopback();
        path.append("p1");
        path
    }

    /// The outside step that the job waits for; none once it has ended.
    pub fn request(&self) -> (request: Option<Request>)
        ensures
            request_view(request) == self.request_spec(),
    {
        match self.stage {
            FormatStage::Partition => {
                let command = match self.format {
                    InitialDriveFormat::Linux => "mkpart primary ext3 0% 100%",
                    _ => "mkpart primary ntfs 0% 100%",
                };
                let mut args: Vec<String> = Vec::new();
                args.push(String::from_str("--script"));
                args.push(self.volume_path.clone());
                args.push(String::from_str("mklabel msdos"));
                args.push(String::from_str(command));
                assert(texts(args@) =~= seq![
                    "--script"@,
                    self.volume_path@,
                    "mklabel msdos"@,
                    FormatJob::partition_command(self.format),
                ]);
                Some(FormatJob::tool("parted", args))
            },
            FormatStage::FindLoop => Some(FormatJob::tool("losetup", FormatJob::one(String::from_str("-f")))),
            FormatStage::AttachLoop => Some(
                FormatJob::tool("losetup", FormatJob::two(String::from_str("-fPL"), self.volume_path.clone())),
            ),
            FormatStage::WaitLoop => Some(
                Request::WaitForPath { path: self.loopback(), timeout_ms: DEVICE_TIMEOUT_MS },
            ),
            FormatStage::Probe => Some(FormatJob::tool("partprobe", FormatJob::one(self.loopback()))),
            FormatStage::WaitPartition => Some(
                Request::WaitForPath { path: self.first_partition(), timeout_ms: DEVICE_TIMEOUT_MS },
            ),
            FormatStage::MakeFs => match self.format {
                InitialDriveFormat::Windows => Some(
                    FormatJob::tool(
                        "mkfs.ntfs",
                        FormatJob::two(String::from_str("-f"), self.first_partition()),
                    ),
                ),
                InitialDriveFormat::MacOs | InitialDriveFormat::Universal => Some(
                    FormatJob::tool("mkfs.exfat", FormatJob::one(self.first_partition())),
                ),
                InitialDriveFormat::Linux => Some(
                    FormatJob::tool("mkfs.ext3", FormatJob::one(self.first_partition())),
                ),
            },
            FormatStage::Finished | FormatStage::Failed => None,
        }
    }

    /// Concludes the pending step with `reply`.
    pub fn advance(&mut self, reply: Reply)
        ensures
            *final(self) == old(self).advance_spec(reply),
    {
        match self.stage {
            FormatStage::Finished | FormatStage::Failed => {},
            FormatStage::WaitLoop | FormatStage::WaitPartition => {
                match reply {
                    Reply::PathReady => {
                        self.stage = match self.stage {
                            FormatStage::WaitLoop => FormatStage::Probe,
                            _ => FormatStage::MakeFs,
                        };
                    },
                    _ => {
                        self.stage = FormatStage::Failed;
                    },
                }
            },
            FormatStage::FindLoop => {
                match reply {
                    Reply::Output(text) => {
                        self.loop_output = Some(text);
                        self.stage = FormatStage::AttachLoop;
                    },
                    _ => {
                        self.stage = FormatStage::Failed;
                    },
                }
            },
            FormatStage::Partition | FormatStage::AttachLoop | FormatStage::Probe | FormatStage::MakeFs => {
                match reply {
                    Reply::Output(_) => {
                        self.stage = match self.stage {
                            FormatStage::Partition => FormatStage::FindLoop,
                            FormatStage::AttachLoop => FormatStage::WaitLoop,
                            FormatStage::Probe => FormatStage::WaitPartition,
                            _ => FormatStage::Finished,
                        };
                    },
                    _ => {
                        self.stage = FormatStage::Failed;
                    },
                }
            },
        }
    }
}

/// The making of a new drive: count the volumes to find a free name, create
/// the volume, format it. Each step is outside work, asked for by
/// `request` and concluded by `advanced`.
#[derive(Clone, Debug, PartialEq, Eq)]
pub enum Provision {
    /// Waiting for the number of volumes.
    Counting,
    /// Waiting for the volume to be created; `count` volumes existed before.
    Creating { count: usize },
    /// The backend failed to count the volumes or to create the volume.
    Refused,
    /// The volume exists; `job` is its formatting, under way or ended.
    Formatting { volume: Volume, job: FormatJob },
}

impl Provision {
    /// Name of the drive that is made when `count` volumes exist already.
    pub open spec fn drive_name(count: usize) -> Seq<char> {
        "Drive"@ + decimal_spec(count as nat)
    }

    /// The outside step that the making of a drive of `size` bytes waits
    /// for; none once it has ended.
    pub open spec fn request_spec(&self, size: u64) -> Option<RequestView> {
        match self {
            Provision::Counting => Some(RequestView::CountVolumes),
            Provision::Creating { count } => Some(
                RequestView::CreateVolume { name: Provision::drive_name(*count), size },
            ),
            Provision::Refused => None,
            Provision::Formatting { volume, job } => job.request_spec(),
        }
    }

    /// How the making of the drive ended, if it has: with the formatted
    /// volume, with a failure of the backend, or with a failure of an
    /// external tool.
    pub open spec fn outcome_spec(&self) -> Option<Result<Volume, Error>> {
        match self {
            Provision::Counting => None,
            Provision::Creating { .. } => None,
            Provision::Refused => Some(Err(Error::Backend)),
            Provision::Formatting { volume, job } => match job.stage {
                FormatStage::Finished => Some(Ok(*volume)),
                FormatStage::Failed => Some(Err(Error::ExternalTool)),
                _ => None,
            },
        }
    }

    /// The state after `reply` concluded the pending step, for a drive that
    /// is to hold `format`. Any reply but the success of the pending step
    /// counts as its failure; once the making has ended, replies change nothing.
    pub open spec fn advance_spec(self, reply: Reply, format: InitialDriveFormat) -> Provision {
        match self {
            Provision::Counting => match reply {
                Reply::VolumeCount(count) => Provision::Creating { count },
                _ => Provision::Refused,
            },
            Provision::Creating { count } => match reply {
                Reply::VolumeCreated(volume) => Provision::Formatting {
                    volume,
                    job: DriveFormat::format_volume_spec(volume, format),
                },
                _ => Provision::Refused,
            },
            Provision::Refused => self,
            Provision::Formatting { volume, job } => Provision::Formatting {
                volume,
                job: job.advance_spec(reply),
            },
        }
    }

    /// How many replies the making of the drive needs at most before it has
    /// ended: one for the count, one for the volume, seven for the formatting.
    pub open spec fn steps_left(&self) -> nat {
        match self {
            Provision::Counting => 9,
            Provision::Creating { .. } => 8,
            Provision::Refused => 0,
            Provision::Formatting { volume, job } => FormatJob::steps_left(job.stage),
        }
    }

    /// The making of a drive needs nine replies at most, and asks for a
    /// step exactly while it has steps before it.
    pub proof fn lemma_steps_left(self, size: u64)
        ensures
            self.steps_left() <= 9,
            self.request_spec(size) is None <==> self.steps_left() == 0,
            self.outcome_spec() is Some <==> self.steps_left() == 0,
    {
    }

    /// Every reply brings the making of a drive nearer to its end, and once
    /// it has ended, replies change nothing.
    pub proof fn lemma_reply_lowers(self, reply: Reply, format: InitialDriveFormat)
        ensures
            self.steps_left() > 0 ==> self.advance_spec(reply, format).steps_left() < self.steps_left(),
            self.steps_left() == 0 ==> self.advance_spec(reply, format) == self,
    {
    }

    /// The making of a drive has ended exactly when it waits for nothing.
    pub proof fn lemma_ended(&self, size: u64)
        ensures
            self.request_spec(size) is None <==> self.outcome_spec() is Some,
    {
    }

    /// The outside step that the making of a drive of `size` bytes waits for.
    pub fn request(&self, size: u64) -> (request: Option<Request>)
        ensures
            request_view(request) == self.request_spec(size),
    {
        match self {
            Provision::Counting => Some(Request::CountVolumes),
            Provision::Creating { count } => {
                let mut name = String::from_str("Drive");
                let digits = decimal(*count as u64);
                name.append(digits.as_str());
                Some(Request::CreateVolume { name, size })
            },
            Provision::Refused => None,
            Provision::Formatting { volume, job } => job.request(),
        }
    }

    /// How the making of the drive ended, if it has.
    pub fn outcome(&self) -> (ended: Option<Result<Volume, Error>>)
        ensures
            ended == self.outcome_spec(),
    {
        match self {
            Provision::Counting => None,
            Provision::Creating { .. } => None,
            Provision::Refused => Some(Err(Error::Backend)),
            Provision::Formatting { volume, job } => match job.stage {
                FormatStage::Finished => Some(Ok(volume.duplicate())),
                FormatStage::Failed => Some(Err(Error::ExternalTool)),
                _ => None,
            },
        }
    }

    /// The state after `reply` concluded the pending step.
    pub fn advanced(&self, reply: Reply, format: InitialDriveFormat) -> (next: Provision)
        ensures
            next == (*self).advance_spec(reply, format),
    {
        match self {
            Provision::Counting => match reply {
                Reply::VolumeCount(count) => Provision::Creating { count },
                _ => Provision::Refused,
            },
            Provision::Creating { count } => match reply {
                Reply::VolumeCreated(volume) => {
                    let job = DriveFormat::format_volume(&volume, &format);
                    Provision::Formatting { volume, job }
                },
                _ => Provision::Refused,
            },
            Provision::Refused => Provision::Refused,
            Provision::Formatting { volume, job } => {
                let mut next = job.duplicate();
                next.advance(reply);
                Provision::Formatting { volume: volume.duplicate(), job: next }
            },
        }
    }
}

} // verus!
