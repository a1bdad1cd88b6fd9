//! The transfer status that a session publishes, and the session that owns it.

use vstd::prelude::*;
use vstd::string::*;
use crate::pipeline::{RunAction, UploadRun};
#[allow(unused_imports)]
use crate::pipeline::{fallback_file_name, RunActionView, RunPhase, UploadRunView};

verus! {

/// The address of the processing server that a session talks to by default.
pub open spec fn default_server_url() -> Seq<char> {
    "http://192.168.31.164:8000"@
}

/// Where a transfer stands. Exactly one variant is active at a time.
///
/// Progress is counted in percent, from 0 to 100, and the total time of a
/// completed run in milliseconds.
#[derive(Debug, PartialEq, Eq)]
pub enum UploadStatus {
    /// No operation is in progress.
    Idle,
    /// The file picker is open.
    SelectingFile,
    /// The local file is being read and sent.
    Uploading { percent: u8 },
    /// The server has answered; `stage` describes the work at hand.
    Processing { stage: String },
    /// The chunked retrieval is in progress.
    Downloading { percent: u8 },
    /// The artifact is persisted at `ply_path`.
    Completed { ply_path: String, total_millis: u64 },
    /// The run failed; `message` says why.
    Error { message: String },
}

/// Mathematical value of an [`UploadStatus`].
pub enum StatusView {
    Idle,
    SelectingFile,
    Uploading { percent: u8 },
    Processing { stage: Seq<char> },
    Downloading { percent: u8 },
    Completed { ply_path: Seq<char>, total_millis: u64 },
    Error { message: Seq<char> },
}

impl View for UploadStatus {
    type V = StatusView;

    open spec fn view(&self) -> StatusView {
        match *self {
            UploadStatus::Idle => StatusView::Idle,
            UploadStatus::SelectingFile => StatusView::SelectingFile,
            UploadStatus::Uploading { percent } => StatusView::Uploading { percent },
            UploadStatus::Processing { stage } => StatusView::Processing { stage: stage@ },
            UploadStatus::Downloading { percent } => StatusView::Downloading { percent },
            UploadStatus::Completed { ply_path, total_millis } => StatusView::Completed {
                ply_path: ply_path@,
                total_millis,
            },
            UploadStatus::Error { message } => StatusView::Error { message: message@ },
        }
    }
}

impl StatusView {
    /// Whether a new run may start from this status: nothing is in progress.
    pub open spec fn is_terminal(self) -> bool {
        self is Idle || self is Completed || self is Error
    }

    /// Whether the progress that the status carries, if any, is a percentage.
    pub open spec fn well_formed(self) -> bool {
        match self {
            StatusView::Uploading { percent } => percent <= 100,
            StatusView::Downloading { percent } => percent <= 100,
            _ => true,
        }
    }
}

impl Clone for UploadStatus {
    fn clone(&self) -> (copy: UploadStatus)
        ensures
            copy@ == self@,
    {
        match self {
            UploadStatus::Idle => UploadStatus::Idle,
            UploadStatus::SelectingFile => UploadStatus::SelectingFile,
            UploadStatus::Uploading { percent } => UploadStatus::Uploading { percent: *percent },
            UploadStatus::Processing { stage } => UploadStatus::Processing { stage: stage.clone() },
            UploadStatus::Downloading { percent } => UploadStatus::Downloading {
                percent: *percent,
            },
            UploadStatus::Completed { ply_path, total_millis } => UploadStatus::Completed {
                ply_path: ply_path.clone(),
                total_millis: *total_millis,
            },
            UploadStatus::Error { message } => UploadStatus::Error { message: message.clone() },
        }
    }
}

impl UploadStatus {
    /// Whether a new run may start from this status.
    pub fn is_terminal(&self) -> (terminal: bool)
        ensures
            terminal == self@.is_terminal(),
    {
        match self {
            UploadStatus::Idle => true,
            UploadStatus::Completed { .. } => true,
            UploadStatus::Error { .. } => true,
            _ => false,
        }
    }
}

/// One transfer session: the status that observers read, and the server that
/// the session talks to.
///
/// The session is a plain value. Whoever shares it between the thread that
/// drives a run and the observers guards it as a whole, so that no observer
/// sees a status half written.
#[derive(Debug)]
pub struct ImageUploadState {
    pub status: UploadStatus,
    pub server_url: String,
}

impl Default for ImageUploadState {
    fn default() -> (state: ImageUploadState)
        ensures
            state.status@ == StatusView::Idle,
            state.server_url@ == default_server_url(),
    {
        ImageUploadState {
            status: UploadStatus::Idle,
            server_url: String::from_str("http://192.168.31.164:8000"),
        }
    }
}

impl ImageUploadState {
    /// The current status, as a copy.
    pub fn get_status(&self) -> (status: UploadStatus)
        ensures
            status@ == self.status@,
    {
        self.status.clone()
    }

    /// Publishes `status`.
    pub fn set_status(&mut self, status: UploadStatus)
        ensures
            final(self).status == status,
            final(self).server_url == old(self).server_url,
    {
        self.status = status;
    }
}

/// A run that has just started, and the outside work that it asks for first.
#[derive(Debug)]
pub struct RunStart {
    pub run: UploadRun,
    pub action: RunAction,
}

/// The run that starts for a file with the given name on the given server.
pub open spec fn started_run(server_url: Seq<char>, file_name: Option<String>) -> UploadRunView {
    UploadRunView {
        phase: RunPhase::ReadingImage,
        server_url,
        file_name: match file_name {
            Some(name) => name@,
            None => fallback_file_name(),
        },
    }
}

impl ImageUploadState {
    /// Whether a new run may start: the status is `Idle`, `Completed` or `Error`.
    pub fn can_begin(&self) -> (free: bool)
        ensures
            free == self.status@.is_terminal(),
    {
        self.status.is_terminal()
    }

    /// Starts a new run for the image at `image_path`, if and only if none
    /// is in progress.
    ///
    /// From `Idle`, `Completed` or `Error` the status becomes `Uploading` at 0
    /// percent, and the run asks for the image to be read. From any other
    /// status nothing changes and nothing is returned.
    pub fn begin(&mut self, image_path: String, file_name: Option<String>) -> (started: Option<
        RunStart,
    >)
        ensures
            final(self).server_url == old(self).server_url,
            match started {
                Some(start) => {
                    &&& old(self).status@.is_terminal()
                    &&& final(self).status@ == (StatusView::Uploading { percent: 0 })
                    &&& start.run@ == started_run(old(self).server_url@, file_name)
                    &&& start.action@ == (RunActionView::ReadImage { path: image_path@ })
                },
                None => {
                    &&& !old(self).status@.is_terminal()
                    &&& final(self).status == old(self).status
                },
            },
    {
        if self.status.is_terminal() {
            Some(upload_and_process(self, image_path, file_name))
        } else {
            None
        }
    }
}

/// Announces that the file picker is about to open: the status becomes
/// `SelectingFile`.
///
/// The caller opens the picker and hands what it returned to
/// [`file_dialog_closed`].
pub fn trigger_file_dialog(upload_state: &mut ImageUploadState)
    ensures
        final(upload_state).status@ == StatusView::SelectingFile,
        final(upload_state).server_url == old(upload_state).server_url,
{
    upload_state.set_status(UploadStatus::SelectingFile);
}

/// Takes what the file picker returned. With a file chosen, its run starts
/// as in [`upload_and_process`]; with none, the status goes back to `Idle`.
pub fn file_dialog_closed(
    upload_state: &mut ImageUploadState,
    choice: Option<(String, Option<String>)>,
) -> (started: Option<RunStart>)
    ensures
        final(upload_state).server_url == old(upload_state).server_url,
        match started {
            Some(start) => {
                &&& choice matches Some((image_path, file_name))
                &&& final(upload_state).status@ == (StatusView::Uploading { percent: 0 })
                &&& start.run@ == started_run(old(upload_state).server_url@, file_name)
                &&& start.action@ == (RunActionView::ReadImage { path: image_path@ })
            },
            None => {
                &&& choice is None
                &&& final(upload_state).status@ == StatusView::Idle
            },
        },
{
    match choice {
        Some((image_path, file_name)) => Some(
            upload_and_process(upload_state, image_path, file_name),
        ),
        None => {
            upload_state.set_status(UploadStatus::Idle);
            None
        },
    }
}

/// Starts the run for the image at `image_path`, whatever the status was:
/// the status becomes `Uploading` at 0 percent, and the run asks for the image
/// to be read.
///
/// `file_name` is the name that the path ends in, if it has one. The caller
/// drives the run from here: it does what the run asks for, hands the outcome
/// to [`UploadRun::advance`] and publishes the statuses that come back.
pub fn upload_and_process(
    upload_state: &mut ImageUploadState,
    image_path: String,
    file_name: Option<String>,
) -> (start: RunStart)
    ensures
        final(upload_state).server_url == old(upload_state).server_url,
        final(upload_state).status@ == (StatusView::Uploading { percent: 0 }),
        start.run@ == started_run(old(upload_state).server_url@, file_name),
        start.action@ == (RunActionView::ReadImage { path: image_path@ }),
{
    upload_state.set_status(UploadStatus::Uploading { percent: 0 });
    let (run, action) = UploadRun::start(upload_state.server_url.as_str(), image_path, file_name);
    RunStart { run, action }
}

} // verus!
