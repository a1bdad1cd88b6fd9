//! One run of the upload-process-download pipeline, as a state machine.
//!
//! The machine decides; its driver acts. Each step takes the outcome of the
//! outside work that the machine asked for last, and gives the statuses to
//! publish, in order, and the outside work to do next.

use vstd::prelude::*;
use vstd::string::*;
use crate::download::DownloadError;
use crate::image_uploader::UploadStatus;
use crate::wire::{is_success, predict_url};
#[allow(unused_imports)]
use crate::download::{error_text, DownloadErrorView};
#[allow(unused_imports)]
use crate::image_uploader::StatusView;
#[allow(unused_imports)]
use crate::wire::{predict_url_text, status_is_success};

verus! {

/// Where the reassembled artifact is persisted.
pub open spec fn output_path() -> Seq<char> {
    "assets/generated.ply"@
}

/// The file name that an image is sent under when its path gives none.
pub open spec fn fallback_file_name() -> Seq<char> {
    "image.jpg"@
}

/// The stage that is announced once the server has accepted the image.
pub open spec fn download_stage() -> Seq<char> {
    "SHARP推理完成，开始并行下载PLY..."@
}

/// The outside work that a run waits for.
#[derive(Debug, Clone, Copy, PartialEq, Eq)]
pub enum RunPhase {
    /// The local image is being read.
    ReadingImage,
    /// The image is being sent to the server.
    AwaitingPredict,
    /// The chunk downloader is at work.
    Downloading,
    /// The artifact is being persisted.
    Saving,
    /// The run has ended, in `Completed` or in `Error`.
    Done,
}

/// One run of the pipeline.
#[derive(Debug)]
pub struct UploadRun {
    phase: RunPhase,
    server_url: String,
    file_name: String,
}

/// Mathematical value of an [`UploadRun`].
pub struct UploadRunView {
    pub phase: RunPhase,
    pub server_url: Seq<char>,
    pub file_name: Seq<char>,
}

impl View for UploadRun {
    type V = UploadRunView;

    closed spec fn view(&self) -> UploadRunView {
        UploadRunView {
            phase: self.phase,
            server_url: self.server_url@,
            file_name: self.file_name@,
        }
    }
}

/// The outcome of outside work, handed back to the run.
#[derive(Debug, PartialEq, Eq)]
pub enum RunEvent {
    /// The local image was read, or could not be.
    ImageRead { image: Result<Vec<u8>, String> },
    /// The upload request failed before any response arrived.
    PredictFailed { detail: String },
    /// The server answered the upload; `job_id` is the decoded job
    /// identifier, or why the body could not be decoded.
    PredictResponded { status: u16, status_text: String, job_id: Result<String, String> },
    /// The chunk downloader has ended.
    Downloaded { outcome: Result<Vec<u8>, DownloadError> },
    /// The artifact was persisted, `elapsed` milliseconds after the run
    /// began, or could not be.
    Saved { elapsed: Result<u64, String> },
}

/// Mathematical value of a [`RunEvent`].
pub enum RunEventView {
    ImageRead { image: Result<Seq<u8>, Seq<char>> },
    PredictFailed { detail: Seq<char> },
    PredictResponded { status: u16, status_text: Seq<char>, job_id: Result<Seq<char>, Seq<char>> },
    Downloaded { outcome: Result<Seq<u8>, DownloadErrorView> },
    Saved { elapsed: Result<u64, Seq<char>> },
}

impl View for RunEvent {
    type V = RunEventView;

    open spec fn view(&self) -> RunEventView {
        match *self {
            RunEvent::ImageRead { image } => RunEventView::ImageRead {
                image: match image {
                    Ok(bytes) => Ok(bytes@),
                    Err(detail) => Err(detail@),
                },
            },
            RunEvent::PredictFailed { detail } => RunEventView::PredictFailed { detail: detail@ },
            RunEvent::PredictResponded {
                status,
                status_text,
                job_id,
            } => RunEventView::PredictResponded {
                status,
                status_text: status_text@,
                job_id: match job_id {
                    Ok(job) => Ok(job@),
                    Err(detail) => Err(detail@),
                },
            },
            RunEvent::Downloaded { outcome } => RunEventView::Downloaded {
                outcome: match outcome {
                    Ok(bytes) => Ok(bytes@),
                    Err(error) => Err(error@),
                },
            },
            RunEvent::Saved { elapsed } => RunEventView::Saved {
                elapsed: match elapsed {
                    Ok(millis) => Ok(millis),
                    Err(detail) => Err(detail@),
                },
            },
        }
    }
}

/// The outside work that a run asks its driver for.
#[derive(Debug, PartialEq, Eq)]
pub enum RunAction {
    /// Read the local image at `path`.
    ReadImage { path: String },
    /// Send `image` to `url` as the one binary field of a multipart body.
    SendImage { url: String, file_name: String, image: Vec<u8> },
    /// Fetch the artifact of `job_id` from `server_url`, chunk by chunk.
    Download { server_url: String, job_id: String },
    /// Persist `data` at `path`.
    SavePly { path: String, data: Vec<u8> },
    /// Nothing: the run has ended.
    Stop,
}

/// Mathematical value of a [`RunAction`].
pub enum RunActionView {
    ReadImage { path: Seq<char> },
    SendImage { url: Seq<char>, file_name: Seq<char>, image: Seq<u8> },
    Download { server_url: Seq<char>, job_id: Seq<char> },
    SavePly { path: Seq<char>, data: Seq<u8> },
    Stop,
}

impl View for RunAction {
    type V = RunActionView;

    open spec fn view(&self) -> RunActionView {
        match *self {
            RunAction::ReadImage { path } => RunActionView::ReadImage { path: path@ },
            RunAction::SendImage { url, file_name, image } => RunActionView::SendImage {
                url: url@,
                file_name: file_name@,
                image: image@,
            },
            RunAction::Download { server_url, job_id } => RunActionView::Download {
                server_url: server_url@,
                job_id: job_id@,
            },
            RunAction::SavePly { path, data } => RunActionView::SavePly {
                path: path@,
                data: data@,
            },
            RunAction::Stop => RunActionView::Stop,
        }
    }
}

/// The mathematical values of a list of statuses.
pub open spec fn status_views(statuses: Seq<UploadStatus>) -> Seq<StatusView> {
    Seq::new(statuses.len(), |i: int| statuses[i]@)
}

/// What one step of a run gives its driver.
#[derive(Debug)]
pub struct RunStep {
    /// The statuses to publish, first to last.
    pub statuses: Vec<UploadStatus>,
    /// The outside work to do then.
    pub action: RunAction,
}

/// Mathematical value of one step: the run after it, and what it gives.
pub struct StepView {
    pub next: UploadRunView,
    pub statuses: Seq<StatusView>,
    pub action: RunActionView,
}

/// The step that ends a run in failure.
pub open spec fn failed(run: UploadRunView, message: Seq<char>) -> StepView {
    StepView {
        next: UploadRunView { phase: RunPhase::Done, ..run },
        statuses: seq![StatusView::Error { message }],
        action: RunActionView::Stop,
    }
}

/// The step that `event` causes in `run`, or nothing where the run does not
/// wait for `event`.
pub open spec fn step(run: UploadRunView, event: RunEventView) -> Option<StepView> {
    match (run.phase, event) {
        (RunPhase::ReadingImage, RunEventView::ImageRead { image: Ok(bytes) }) => Some(
            StepView {
                next: UploadRunView { phase: RunPhase::AwaitingPredict, ..run },
                statuses: seq![
                    StatusView::Uploading { percent: 50 },
                    StatusView::Uploading { percent: 100 },
                ],
                action: RunActionView::SendImage {
                    url: predict_url_text(run.server_url),
                    file_name: run.file_name,
                    image: bytes,
                },
            },
        ),
        (RunPhase::ReadingImage, RunEventView::ImageRead { image: Err(detail) }) => Some(
            failed(run, "读取图片失败: "@ + detail),
        ),
        (RunPhase::AwaitingPredict, RunEventView::PredictFailed { detail }) => Some(
            failed(run, "请求失败: "@ + detail),
        ),
        (
            RunPhase::AwaitingPredict,
            RunEventView::PredictResponded { status, status_text, job_id },
        ) => if !status_is_success(status) {
            Some(failed(run, "服务器错误: "@ + status_text))
        } else {
            match job_id {
                Err(detail) => Some(failed(run, "解析响应失败: "@ + detail)),
                Ok(job) => Some(
                    StepView {
                        next: UploadRunView { phase: RunPhase::Downloading, ..run },
                        statuses: seq![
                            StatusView::Processing { stage: download_stage() },
                            StatusView::Downloading { percent: 0 },
                        ],
                        action: RunActionView::Download {
                            server_url: run.server_url,
                            job_id: job,
                        },
                    },
                ),
            }
        },
        (RunPhase::Downloading, RunEventView::Downloaded { outcome: Err(error) }) => Some(
            failed(run, "下载失败: "@ + error_text(error)),
        ),
        (RunPhase::Downloading, RunEventView::Downloaded { outcome: Ok(bytes) }) => Some(
            StepView {
                next: UploadRunView { phase: RunPhase::Saving, ..run },
                statuses: seq![StatusView::Downloading { percent: 100 }],
                action: RunActionView::SavePly { path: output_path(), data: bytes },
            },
        ),
        (RunPhase::Saving, RunEventView::Saved { elapsed: Err(detail) }) => Some(
            failed(run, "保存PLY失败: "@ + detail),
        ),
        (RunPhase::Saving, RunEventView::Saved { elapsed: Ok(millis) }) => Some(
            StepView {
                next: UploadRunView { phase: RunPhase::Done, ..run },
                statuses: seq![
                    StatusView::Completed { ply_path: output_path(), total_millis: millis },
                ],
                action: RunActionView::Stop,
            },
        ),
        _ => None,
    }
}

/// The step that ends a run with the diagnostic `prefix` followed by `detail`.
fn failure(prefix: &str, detail: &str) -> (given: RunStep)
    ensures
        status_views(given.statuses@) == seq![StatusView::Error { message: prefix@ + detail@ }],
        given.action@ == RunActionView::Stop,
{
    let mut message = String::from_str(prefix);
    message.append(detail);
    let mut statuses: Vec<UploadStatus> = Vec::new();
    statuses.push(UploadStatus::Error { message });
    assert(status_views(statuses@) =~= seq![StatusView::Error { message: prefix@ + detail@ }]);
    RunStep { statuses, action: RunAction::Stop }
}

impl UploadRun {
    /// Starts a run for the image at `image_path` against `server_url`.
    ///
    /// The image is sent under `file_name`, the name that its path ends in, or
    /// under a fixed name where the path gives none. The run first asks for
    /// the image to be read.
    pub fn start(server_url: &str, image_path: String, file_name: Option<String>) -> (started: (
        UploadRun,
        RunAction,
    ))
        ensures
            started.0@ == (UploadRunView {
                phase: RunPhase::ReadingImage,
                server_url: server_url@,
                file_name: match file_name {
                    Some(name) => name@,
                    None => fallback_file_name(),
                },
            }),
            started.1@ == (RunActionView::ReadImage { path: image_path@ }),
    {
        let file_name = match file_name {
            Some(name) => name,
            None => String::from_str("image.jpg"),
        };
        let run = UploadRun {
            phase: RunPhase::ReadingImage,
            server_url: String::from_str(server_url),
            file_name,
        };
        (run, RunAction::ReadImage { path: image_path })
    }

    /// The outside work that the run waits for.
    pub fn phase(&self) -> (phase: RunPhase)
        ensures
            phase == self@.phase,
    {
        self.phase
    }

    /// Whether the run has ended.
    pub fn is_done(&self) -> (done: bool)
        ensures
            done == (self@.phase == RunPhase::Done),
    {
        match self.phase {
            RunPhase::Done => true,
            _ => false,
        }
    }

    /// Takes the outcome of outside work and moves the run on.
    ///
    /// Where the run waits for `event`, it gives the statuses to publish and
    /// the work to do next. Any other event is ignored: the run stays as it
    /// is and gives nothing.
    pub fn advance(&mut self, event: RunEvent) -> (given: Option<RunStep>)
        ensures
            match step(old(self)@, event@) {
                Some(expected) => given matches Some(got) && final(self)@ == expected.next
                    && status_views(got.statuses@) == expected.statuses && got.action@
                    == expected.action,
                None => given is None && final(self)@ == old(self)@,
            },
    {
        match self.phase {
            RunPhase::ReadingImage => match event {
                RunEvent::ImageRead { image } => match image {
                    Ok(bytes) => {
                        let mut statuses: Vec<UploadStatus> = Vec::new();
                        statuses.push(UploadStatus::Uploading { percent: 50 });
                        statuses.push(UploadStatus::Uploading { percent: 100 });
                        assert(status_views(statuses@) =~= seq![
                            StatusView::Uploading { percent: 50 },
                            StatusView::Uploading { percent: 100 },
                        ]);
                        let action = RunAction::SendImage {
                            url: predict_url(self.server_url.as_str()),
                            file_name: self.file_name.clone(),
                            image: bytes,
                        };
                        self.phase = RunPhase::AwaitingPredict;
                        Some(RunStep { statuses, action })
                    },
                    Err(detail) => {
                        self.phase = RunPhase::Done;
                        Some(failure("读取图片失败: ", detail.as_str()))
                    },
                },
                _ => None,
            },
            RunPhase::AwaitingPredict => match event {
                RunEvent::PredictFailed { detail } => {
                    self.phase = RunPhase::Done;
                    Some(failure("请求失败: ", detail.as_str()))
                },
                RunEvent::PredictResponded { status, status_text, job_id } => {
                    if !is_success(status) {
                        self.phase = RunPhase::Done;
                        Some(failure("服务器错误: ", status_text.as_str()))
                    } else {
                        match job_id {
                            Err(detail) => {
                                self.phase = RunPhase::Done;
                                Some(failure("解析响应失败: ", detail.as_str()))
                            },
                            Ok(job) => {
                                let mut statuses: Vec<UploadStatus> = Vec::new();
                                statuses.push(
                                    UploadStatus::Processing {
                                        stage: String::from_str("SHARP推理完成，开始并行下载PLY..."),
                                    },
                                );
                                statuses.push(UploadStatus::Downloading { percent: 0 });
                                assert(status_views(statuses@) =~= seq![
                                    StatusView::Processing { stage: download_stage() },
                                    StatusView::Downloading { percent: 0 },
                                ]);
                                let action = RunAction::Download {
                                    server_url: self.server_url.clone(),
                                    job_id: job,
                                };
                                self.phase = RunPhase::Downloading;
                                Some(RunStep { statuses, action })
                            },
                        }
                    }
                },
                _ => None,
            },
            RunPhase::Downloading => match event {
                RunEvent::Downloaded { outcome } => match outcome {
                    Err(error) => {
                        let text = error.message();
                        self.phase = RunPhase::Done;
                        Some(failure("下载失败: ", text.as_str()))
                    },
                    Ok(bytes) => {
                        let mut statuses: Vec<UploadStatus> = Vec::new();
                        statuses.push(UploadStatus::Downloading { percent: 100 });
                        assert(status_views(statuses@) =~= seq![
                            StatusView::Downloading { percent: 100 },
                        ]);
                        let action = RunAction::SavePly {
                            path: String::from_str("assets/generated.ply"),
                            data: bytes,
                        };
                        self.phase = RunPhase::Saving;
                        Some(RunStep { statuses, action })
                    },
                },
                _ => None,
            },
            RunPhase::Saving => match event {
                RunEvent::Saved { elapsed } => match elapsed {
                    Err(detail) => {
                        self.phase = RunPhase::Done;
                        Some(failure("保存PLY失败: ", detail.as_str()))
                    },
                    Ok(millis) => {
                        let mut statuses: Vec<UploadStatus> = Vec::new();
                        statuses.push(
                            UploadStatus::Completed {
                                ply_path: String::from_str("assets/generated.ply"),
                                total_millis: millis,
                            },
                        );
                        assert(status_views(statuses@) =~= seq![
                            StatusView::Completed {
                                ply_path: output_path(),
                                total_millis: millis,
                            },
                        ]);
                        self.phase = RunPhase::Done;
                        Some(RunStep { statuses, action: RunAction::Stop })
                    },
                },
                _ => None,
            },
            RunPhase::Done => None,
        }
    }
}

/// The statuses that a run publishes while it takes `events` in order.
pub open spec fn trace(run: UploadRunView, events: Seq<RunEventView>) -> Seq<StatusView>
    decreases events.len(),
{
    if events.len() == 0 {
        Seq::empty()
    } else {
        match step(run, events.first()) {
            Some(taken) => taken.statuses + trace(taken.next, events.drop_first()),
            None => trace(run, events.drop_first()),
        }
    }
}

/// The place of a status in the order of a run: uploading, then processing,
/// then downloading, then the end.
pub open spec fn rank(status: StatusView) -> nat {
    match status {
        StatusView::Idle => 0,
        StatusView::SelectingFile => 0,
        StatusView::Uploading { .. } => 1,
        StatusView::Processing { .. } => 2,
        StatusView::Downloading { .. } => 3,
        StatusView::Completed { .. } => 4,
        StatusView::Error { .. } => 4,
    }
}

/// The ranks of a list of statuses.
pub open spec fn ranks(statuses: Seq<StatusView>) -> Seq<nat> {
    Seq::new(statuses.len(), |i: int| rank(statuses[i]))
}

/// The lowest rank that a run in `phase` can still publish.
pub open spec fn floor(phase: RunPhase) -> nat {
    match phase {
        RunPhase::ReadingImage => 1,
        RunPhase::AwaitingPredict => 1,
        RunPhase::Downloading => 3,
        RunPhase::Saving => 3,
        RunPhase::Done => 4,
    }
}

/// Whether a list of statuses never steps back: whatever is followed by
/// another status is not an end, and ranks no higher than what follows.
pub open spec fn ordered(statuses: Seq<StatusView>) -> bool {
    forall|i: int, j: int|
        0 <= i < j < statuses.len() ==> rank(#[trigger] statuses[i]) < 4 && rank(statuses[i])
            <= rank(#[trigger] statuses[j])
}

/// The ranks of what a run in `phase` publishes on its way to completion.
pub open spec fn completing_ranks(phase: RunPhase) -> Seq<nat> {
    match phase {
        RunPhase::ReadingImage => seq![1, 1, 2, 3, 3, 4],
        RunPhase::AwaitingPredict => seq![2, 3, 3, 4],
        RunPhase::Downloading => seq![3, 4],
        RunPhase::Saving => seq![4],
        RunPhase::Done => seq![],
    }
}

/// Whether `event` is the answer of a server that accepted the image.
pub open spec fn predict_accepted(event: RunEventView) -> bool {
    event matches RunEventView::PredictResponded { status, job_id, .. } && status_is_success(
        status,
    ) && job_id is Ok
}

/// Whether `event` reports that sending the image failed: no response, a
/// status other than success, or a body without a job identifier.
pub open spec fn predict_failed(event: RunEventView) -> bool {
    event is PredictFailed || (event is PredictResponded && !predict_accepted(event))
}

/// A run that has ended publishes nothing more, whatever it is handed.
pub proof fn lemma_done_is_final(run: UploadRunView, events: Seq<RunEventView>)
    requires
        run.phase == RunPhase::Done,
    ensures
        trace(run, events) == Seq::<StatusView>::empty(),
    decreases events.len(),
{
    if events.len() > 0 {
        lemma_done_is_final(run, events.drop_first());
    }
}

/// A step gives statuses in order, none below the floor of the phase it was
/// taken in; where it gives an end, the run is done; where it does not, the
/// statuses rank no higher than the floor of the next phase.
proof fn lemma_step_is_ordered(run: UploadRunView, event: RunEventView)
    ensures
        step(run, event) matches Some(taken) ==> {
            &&& ordered(taken.statuses)
            &&& taken.statuses.len() > 0
            &&& forall|i: int|
                0 <= i < taken.statuses.len() ==> {
                    &&& floor(run.phase) <= rank(#[trigger] taken.statuses[i])
                    &&& rank(taken.statuses[i]) <= floor(taken.next.phase)
                    &&& (#[trigger] taken.statuses[i]).well_formed()
                }
            &&& rank(taken.statuses.last()) == 4 <==> taken.next.phase == RunPhase::Done
            &&& floor(run.phase) <= floor(taken.next.phase)
        },
{
}

/// Within one run the status never steps back: uploading comes before
/// processing, processing before downloading, and `Completed` or `Error`
/// comes last and once. This holds of every sequence of events.
pub proof fn lemma_run_is_monotonic(run: UploadRunView, events: Seq<RunEventView>)
    ensures
        ordered(trace(run, events)),
        forall|i: int|
            0 <= i < trace(run, events).len() ==> floor(run.phase) <= rank(
                #[trigger] trace(run, events)[i],
            ) && trace(run, events)[i].well_formed(),
    decreases events.len(),
{
    if events.len() > 0 {
        let rest = events.drop_first();
        match step(run, events.first()) {
            Some(taken) => {
                lemma_step_is_ordered(run, events.first());
                lemma_run_is_monotonic(taken.next, rest);
                if taken.next.phase == RunPhase::Done {
                    lemma_done_is_final(taken.next, rest);
                }
                let head = taken.statuses;
                let tail = trace(taken.next, rest);
                let all = trace(run, events);
                assert(all == head + tail);
                assert forall|i: int| 0 <= i < all.len() implies floor(run.phase) <= rank(
                    #[trigger] all[i],
                ) && all[i].well_formed() by {
                    if i < head.len() {
                        assert(all[i] == head[i]);
                    } else {
                        assert(all[i] == tail[i - head.len()]);
                    }
                }
                assert forall|i: int, j: int| 0 <= i < j < all.len() implies rank(
                    #[trigger] all[i],
                ) < 4 && rank(all[i]) <= rank(#[trigger] all[j]) by {
                    if j < head.len() {
                        assert(all[i] == head[i] && all[j] == head[j]);
                    } else if i < head.len() {
                        assert(all[i] == head[i]);
                        assert(all[j] == tail[j - head.len()]);
                        assert(tail.len() > 0);
                        assert(rank(head.last()) != 4);
                        if i < head.len() - 1 {
                            assert(rank(head[i]) <= rank(head[head.len() - 1]));
                        }
                    } else {
                        assert(all[i] == tail[i - head.len()]);
                        assert(all[j] == tail[j - head.len()]);
                    }
                }
            },
            None => {
                lemma_run_is_monotonic(run, rest);
            },
        }
    }
}

/// A run in which every stage succeeds publishes, after the `Uploading` that
/// starts it, two more `Uploading`, then `Processing`, then `Downloading`
/// twice, then `Completed` with the artifact's path and the time handed in:
/// these and no others, in this order. It asks in turn for the image to be
/// sent, for the download, and for the artifact to be persisted unchanged.
pub proof fn lemma_successful_run(
    run: UploadRunView,
    image: Seq<u8>,
    status: u16,
    status_text: Seq<char>,
    job_id: Seq<char>,
    artifact: Seq<u8>,
    millis: u64,
)
    requires
        run.phase == RunPhase::ReadingImage,
        status_is_success(status),
    ensures
        trace(
            run,
            seq![
                RunEventView::ImageRead { image: Ok(image) },
                RunEventView::PredictResponded { status, status_text, job_id: Ok(job_id) },
                RunEventView::Downloaded { outcome: Ok(artifact) },
                RunEventView::Saved { elapsed: Ok(millis) },
            ],
        ) == seq![
            StatusView::Uploading { percent: 50 },
            StatusView::Uploading { percent: 100 },
            StatusView::Processing { stage: download_stage() },
            StatusView::Downloading { percent: 0 },
            StatusView::Downloading { percent: 100 },
            StatusView::Completed { ply_path: output_path(), total_millis: millis },
        ],
        step(
            UploadRunView { phase: RunPhase::Downloading, ..run },
            RunEventView::Downloaded { outcome: Ok(artifact) },
        ).unwrap().action == (RunActionView::SavePly { path: output_path(), data: artifact }),
{
    let e0 = RunEventView::ImageRead { image: Ok(image) };
    let e1 = RunEventView::PredictResponded { status, status_text, job_id: Ok(job_id) };
    let e2 = RunEventView::Downloaded { outcome: Ok(artifact) };
    let e3 = RunEventView::Saved { elapsed: Ok(millis) };
    let events = seq![e0, e1, e2, e3];
    let r1 = UploadRunView { phase: RunPhase::AwaitingPredict, ..run };
    let r2 = UploadRunView { phase: RunPhase::Downloading, ..run };
    let r3 = UploadRunView { phase: RunPhase::Saving, ..run };
    let r4 = UploadRunView { phase: RunPhase::Done, ..run };
    assert(events.drop_first() =~= seq![e1, e2, e3]);
    assert(seq![e1, e2, e3].drop_first() =~= seq![e2, e3]);
    assert(seq![e2, e3].drop_first() =~= seq![e3]);
    assert(seq![e3].drop_first() =~= Seq::<RunEventView>::empty());
    assert(trace(r4, Seq::<RunEventView>::empty()) =~= Seq::<StatusView>::empty());
    assert(trace(r3, seq![e3]) =~= seq![
        StatusView::Completed { ply_path: output_path(), total_millis: millis },
    ]);
    assert(trace(r2, seq![e2, e3]) =~= seq![
        StatusView::Downloading { percent: 100 },
        StatusView::Completed { ply_path: output_path(), total_millis: millis },
    ]);
    assert(trace(r1, seq![e1, e2, e3]) =~= seq![
        StatusView::Processing { stage: download_stage() },
        StatusView::Downloading { percent: 0 },
        StatusView::Downloading { percent: 100 },
        StatusView::Completed { ply_path: output_path(), total_millis: millis },
    ]);
    assert(trace(run, events) =~= seq![
        StatusView::Uploading { percent: 50 },
        StatusView::Uploading { percent: 100 },
        StatusView::Processing { stage: download_stage() },
        StatusView::Downloading { percent: 0 },
        StatusView::Downloading { percent: 100 },
        StatusView::Completed { ply_path: output_path(), total_millis: millis },
    ]);
}

/// Whatever a run is handed, if it comes to `Completed` it has gone the one
/// way there: from reading the image on, `Uploading`, `Uploading`,
/// `Processing`, `Downloading`, `Downloading`, `Completed`, with no other
/// status in between, and from a later phase on, the rest of that list.
pub proof fn lemma_completed_run_order(run: UploadRunView, events: Seq<RunEventView>)
    requires
        trace(run, events).len() > 0,
        trace(run, events).last() is Completed,
    ensures
        ranks(trace(run, events)) == completing_ranks(run.phase),
    decreases events.len(),
{
    if events.len() > 0 {
        let rest = events.drop_first();
        match step(run, events.first()) {
            Some(taken) => {
                let head = taken.statuses;
                let tail = trace(taken.next, rest);
                if taken.next.phase == RunPhase::Done {
                    lemma_done_is_final(taken.next, rest);
                    assert(trace(run, events) =~= head);
                    assert(ranks(head) =~= completing_ranks(run.phase));
                } else {
                    if tail.len() == 0 {
                        assert(trace(run, events) =~= head);
                    } else {
                        assert(trace(run, events).last() == tail.last());
                        lemma_completed_run_order(taken.next, rest);
                        assert(ranks(head + tail) =~= ranks(head) + ranks(tail));
                        assert(ranks(head) + completing_ranks(taken.next.phase)
                            =~= completing_ranks(run.phase));
                    }
                }
            },
            None => {
                lemma_completed_run_order(run, rest);
            },
        }
    }
}

/// A failing upload takes the run straight to `Error`: the run publishes
/// that one status, ends, and publishes nothing more whatever follows, so it
/// never reaches `Processing` or `Downloading`.
pub proof fn lemma_failed_predict_goes_to_error(
    run: UploadRunView,
    event: RunEventView,
    rest: Seq<RunEventView>,
)
    requires
        run.phase == RunPhase::AwaitingPredict,
        predict_failed(event),
    ensures
        trace(run, seq![event] + rest).len() == 1,
        trace(run, seq![event] + rest)[0] is Error,
        step(run, event).unwrap().next.phase == RunPhase::Done,
        step(run, event).unwrap().action == RunActionView::Stop,
{
    let events = seq![event] + rest;
    assert(events.first() == event);
    assert(events.drop_first() =~= rest);
    let taken = step(run, event).unwrap();
    lemma_done_is_final(taken.next, rest);
    assert(trace(run, events) =~= taken.statuses);
}

/// A run publishes `Processing` or `Downloading` only after the server has
/// accepted the image: with no such answer among the events, no status of the
/// run is one of the two.
pub proof fn lemma_processing_needs_accepted_predict(
    run: UploadRunView,
    events: Seq<RunEventView>,
)
    requires
        run.phase == RunPhase::ReadingImage || run.phase == RunPhase::AwaitingPredict,
        forall|k: int| 0 <= k < events.len() ==> !predict_accepted(#[trigger] events[k]),
    ensures
        forall|i: int|
            0 <= i < trace(run, events).len() ==> !((#[trigger] trace(run, events)[i])
                is Processing) && !(trace(run, events)[i] is Downloading),
    decreases events.len(),
{
    if events.len() > 0 {
        let rest = events.drop_first();
        assert forall|k: int| 0 <= k < rest.len() implies !predict_accepted(
            #[trigger] rest[k],
        ) by {
            assert(rest[k] == events[k + 1]);
        }
        assert(!predict_accepted(events[0]));
        match step(run, events.first()) {
            Some(taken) => {
                let head = taken.statuses;
                let tail = trace(taken.next, rest);
                if taken.next.phase == RunPhase::Done {
                    lemma_done_is_final(taken.next, rest);
                } else {
                    lemma_processing_needs_accepted_predict(taken.next, rest);
                }
                assert forall|i: int| 0 <= i < (head + tail).len() implies !((
                #[trigger] (head + tail)[i]) is Processing) && !((head + tail)[i]
                    is Downloading) by {
                    if i < head.len() {
                        assert((head + tail)[i] == head[i]);
                    } else {
                        assert((head + tail)[i] == tail[i - head.len()]);
                    }
                }
            },
            None => {
                lemma_processing_needs_accepted_predict(run, rest);
            },
        }
    }
}

} // verus!
