use microscope_viewer::download::DownloadError;
use microscope_viewer::image_uploader::{
    file_dialog_closed, trigger_file_dialog, upload_and_process, ImageUploadState, UploadStatus,
};
use microscope_viewer::pipeline::{RunAction, RunEvent, RunPhase, UploadRun};

fn error(message: &str) -> UploadStatus {
    UploadStatus::Error { message: message.to_string() }
}

fn accepted(job: &str) -> RunEvent {
    RunEvent::PredictResponded {
        status: 200,
        status_text: "200 OK".to_string(),
        job_id: Ok(job.to_string()),
    }
}

fn new_run() -> UploadRun {
    UploadRun::start("http://host:8000", "/photos/cat.png".to_string(), Some("cat.png".to_string()))
        .0
}

fn sending_run() -> UploadRun {
    let mut run = new_run();
    run.advance(RunEvent::ImageRead { image: Ok(vec![1, 2, 3]) }).unwrap();
    run
}

fn downloading_run() -> UploadRun {
    let mut run = sending_run();
    run.advance(accepted("job-1")).unwrap();
    run
}

fn saving_run() -> UploadRun {
    let mut run = downloading_run();
    run.advance(RunEvent::Downloaded { outcome: Ok(vec![9, 9]) }).unwrap();
    run
}

#[test]
fn default_session_is_idle() {
    let state = ImageUploadState::default();
    assert_eq!(state.get_status(), UploadStatus::Idle);
    assert_eq!(state.server_url, "http://192.168.31.164:8000");
    assert!(state.can_begin());
}

#[test]
fn set_status_is_read_back() {
    let mut state = ImageUploadState::default();
    state.set_status(UploadStatus::Processing { stage: "stage".to_string() });
    assert_eq!(state.get_status(), UploadStatus::Processing { stage: "stage".to_string() });
    state.set_status(UploadStatus::Completed { ply_path: "a.ply".to_string(), total_millis: 5 });
    assert_eq!(
        state.get_status(),
        UploadStatus::Completed { ply_path: "a.ply".to_string(), total_millis: 5 }
    );
    assert_eq!(state.server_url, "http://192.168.31.164:8000");
}

#[test]
fn begin_starts_from_terminal_statuses() {
    for status in [
        UploadStatus::Idle,
        UploadStatus::Completed { ply_path: "assets/generated.ply".to_string(), total_millis: 1 },
        error("boom"),
    ] {
        let mut state = ImageUploadState { status, server_url: "http://s".to_string() };
        assert!(state.can_begin());
        let start = state.begin("in.jpg".to_string(), Some("in.jpg".to_string())).unwrap();
        assert_eq!(state.get_status(), UploadStatus::Uploading { percent: 0 });
        assert_eq!(state.server_url, "http://s");
        assert_eq!(start.action, RunAction::ReadImage { path: "in.jpg".to_string() });
        assert_eq!(start.run.phase(), RunPhase::ReadingImage);
    }
}

#[test]
fn begin_is_rejected_while_a_run_is_in_progress() {
    for status in [
        UploadStatus::SelectingFile,
        UploadStatus::Uploading { percent: 50 },
        UploadStatus::Processing { stage: "s".to_string() },
        UploadStatus::Downloading { percent: 0 },
    ] {
        let mut state = ImageUploadState { status: status.clone(), server_url: "u".to_string() };
        assert!(!state.can_begin());
        assert!(state.begin("in.jpg".to_string(), None).is_none());
        assert_eq!(state.get_status(), status);
        assert_eq!(state.server_url, "u");
    }
}

#[test]
fn file_dialog_publishes_selecting_file() {
    let mut state = ImageUploadState::default();
    trigger_file_dialog(&mut state);
    assert_eq!(state.get_status(), UploadStatus::SelectingFile);
    assert!(!state.can_begin());
}

#[test]
fn cancelled_dialog_goes_back_to_idle() {
    let mut state = ImageUploadState::default();
    trigger_file_dialog(&mut state);
    assert!(file_dialog_closed(&mut state, None).is_none());
    assert_eq!(state.get_status(), UploadStatus::Idle);
}

#[test]
fn chosen_file_starts_its_run() {
    let mut state = ImageUploadState::default();
    trigger_file_dialog(&mut state);
    let choice = Some(("/home/u/dog.bmp".to_string(), Some("dog.bmp".to_string())));
    let mut start = file_dialog_closed(&mut state, choice).unwrap();
    assert_eq!(state.get_status(), UploadStatus::Uploading { percent: 0 });
    assert_eq!(start.action, RunAction::ReadImage { path: "/home/u/dog.bmp".to_string() });
    let step = start.run.advance(RunEvent::ImageRead { image: Ok(vec![7]) }).unwrap();
    assert_eq!(
        step.action,
        RunAction::SendImage {
            url: "http://192.168.31.164:8000/api/predict".to_string(),
            file_name: "dog.bmp".to_string(),
            image: vec![7],
        }
    );
}

#[test]
fn upload_and_process_starts_from_any_status() {
    let mut state = ImageUploadState {
        status: UploadStatus::Downloading { percent: 100 },
        server_url: "http://s".to_string(),
    };
    let start = upload_and_process(&mut state, "p.png".to_string(), None);
    assert_eq!(state.get_status(), UploadStatus::Uploading { percent: 0 });
    assert_eq!(start.action, RunAction::ReadImage { path: "p.png".to_string() });
}

#[test]
fn image_without_file_name_is_sent_as_image_jpg() {
    let (mut run, _) = UploadRun::start("http://s", "/".to_string(), None);
    let step = run.advance(RunEvent::ImageRead { image: Ok(vec![]) }).unwrap();
    assert_eq!(
        step.action,
        RunAction::SendImage {
            url: "http://s/api/predict".to_string(),
            file_name: "image.jpg".to_string(),
            image: vec![],
        }
    );
}

#[test]
fn successful_run_visits_the_states_in_order() {
    let mut state = ImageUploadState { status: UploadStatus::Idle, server_url: "http://m".to_string() };
    let mut seen = vec![state.get_status()];

    let start = state.begin("cat.png".to_string(), Some("cat.png".to_string())).unwrap();
    seen.push(state.get_status());
    let mut run = start.run;
    assert_eq!(start.action, RunAction::ReadImage { path: "cat.png".to_string() });

    let step = run.advance(RunEvent::ImageRead { image: Ok(vec![1, 2, 3]) }).unwrap();
    assert_eq!(
        step.action,
        RunAction::SendImage {
            url: "http://m/api/predict".to_string(),
            file_name: "cat.png".to_string(),
            image: vec![1, 2, 3],
        }
    );
    assert_eq!(run.phase(), RunPhase::AwaitingPredict);
    seen.extend(step.statuses);

    let step = run.advance(accepted("job-42")).unwrap();
    assert_eq!(
        step.action,
        RunAction::Download { server_url: "http://m".to_string(), job_id: "job-42".to_string() }
    );
    assert_eq!(run.phase(), RunPhase::Downloading);
    seen.extend(step.statuses);

    let step = run.advance(RunEvent::Downloaded { outcome: Ok(vec![4, 5, 6, 7]) }).unwrap();
    assert_eq!(
        step.action,
        RunAction::SavePly { path: "assets/generated.ply".to_string(), data: vec![4, 5, 6, 7] }
    );
    assert_eq!(run.phase(), RunPhase::Saving);
    seen.extend(step.statuses);

    let step = run.advance(RunEvent::Saved { elapsed: Ok(2800) }).unwrap();
    assert_eq!(step.action, RunAction::Stop);
    assert!(run.is_done());
    seen.extend(step.statuses);

    assert_eq!(
        seen,
        vec![
            UploadStatus::Idle,
            UploadStatus::Uploading { percent: 0 },
            UploadStatus::Uploading { percent: 50 },
            UploadStatus::Uploading { percent: 100 },
            UploadStatus::Processing { stage: "SHARP推理完成，开始并行下载PLY...".to_string() },
            UploadStatus::Downloading { percent: 0 },
            UploadStatus::Downloading { percent: 100 },
            UploadStatus::Completed {
                ply_path: "assets/generated.ply".to_string(),
                total_millis: 2800,
            },
        ]
    );
}

#[test]
fn unreadable_image_ends_the_run() {
    let mut run = new_run();
    let step = run
        .advance(RunEvent::ImageRead { image: Err("No such file or directory".to_string()) })
        .unwrap();
    assert_eq!(step.statuses, vec![error("读取图片失败: No such file or directory")]);
    assert_eq!(step.action, RunAction::Stop);
    assert!(run.is_done());
}

#[test]
fn failing_predict_goes_straight_to_error() {
    let failures = [
        (RunEvent::PredictFailed { detail: "connection refused".to_string() }, "请求失败: connection refused"),
        (
            RunEvent::PredictResponded {
                status: 500,
                status_text: "500 Internal Server Error".to_string(),
                job_id: Ok("job".to_string()),
            },
            "服务器错误: 500 Internal Server Error",
        ),
        (
            RunEvent::PredictResponded {
                status: 404,
                status_text: "404 Not Found".to_string(),
                job_id: Err("EOF".to_string()),
            },
            "服务器错误: 404 Not Found",
        ),
        (
            RunEvent::PredictResponded {
                status: 200,
                status_text: "200 OK".to_string(),
                job_id: Err("missing field `job_id`".to_string()),
            },
            "解析响应失败: missing field `job_id`",
        ),
    ];
    for (event, message) in failures {
        let mut run = new_run();
        let mut seen = run.advance(RunEvent::ImageRead { image: Ok(vec![1]) }).unwrap().statuses;
        let step = run.advance(event).unwrap();
        assert_eq!(step.action, RunAction::Stop);
        seen.extend(step.statuses);
        assert_eq!(
            seen,
            vec![
                UploadStatus::Uploading { percent: 50 },
                UploadStatus::Uploading { percent: 100 },
                error(message),
            ]
        );
        assert!(run.is_done());
        assert!(run.advance(RunEvent::Downloaded { outcome: Ok(vec![]) }).is_none());
        assert!(run.advance(accepted("late")).is_none());
    }
}

#[test]
fn failed_download_carries_the_diagnostic() {
    let mut run = downloading_run();
    let step = run
        .advance(RunEvent::Downloaded { outcome: Err(DownloadError::MissingChunk { index: 2 }) })
        .unwrap();
    assert_eq!(step.statuses, vec![error("下载失败: 块 2 下载失败")]);
    assert_eq!(step.action, RunAction::Stop);
    assert!(run.is_done());

    let mut run = downloading_run();
    let mismatch = DownloadError::SizeMismatch { expected: 10, actual: 9 };
    let step = run.advance(RunEvent::Downloaded { outcome: Err(mismatch) }).unwrap();
    assert_eq!(step.statuses, vec![error("下载失败: 文件大小不匹配: 预期 10 bytes, 实际 9 bytes")]);
}

#[test]
fn failed_save_ends_the_run() {
    let mut run = saving_run();
    let step = run.advance(RunEvent::Saved { elapsed: Err("disk full".to_string()) }).unwrap();
    assert_eq!(step.statuses, vec![error("保存PLY失败: disk full")]);
    assert_eq!(step.action, RunAction::Stop);
    assert!(run.is_done());
}

#[test]
fn artifact_is_persisted_unmodified() {
    let artifact: Vec<u8> = (0..=255u8).collect();
    let mut run = downloading_run();
    let step = run.advance(RunEvent::Downloaded { outcome: Ok(artifact.clone()) }).unwrap();
    assert_eq!(
        step.action,
        RunAction::SavePly { path: "assets/generated.ply".to_string(), data: artifact }
    );
    assert_eq!(step.statuses, vec![UploadStatus::Downloading { percent: 100 }]);
}

#[test]
fn events_that_are_not_awaited_are_ignored() {
    let mut run = new_run();
    assert!(run.advance(accepted("early")).is_none());
    assert!(run.advance(RunEvent::Saved { elapsed: Ok(1) }).is_none());
    assert!(run.advance(RunEvent::Downloaded { outcome: Ok(vec![]) }).is_none());
    assert!(run.advance(RunEvent::PredictFailed { detail: "x".to_string() }).is_none());
    assert_eq!(run.phase(), RunPhase::ReadingImage);

    let mut run = sending_run();
    assert!(run.advance(RunEvent::ImageRead { image: Ok(vec![]) }).is_none());
    assert!(run.advance(RunEvent::Saved { elapsed: Ok(1) }).is_none());
    assert_eq!(run.phase(), RunPhase::AwaitingPredict);

    let mut run = downloading_run();
    assert!(run.advance(accepted("again")).is_none());
    assert!(run.advance(RunEvent::Saved { elapsed: Ok(1) }).is_none());
    assert_eq!(run.phase(), RunPhase::Downloading);

    let mut run = saving_run();
    assert!(run.advance(RunEvent::Downloaded { outcome: Ok(vec![]) }).is_none());
    assert_eq!(run.phase(), RunPhase::Saving);
    assert!(run.advance(RunEvent::Saved { elapsed: Ok(1) }).is_some());
    assert!(run.advance(RunEvent::Saved { elapsed: Ok(1) }).is_none());
    assert_eq!(run.phase(), RunPhase::Done);
}

#[test]
fn any_success_status_is_accepted() {
    let mut run = sending_run();
    let event = RunEvent::PredictResponded {
        status: 201,
        status_text: "201 Created".to_string(),
        job_id: Ok("j".to_string()),
    };
    let step = run.advance(event).unwrap();
    assert_eq!(
        step.action,
        RunAction::Download { server_url: "http://host:8000".to_string(), job_id: "j".to_string() }
    );
}

#[test]
fn status_clone_is_equal() {
    for status in [
        UploadStatus::Idle,
        UploadStatus::SelectingFile,
        UploadStatus::Uploading { percent: 50 },
        UploadStatus::Processing { stage: "推理".to_string() },
        UploadStatus::Downloading { percent: 100 },
        UploadStatus::Completed { ply_path: "p".to_string(), total_millis: u64::MAX },
        error("e"),
    ] {
        assert_eq!(status.clone(), status);
        assert_eq!(
            status.is_terminal(),
            matches!(
                status,
                UploadStatus::Idle | UploadStatus::Completed { .. } | UploadStatus::Error { .. }
            )
        );
    }
}
