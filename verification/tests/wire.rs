use microscope_viewer::wire::{
    download_chunk_url, download_chunk_urls, download_info_url, is_success, predict_url, CHUNK_TIMEOUT_SECS, IMAGE_FIELD, IMAGE_MEDIA_TYPE,
    INFO_TIMEOUT_SECS, PREDICT_TIMEOUT_SECS,
};

#[test]
fn endpoints_follow_the_server_address() {
    let server = "http://192.168.31.164:8000";
    assert_eq!(predict_url(server), "http://192.168.31.164:8000/api/predict");
    assert_eq!(
        download_info_url(server, "job-7"),
        "http://192.168.31.164:8000/api/download_info/job-7"
    );
    assert_eq!(
        download_chunk_url(server, "job-7", 0),
        "http://192.168.31.164:8000/api/download_chunk/job-7/0"
    );
    assert_eq!(
        download_chunk_url(server, "job-7", 12),
        "http://192.168.31.164:8000/api/download_chunk/job-7/12"
    );
}

#[test]
fn chunk_url_takes_any_index() {
    assert_eq!(download_chunk_url("s", "j", 1000), "s/api/download_chunk/j/1000");
    assert_eq!(
        download_chunk_url("", "", usize::MAX),
        format!("/api/download_chunk//{}", usize::MAX)
    );
}

#[test]
fn success_is_the_2xx_class() {
    assert!(is_success(200));
    assert!(is_success(204));
    assert!(is_success(299));
    assert!(!is_success(199));
    assert!(!is_success(300));
    assert!(!is_success(404));
    assert!(!is_success(500));
    assert!(!is_success(0));
    assert!(!is_success(u16::MAX));
}

#[test]
fn chunks_get_more_time_than_metadata() {
    assert_eq!(INFO_TIMEOUT_SECS, 10);
    assert_eq!(CHUNK_TIMEOUT_SECS, 30);
    assert_eq!(PREDICT_TIMEOUT_SECS, 120);
    assert!(CHUNK_TIMEOUT_SECS > INFO_TIMEOUT_SECS);
}

#[test]
fn one_address_per_chunk() {
    assert_eq!(
        download_chunk_urls("http://s", "job", 3),
        vec![
            "http://s/api/download_chunk/job/0".to_string(),
            "http://s/api/download_chunk/job/1".to_string(),
            "http://s/api/download_chunk/job/2".to_string(),
        ]
    );
    assert!(download_chunk_urls("http://s", "job", 0).is_empty());
    let many = download_chunk_urls("s", "j", 12);
    assert_eq!(many.len(), 12);
    assert_eq!(many[11], "s/api/download_chunk/j/11");
}

#[test]
fn image_is_sent_as_one_jpeg_field() {
    assert_eq!(IMAGE_FIELD, "image");
    assert_eq!(IMAGE_MEDIA_TYPE, "image/jpeg");
}
