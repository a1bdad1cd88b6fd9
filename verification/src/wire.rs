//! The remote processing server as the client sees it: endpoints, timeouts and
//! the reading of a response status.

use vstd::prelude::*;
use vstd::string::*;
use crate::text::push_decimal;
#[allow(unused_imports)]
use crate::text::decimal;

verus! {

/// Seconds granted to the upload request, which covers the server-side inference.
pub const PREDICT_TIMEOUT_SECS: u64 = 120;

/// Seconds granted to the request for the chunk metadata of a job.
pub const INFO_TIMEOUT_SECS: u64 = 10;

/// Seconds granted to the request for one chunk. Chunks are large, so this is
/// longer than the metadata timeout.
pub const CHUNK_TIMEOUT_SECS: u64 = 30;

/// Name of the one binary field of the upload's multipart body.
pub const IMAGE_FIELD: &'static str = "image";

/// Media type that the image is declared with.
pub const IMAGE_MEDIA_TYPE: &'static str = "image/jpeg";

/// Whether an HTTP status code reports success.
pub open spec fn status_is_success(code: u16) -> bool {
    200 <= code < 300
}

/// Whether an HTTP status code reports success (the 2xx class).
pub fn is_success(code: u16) -> (ok: bool)
    ensures
        ok == status_is_success(code),
{
    200 <= code && code < 300
}

/// Address of the endpoint that accepts a source image.
pub open spec fn predict_url_text(server: Seq<char>) -> Seq<char> {
    server + "/api/predict"@
}

/// Address of the endpoint that describes the chunks of a job's artifact.
pub open spec fn info_url_text(server: Seq<char>, job: Seq<char>) -> Seq<char> {
    server + "/api/download_info/"@ + job
}

/// Address of the endpoint that serves one chunk of a job's artifact.
pub open spec fn chunk_url_text(server: Seq<char>, job: Seq<char>, chunk_id: nat) -> Seq<char> {
    server + "/api/download_chunk/"@ + job + "/"@ + decimal(chunk_id)
}

/// Builds the address of the upload endpoint on `server_url`.
pub fn predict_url(server_url: &str) -> (url: String)
    ensures
        url@ == predict_url_text(server_url@),
{
    let mut url = String::from_str(server_url);
    url.append("/api/predict");
    url
}

/// Builds the address of the chunk metadata of `job_id` on `server_url`.
pub fn download_info_url(server_url: &str, job_id: &str) -> (url: String)
    ensures
        url@ == info_url_text(server_url@, job_id@),
{
    let mut url = String::from_str(server_url);
    url.append("/api/download_info/");
    url.append(job_id);
    url
}

/// Builds the address of chunk `chunk_id` of `job_id` on `server_url`.
pub fn download_chunk_url(server_url: &str, job_id: &str, chunk_id: usize) -> (url: String)
    ensures
        url@ == chunk_url_text(server_url@, job_id@, chunk_id as nat),
{
    let mut url = String::from_str(server_url);
    url.append("/api/download_chunk/");
    url.append(job_id);
    url.append("/");
    push_decimal(&mut url, chunk_id as u128);
    url
}

/// The texts of a list of strings.
pub open spec fn url_texts(urls: Seq<String>) -> Seq<Seq<char>> {
    Seq::new(urls.len(), |i: int| urls[i]@)
}

/// The addresses of all chunks of a job, in index order.
pub open spec fn chunk_url_texts(server: Seq<char>, job: Seq<char>, num_chunks: nat) -> Seq<
    Seq<char>,
> {
    Seq::new(num_chunks, |i: int| chunk_url_text(server, job, i as nat))
}

/// Builds the addresses to fetch for a job of `num_chunks` chunks: exactly one
/// per chunk index, in index order.
pub fn download_chunk_urls(server_url: &str, job_id: &str, num_chunks: usize) -> (urls: Vec<
    String,
>)
    ensures
        url_texts(urls@) == chunk_url_texts(server_url@, job_id@, num_chunks as nat),
{
    let mut urls: Vec<String> = Vec::new();
    let mut chunk_id: usize = 0;
    while chunk_id < num_chunks
        invariant
            chunk_id <= num_chunks,
            urls@.len() == chunk_id,
            url_texts(urls@) == chunk_url_texts(server_url@, job_id@, chunk_id as nat),
        decreases num_chunks - chunk_id,
    {
        let url = download_chunk_url(server_url, job_id, chunk_id);
        let ghost before = urls@;
        urls.push(url);
        assert(url_texts(urls@) =~= chunk_url_texts(server_url@, job_id@, (chunk_id + 1) as nat))
            by {
            assert forall|i: int| 0 <= i < urls@.len() implies url_texts(urls@)[i]
                == chunk_url_text(server_url@, job_id@, i as nat) by {
                if i < chunk_id {
                    assert(urls@[i] == before[i]);
                    assert(url_texts(before)[i] == chunk_url_text(server_url@, job_id@, i as nat));
                }
            }
        }
        chunk_id += 1;
    }
    urls
}

} // verus!
