//! The parallel chunk download, seen from the side that decides: what the
//! server reports about an artifact, the table of slots that the concurrent
//! fetches fill, and the reassembly of the slots into one checked buffer.

use vstd::prelude::*;
use vstd::string::*;
use crate::text::push_decimal;
use crate::wire::is_success;
#[allow(unused_imports)]
use crate::text::decimal;
#[allow(unused_imports)]
use crate::wire::status_is_success;

verus! {

/// What the server reports about the artifact of a job.
///
/// The client trusts `num_chunks` as reported: it is not held against
/// `file_size` and `chunk_size`.
#[derive(Debug, PartialEq, Eq)]
pub struct DownloadInfo {
    pub file_size: usize,
    pub chunk_size: usize,
    pub num_chunks: usize,
    pub filename: String,
}

impl DownloadInfo {
    /// Makes the slot table of this artifact: one empty slot per announced
    /// chunk.
    pub fn new_slots(&self) -> (table: ChunkSlots)
        ensures
            table@ == empty_slots(self.num_chunks as nat),
    {
        ChunkSlots::new(self.num_chunks)
    }

    /// Reassembles this artifact from its slot table once every fetch has
    /// ended, and holds its length against the announced size.
    pub fn assemble(&self, table: &ChunkSlots) -> (outcome: Result<Vec<u8>, DownloadError>)
        ensures
            outcome_view(outcome) == reassembled(table@, self.file_size as nat),
    {
        table.reassemble(self.file_size)
    }
}

/// Why a download failed.
#[derive(Debug, PartialEq, Eq)]
pub enum DownloadError {
    /// The HTTP client could not be set up.
    ClientSetup { detail: String },
    /// The chunk metadata could not be requested.
    Network { detail: String },
    /// The chunk metadata could not be decoded.
    Format { detail: String },
    /// The fetch of one chunk failed; `index` is the first such chunk.
    MissingChunk { index: usize },
    /// Every chunk arrived, but together they are not as long as announced.
    SizeMismatch { expected: usize, actual: usize },
}

/// Mathematical value of a [`DownloadError`].
pub enum DownloadErrorView {
    ClientSetup { detail: Seq<char> },
    Network { detail: Seq<char> },
    Format { detail: Seq<char> },
    MissingChunk { index: nat },
    SizeMismatch { expected: nat, actual: nat },
}

impl View for DownloadError {
    type V = DownloadErrorView;

    open spec fn view(&self) -> DownloadErrorView {
        match *self {
            DownloadError::ClientSetup { detail } => DownloadErrorView::ClientSetup {
                detail: detail@,
            },
            DownloadError::Network { detail } => DownloadErrorView::Network { detail: detail@ },
            DownloadError::Format { detail } => DownloadErrorView::Format { detail: detail@ },
            DownloadError::MissingChunk { index } => DownloadErrorView::MissingChunk {
                index: index as nat,
            },
            DownloadError::SizeMismatch { expected, actual } => DownloadErrorView::SizeMismatch {
                expected: expected as nat,
                actual: actual as nat,
            },
        }
    }
}

/// The diagnostic that a download error is shown with.
pub open spec fn error_text(error: DownloadErrorView) -> Seq<char> {
    match error {
        DownloadErrorView::ClientSetup { detail } => "创建HTTP客户端失败: "@ + detail,
        DownloadErrorView::Network { detail } => "获取下载信息失败: "@ + detail,
        DownloadErrorView::Format { detail } => "解析下载信息失败: "@ + detail,
        DownloadErrorView::MissingChunk { index } => "块 "@ + decimal(index) + " 下载失败"@,
        DownloadErrorView::SizeMismatch { expected, actual } => "文件大小不匹配: 预期 "@
            + decimal(expected) + " bytes, 实际 "@ + decimal(actual) + " bytes"@,
    }
}

impl DownloadError {
    /// Renders the error as a human-readable diagnostic.
    pub fn message(&self) -> (text: String)
        ensures
            text@ == error_text(self@),
    {
        match self {
            DownloadError::ClientSetup { detail } => {
                let mut text = String::from_str("创建HTTP客户端失败: ");
                text.append(detail.as_str());
                text
            },
            DownloadError::Network { detail } => {
                let mut text = String::from_str("获取下载信息失败: ");
                text.append(detail.as_str());
                text
            },
            DownloadError::Format { detail } => {
                let mut text = String::from_str("解析下载信息失败: ");
                text.append(detail.as_str());
                text
            },
            DownloadError::MissingChunk { index } => {
                let mut text = String::from_str("块 ");
                push_decimal(&mut text, *index as u128);
                text.append(" 下载失败");
                text
            },
            DownloadError::SizeMismatch { expected, actual } => {
                let mut text = String::from_str("文件大小不匹配: 预期 ");
                push_decimal(&mut text, *expected as u128);
                text.append(" bytes, 实际 ");
                push_decimal(&mut text, *actual as u128);
                text.append(" bytes");
                text
            },
        }
    }
}

/// How the fetch of one chunk ended.
#[derive(Debug, PartialEq, Eq)]
pub enum ChunkFetch {
    /// The request failed before any response arrived.
    Unreachable,
    /// The server answered; `body` is absent when it could not be read.
    Responded { status: u16, body: Option<Vec<u8>> },
}

/// Mathematical value of a [`ChunkFetch`].
pub enum ChunkFetchView {
    Unreachable,
    Responded { status: u16, body: Option<Seq<u8>> },
}

impl View for ChunkFetch {
    type V = ChunkFetchView;

    open spec fn view(&self) -> ChunkFetchView {
        match *self {
            ChunkFetch::Unreachable => ChunkFetchView::Unreachable,
            ChunkFetch::Responded { status, body } => ChunkFetchView::Responded {
                status,
                body: match body {
                    Some(bytes) => Some(bytes@),
                    None => None,
                },
            },
        }
    }
}

/// The bytes that a fetch delivered: those of a readable body under a success
/// status, and nothing in every other case.
pub open spec fn delivered(fetch: ChunkFetchView) -> Option<Seq<u8>> {
    match fetch {
        ChunkFetchView::Unreachable => None,
        ChunkFetchView::Responded { status, body } => if status_is_success(status) {
            body
        } else {
            None
        },
    }
}

/// A table of `n` slots, none of them filled.
pub open spec fn empty_slots(n: nat) -> Seq<Option<Seq<u8>>> {
    Seq::new(n, |i: int| None::<Seq<u8>>)
}

/// The filled slots, concatenated in index order.
pub open spec fn joined(slots: Seq<Option<Seq<u8>>>) -> Seq<u8>
    decreases slots.len(),
{
    if slots.len() == 0 {
        Seq::empty()
    } else {
        joined(slots.drop_last()) + match slots.last() {
            Some(bytes) => bytes,
            None => Seq::empty(),
        }
    }
}

/// The index of the first slot that is not filled, if there is one.
pub open spec fn first_missing(slots: Seq<Option<Seq<u8>>>) -> Option<nat>
    decreases slots.len(),
{
    if slots.len() == 0 {
        None
    } else {
        match first_missing(slots.drop_last()) {
            Some(index) => Some(index),
            None => if slots.last() is None {
                Some((slots.len() - 1) as nat)
            } else {
                None
            },
        }
    }
}

/// What reassembly makes of a slot table for an artifact announced with
/// `file_size` bytes: the first missing chunk fails it; failing that, a total
/// length other than `file_size` fails it; otherwise it is the concatenation.
pub open spec fn reassembled(slots: Seq<Option<Seq<u8>>>, file_size: nat) -> Result<
    Seq<u8>,
    DownloadErrorView,
> {
    match first_missing(slots) {
        Some(index) => Err(DownloadErrorView::MissingChunk { index }),
        None => if joined(slots).len() != file_size {
            Err(
                DownloadErrorView::SizeMismatch {
                    expected: file_size,
                    actual: joined(slots).len(),
                },
            )
        } else {
            Ok(joined(slots))
        },
    }
}

/// Mathematical value of the outcome of a download.
pub open spec fn outcome_view(outcome: Result<Vec<u8>, DownloadError>) -> Result<
    Seq<u8>,
    DownloadErrorView,
> {
    match outcome {
        Ok(bytes) => Ok(bytes@),
        Err(error) => Err(error@),
    }
}

/// Appends a copy of `chunk` to `out`.
fn append_chunk(out: &mut Vec<u8>, chunk: &Vec<u8>)
    ensures
        final(out)@ == old(out)@ + chunk@,
{
    out.extend_from_slice(chunk.as_slice());
    assert(out@ =~= old(out)@ + chunk@);
}

/// The slot table of one download: one optional buffer per chunk index.
///
/// The fetches fill it in whatever order they complete; reassembly goes by
/// position, so the order of arrival never matters.
#[derive(Debug, PartialEq, Eq)]
pub struct ChunkSlots {
    slots: Vec<Option<Vec<u8>>>,
}

/// Mathematical value of one slot.
pub open spec fn slot_view(slot: Option<Vec<u8>>) -> Option<Seq<u8>> {
    match slot {
        Some(bytes) => Some(bytes@),
        None => None,
    }
}

impl View for ChunkSlots {
    type V = Seq<Option<Seq<u8>>>;

    closed spec fn view(&self) -> Seq<Option<Seq<u8>>> {
        Seq::new(self.slots@.len(), |i: int| slot_view(self.slots@[i]))
    }
}

impl ChunkSlots {
    /// Makes a table of `num_chunks` empty slots.
    pub fn new(num_chunks: usize) -> (table: ChunkSlots)
        ensures
            table@ == empty_slots(num_chunks as nat),
    {
        let mut slots: Vec<Option<Vec<u8>>> = Vec::new();
        let mut i: usize = 0;
        while i < num_chunks
            invariant
                i <= num_chunks,
                slots@.len() == i,
                forall|j: int| 0 <= j < i ==> (#[trigger] slots@[j]) is None,
            decreases num_chunks - i,
        {
            slots.push(None);
            i += 1;
        }
        let table = ChunkSlots { slots };
        assert(table@ =~= empty_slots(num_chunks as nat));
        table
    }

    /// The number of slots.
    pub fn len(&self) -> (n: usize)
        ensures
            n == self@.len(),
    {
        self.slots.len()
    }

    /// Whether slot `chunk_id` is filled.
    pub fn is_filled(&self, chunk_id: usize) -> (filled: bool)
        ensures
            filled == (chunk_id < self@.len() && self@[chunk_id as int] is Some),
    {
        chunk_id < self.slots.len() && self.slots[chunk_id].is_some()
    }

    /// Records how the fetch of chunk `chunk_id` ended: what it delivered
    /// fills the slot, and a failed fetch leaves the table as it was.
    pub fn record(&mut self, chunk_id: usize, fetch: ChunkFetch)
        requires
            chunk_id < old(self)@.len(),
        ensures
            final(self)@ == match delivered(fetch@) {
                Some(bytes) => old(self)@.update(chunk_id as int, Some(bytes)),
                None => old(self)@,
            },
    {
        match fetch {
            ChunkFetch::Unreachable => {},
            ChunkFetch::Responded { status, body } => {
                if is_success(status) {
                    match body {
                        Some(bytes) => {
                            self.slots.set(chunk_id, Some(bytes));
                            assert(self@ =~= old(self)@.update(chunk_id as int, Some(bytes@)));
                        },
                        None => {},
                    }
                }
            },
        }
    }

    /// Reassembles the artifact once every fetch has ended.
    ///
    /// The slots are scanned in index order. The first empty slot fails the
    /// download with its index. With every slot filled, the slots are
    /// concatenated in index order, and the result is returned only if it is
    /// exactly `file_size` bytes long.
    pub fn reassemble(&self, file_size: usize) -> (outcome: Result<Vec<u8>, DownloadError>)
        ensures
            outcome_view(outcome) == reassembled(self@, file_size as nat),
    {
        let mut result: Vec<u8> = Vec::new();
        let mut i: usize = 0;
        proof {
            assert(self@.take(0) =~= Seq::empty());
        }
        while i < self.slots.len()
            invariant
                i <= self.slots@.len(),
                self@.len() == self.slots@.len(),
                first_missing(self@.take(i as int)) is None,
                result@ == joined(self@.take(i as int)),
            decreases self.slots@.len() - i,
        {
            proof {
                assert(self@.take(i + 1).drop_last() =~= self@.take(i as int));
                assert(self@.take(i + 1).last() == slot_view(self.slots@[i as int]));
            }
            match &self.slots[i] {
                Some(bytes) => {
                    append_chunk(&mut result, bytes);
                },
                None => {
                    proof {
                        lemma_first_missing_prefix(self@, i + 1);
                    }
                    return Err(DownloadError::MissingChunk { index: i });
                },
            }
            i += 1;
        }
        proof {
            assert(self@.take(i as int) =~= self@);
        }
        if result.len() != file_size {
            return Err(DownloadError::SizeMismatch { expected: file_size, actual: result.len() });
        }
        Ok(result)
    }
}

/// A missing slot found in a prefix of the table is the first missing slot of the
/// whole table.
pub proof fn lemma_first_missing_prefix(slots: Seq<Option<Seq<u8>>>, n: int)
    requires
        0 <= n <= slots.len(),
        first_missing(slots.take(n)) is Some,
    ensures
        first_missing(slots) == first_missing(slots.take(n)),
    decreases slots.len() - n,
{
    if n < slots.len() {
        assert(slots.take(n + 1).drop_last() =~= slots.take(n));
        lemma_first_missing_prefix(slots, n + 1);
    } else {
        assert(slots.take(n) =~= slots);
    }
}

/// Whether every slot of the table is filled.
pub open spec fn all_filled(slots: Seq<Option<Seq<u8>>>) -> bool {
    forall|i: int| 0 <= i < slots.len() ==> (#[trigger] slots[i]) is Some
}

/// `first_missing` names an empty slot before which every slot is filled, and
/// names none exactly when every slot is filled.
pub proof fn lemma_first_missing(slots: Seq<Option<Seq<u8>>>)
    ensures
        match first_missing(slots) {
            Some(index) => index < slots.len() && slots[index as int] is None && all_filled(
                slots.take(index as int),
            ),
            None => all_filled(slots),
        },
    decreases slots.len(),
{
    if slots.len() > 0 {
        let front = slots.drop_last();
        lemma_first_missing(front);
        match first_missing(front) {
            Some(index) => {
                assert(front.take(index as int) =~= slots.take(index as int));
            },
            None => {
                assert(front =~= slots.take(slots.len() - 1));
                assert forall|i: int| 0 <= i < slots.len() && slots.last() is Some implies (
                #[trigger] slots[i]) is Some by {
                    if i < slots.len() - 1 {
                        assert(front[i] is Some);
                    }
                }
            },
        }
    }
}

/// A download in which the fetch of any one chunk failed is failed, whichever
/// chunk it was: reassembly reports the first empty slot, which is at or before
/// the failed one.
pub proof fn lemma_missing_chunk_fails(slots: Seq<Option<Seq<u8>>>, file_size: nat, failed: int)
    requires
        0 <= failed < slots.len(),
        slots[failed] is None,
    ensures
        reassembled(slots, file_size) matches Err(DownloadErrorView::MissingChunk { index })
            && index <= failed && slots[index as int] is None && all_filled(
            slots.take(index as int),
        ),
{
    lemma_first_missing(slots);
    match first_missing(slots) {
        Some(index) => {
            if index > failed {
                assert(slots.take(index as int)[failed] is Some);
            }
        },
        None => {
            assert(slots[failed] is Some);
        },
    }
}

/// A download in which every fetch delivered its chunk, and the chunks are
/// together as long as announced, succeeds with the chunks concatenated in
/// index order.
pub proof fn lemma_complete_download_succeeds(slots: Seq<Option<Seq<u8>>>, file_size: nat)
    requires
        all_filled(slots),
        joined(slots).len() == file_size,
    ensures
        reassembled(slots, file_size) == Ok::<Seq<u8>, DownloadErrorView>(joined(slots)),
{
    lemma_first_missing(slots);
    if let Some(index) = first_missing(slots) {
        assert(slots[index as int] is Some);
    }
}

/// A download whose chunks are together not as long as announced is failed,
/// even though every fetch delivered its chunk.
pub proof fn lemma_size_mismatch_fails(slots: Seq<Option<Seq<u8>>>, file_size: nat)
    requires
        all_filled(slots),
        joined(slots).len() != file_size,
    ensures
        reassembled(slots, file_size) == Err::<Seq<u8>, DownloadErrorView>(
            DownloadErrorView::SizeMismatch { expected: file_size, actual: joined(slots).len() },
        ),
{
    lemma_first_missing(slots);
    if let Some(index) = first_missing(slots) {
        assert(slots[index as int] is Some);
    }
}

/// A reassembled artifact is as long as announced, holds every slot filled, and
/// is their concatenation.
pub proof fn lemma_reassembled_is_checked(slots: Seq<Option<Seq<u8>>>, file_size: nat)
    ensures
        reassembled(slots, file_size) matches Ok(bytes) ==> bytes.len() == file_size
            && all_filled(slots) && bytes == joined(slots),
{
    lemma_first_missing(slots);
}

/// Adding a filled slot at the end appends its bytes to the concatenation.
pub proof fn lemma_joined_push(slots: Seq<Option<Seq<u8>>>, bytes: Seq<u8>)
    ensures
        joined(slots.push(Some(bytes))) == joined(slots) + bytes,
{
    assert(slots.push(Some(bytes)).drop_last() =~= slots);
}

/// Chunks that arrive for different slots fill the table to the same effect in
/// either order.
pub proof fn lemma_arrival_order_is_irrelevant(
    slots: Seq<Option<Seq<u8>>>,
    a: int,
    first: Seq<u8>,
    b: int,
    second: Seq<u8>,
)
    requires
        0 <= a < slots.len(),
        0 <= b < slots.len(),
        a != b,
    ensures
        slots.update(a, Some(first)).update(b, Some(second)) == slots.update(
            b,
            Some(second),
        ).update(a, Some(first)),
{
    assert(slots.update(a, Some(first)).update(b, Some(second)) =~= slots.update(
        b,
        Some(second),
    ).update(a, Some(first)));
}

} // verus!
