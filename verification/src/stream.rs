//! The decisions of one Stream: when to send another request, when to stop, and what
//! the Stream's count comes to.
//!
//! A Stream keeps transferring chunks until its Phase's deadline and returns the bytes it
//! actually moved. The requests, the reads and the waiting are done by the caller, which
//! reports each outcome as an event; the Stream answers with what to do next.
//!
//! A download sends a request (raced against the deadline), reads the body piece by
//! piece (each read raced against the deadline), and after the body ends checks the
//! clock and sends another. An upload sends a whole chunk with a timeout of the time
//! left, but at least one millisecond; a chunk counts once its upload completes, and one
//! cut off by the timeout counts nothing. Every byte counted is handed back once, in the
//! action that follows, to be added to the Phase's progress counter; so the counter
//! grows by each piece as it arrives and ends equal to the Stream's total.
use vstd::prelude::*;
use crate::endpoint::CHUNK_BYTES;
use crate::tally::{ByteTally, total_of};

verus! {

/// The shortest timeout an upload is given, in nanoseconds (one millisecond).
pub const MIN_UPLOAD_TIMEOUT_NANOS: u64 = 1_000_000;

/// How long an upload may take when `time_left` nanoseconds remain before the deadline:
/// the time left, but at least `MIN_UPLOAD_TIMEOUT_NANOS`.
pub open spec fn upload_timeout(time_left: u64) -> u64 {
    if time_left > MIN_UPLOAD_TIMEOUT_NANOS {
        time_left
    } else {
        MIN_UPLOAD_TIMEOUT_NANOS
    }
}

/// An upload is given at least the whole time left and at least one millisecond, and
/// no more than the larger of the two: the timeout is the maximum of them.
pub proof fn lemma_upload_timeout_is_the_larger(time_left: u64)
    ensures
        upload_timeout(time_left) >= time_left,
        upload_timeout(time_left) >= 1_000_000,
        upload_timeout(time_left) == time_left || upload_timeout(time_left) == 1_000_000,
{
}

/// The timeout of one upload when `time_left` nanoseconds remain before the deadline.
pub fn upload_timeout_nanos(time_left: u64) -> (timeout: u64)
    ensures
        timeout == upload_timeout(time_left),
        timeout >= time_left,
        timeout >= 1_000_000,
        timeout == time_left || timeout == 1_000_000,
{
    if time_left > MIN_UPLOAD_TIMEOUT_NANOS {
        time_left
    } else {
        MIN_UPLOAD_TIMEOUT_NANOS
    }
}

/// What happened since a download Stream last said what to do.
#[derive(Debug)]
pub enum DownloadEvent<E> {
    /// The clock was read: this many nanoseconds are left before the deadline (zero once
    /// it has passed).
    TimeLeft(u64),
    /// The deadline passed while a request or a read was under way.
    DeadlineReached,
    /// The request was answered with a success status; its body can be read.
    Responded,
    /// A piece of the body arrived, of this many bytes.
    Chunk(u64),
    /// The body ended.
    BodyEnded,
    /// The request or the body failed.
    Failed(E),
}

/// What a download Stream needs done next.
#[derive(Debug)]
pub enum DownloadAction<E> {
    /// Read the clock and report the time left.
    CheckClock,
    /// Request a chunk, racing the request against the deadline.
    RequestChunk,
    /// Add `publish` bytes to the Phase's progress counter (zero when no new piece
    /// arrived), then read the next piece of the body, racing the read against the deadline.
    ReadBody { publish: u64 },
    /// The Stream is over: it moved this many bytes.
    Finish(u64),
    /// The Stream failed with this error.
    Fail(E),
}

/// What happened since an upload Stream last said what to do.
#[derive(Debug)]
pub enum UploadEvent<E> {
    /// The clock was read: this many nanoseconds are left before the deadline (zero once
    /// it has passed).
    TimeLeft(u64),
    /// The upload was cut off by its timeout; the transfer does not survive that.
    TimedOut,
    /// The whole chunk was uploaded and answered with a success status.
    Uploaded,
    /// The upload failed.
    Failed(E),
}

/// What an upload Stream needs done next.
#[derive(Debug)]
pub enum UploadAction<E> {
    /// Add `publish` bytes to the Phase's progress counter, then read the clock and report
    /// the time left.
    CheckClock { publish: u64 },
    /// Upload one chunk of `CHUNK_BYTES` bytes, giving up after `timeout_nanos`.
    UploadChunk { timeout_nanos: u64 },
    /// The Stream is over: it moved this many bytes.
    Finish(u64),
    /// The Stream failed with this error.
    Fail(E),
}

/// The bytes a download action asks to add to the progress counter.
pub open spec fn download_published<E>(action: DownloadAction<E>) -> int {
    match action {
        DownloadAction::ReadBody { publish } => publish as int,
        _ => 0,
    }
}

/// The bytes an upload action asks to add to the progress counter.
pub open spec fn upload_published<E>(action: UploadAction<E>) -> int {
    match action {
        UploadAction::CheckClock { publish } => publish as int,
        _ => 0,
    }
}

/// One download Stream in progress.
pub struct DownloadStream {
    tally: ByteTally,
    finished: bool,
}

impl DownloadStream {
    /// The sizes of the body pieces received so far, in order.
    pub closed spec fn counted(&self) -> Seq<u64> {
        self.tally.view()
    }

    /// Whether the Stream has finished or failed.
    pub closed spec fn finished(&self) -> bool {
        self.finished
    }

    /// A Stream that has moved nothing yet. Its first job is to read the clock.
    pub fn new() -> (stream: Self)
        ensures
            stream.counted() == Seq::<u64>::empty(),
            !stream.finished(),
    {
        DownloadStream { tally: ByteTally::new(), finished: false }
    }

    /// The bytes received so far.
    pub fn total(&self) -> (bytes: u64)
        ensures
            bytes == total_of(self.counted()),
    {
        self.tally.total()
    }

    /// Takes in what happened and says what to do next.
    pub fn step<E>(&mut self, event: DownloadEvent<E>) -> (action: DownloadAction<E>)
        requires
            !old(self).finished(),
            event matches DownloadEvent::Chunk(bytes) ==> total_of(old(self).counted()) + bytes
                <= u64::MAX,
        ensures
            total_of(final(self).counted()) == total_of(old(self).counted())
                + download_published(action),
            match event {
                DownloadEvent::TimeLeft(left) => {
                    &&& final(self).counted() == old(self).counted()
                    &&& left > 0 ==> action is RequestChunk && !final(self).finished()
                    &&& left == 0 ==> final(self).finished() && (action matches DownloadAction::<
                        E,
                    >::Finish(bytes) && bytes == total_of(old(self).counted()))
                },
                DownloadEvent::DeadlineReached => {
                    &&& final(self).counted() == old(self).counted()
                    &&& final(self).finished()
                    &&& action matches DownloadAction::<E>::Finish(bytes) && bytes == total_of(
                        old(self).counted(),
                    )
                },
                DownloadEvent::Responded => {
                    &&& final(self).counted() == old(self).counted()
                    &&& !final(self).finished()
                    &&& action == (DownloadAction::<E>::ReadBody { publish: 0 })
                },
                DownloadEvent::Chunk(bytes) => {
                    &&& final(self).counted() == old(self).counted().push(bytes)
                    &&& !final(self).finished()
                    &&& action == (DownloadAction::<E>::ReadBody { publish: bytes })
                },
                DownloadEvent::BodyEnded => {
                    &&& final(self).counted() == old(self).counted()
                    &&& !final(self).finished()
                    &&& action is CheckClock
                },
                DownloadEvent::Failed(error) => {
                    &&& final(self).counted() == old(self).counted()
                    &&& final(self).finished()
                    &&& action == DownloadAction::<E>::Fail(error)
                },
            },
    {
        match event {
            DownloadEvent::TimeLeft(left) => {
                if left > 0 {
                    DownloadAction::RequestChunk
                } else {
                    self.finished = true;
                    DownloadAction::Finish(self.tally.total())
                }
            },
            DownloadEvent::DeadlineReached => {
                self.finished = true;
                DownloadAction::Finish(self.tally.total())
            },
            DownloadEvent::Responded => DownloadAction::ReadBody { publish: 0 },
            DownloadEvent::Chunk(bytes) => {
                proof {
                    assert(self.counted().push(bytes).drop_last() =~= self.counted());
                }
                self.tally.add(bytes);
                DownloadAction::ReadBody { publish: bytes }
            },
            DownloadEvent::BodyEnded => DownloadAction::CheckClock,
            DownloadEvent::Failed(error) => {
                self.finished = true;
                DownloadAction::Fail(error)
            },
        }
    }
}

/// One upload Stream in progress.
pub struct UploadStream {
    tally: ByteTally,
    finished: bool,
}

impl UploadStream {
    /// The sizes of the chunks uploaded so far, in order.
    pub closed spec fn counted(&self) -> Seq<u64> {
        self.tally.view()
    }

    /// Whether the Stream has finished or failed.
    pub closed spec fn finished(&self) -> bool {
        self.finished
    }

    /// A Stream that has moved nothing yet. Its first job is to read the clock.
    pub fn new() -> (stream: Self)
        ensures
            stream.counted() == Seq::<u64>::empty(),
            !stream.finished(),
    {
        UploadStream { tally: ByteTally::new(), finished: false }
    }

    /// The bytes uploaded so far.
    pub fn total(&self) -> (bytes: u64)
        ensures
            bytes == total_of(self.counted()),
    {
        self.tally.total()
    }

    /// Takes in what happened and says what to do next.
    pub fn step<E>(&mut self, event: UploadEvent<E>) -> (action: UploadAction<E>)
        requires
            !old(self).finished(),
            event is Uploaded ==> total_of(old(self).counted()) + CHUNK_BYTES <= u64::MAX,
        ensures
            total_of(final(self).counted()) == total_of(old(self).counted()) + upload_published(
                action,
            ),
            match event {
                UploadEvent::TimeLeft(left) => {
                    &&& final(self).counted() == old(self).counted()
                    &&& left > 0 ==> !final(self).finished() && action == (UploadAction::<
                        E,
                    >::UploadChunk { timeout_nanos: upload_timeout(left) })
                    &&& left == 0 ==> final(self).finished() && (action matches UploadAction::<
                        E,
                    >::Finish(bytes) && bytes == total_of(old(self).counted()))
                },
                UploadEvent::TimedOut => {
                    &&& final(self).counted() == old(self).counted()
                    &&& final(self).finished()
                    &&& action matches UploadAction::<E>::Finish(bytes) && bytes == total_of(
                        old(self).counted(),
                    )
                },
                UploadEvent::Uploaded => {
                    &&& final(self).counted() == old(self).counted().push(CHUNK_BYTES as u64)
                    &&& !final(self).finished()
                    &&& action == (UploadAction::<E>::CheckClock { publish: CHUNK_BYTES as u64 })
                },
                UploadEvent::Failed(error) => {
                    &&& final(self).counted() == old(self).counted()
                    &&& final(self).finished()
                    &&& action == UploadAction::<E>::Fail(error)
                },
            },
    {
        match event {
            UploadEvent::TimeLeft(left) => {
                if left > 0 {
                    UploadAction::UploadChunk { timeout_nanos: upload_timeout_nanos(left) }
                } else {
                    self.finished = true;
                    UploadAction::Finish(self.tally.total())
                }
            },
            UploadEvent::TimedOut => {
                self.finished = true;
                UploadAction::Finish(self.tally.total())
            },
            UploadEvent::Uploaded => {
                proof {
                    assert(self.counted().push(CHUNK_BYTES as u64).drop_last() =~= self.counted());
                }
                self.tally.add(CHUNK_BYTES as u64);
                UploadAction::CheckClock { publish: CHUNK_BYTES as u64 }
            },
            UploadEvent::Failed(error) => {
                self.finished = true;
                UploadAction::Fail(error)
            },
        }
    }
}

} // verus!
