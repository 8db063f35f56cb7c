//! Local output sinks for disk image.

use std::sync::atomic::{AtomicU64, Ordering};
use std::sync::Arc;

use vstd::prelude::*;

use crate::disk::{call_length, disk_image_request, open_disk_for_image, windows_path, OpenFlags, OpenRequest, OpenView, Share};
use crate::error::{DiskCloneError, ErrorView};
use crate::text::{decimal, push_decimal, replace_char};
use crate::wide::{encode, has_inner_nul, nul_text, terminated, wide_c_string};

verus! {

/// Trait for writing disk image data.
pub trait ImageSink: Send {
    /// What a call of `write` with `data` may return, and which sink it may
    /// leave behind: anything, unless the sink says more.
    open spec fn may_write(
        &self,
        data: Seq<u8>,
        after: &Self,
        r: Result<usize, DiskCloneError>,
    ) -> bool {
        true
    }

    /// What a call of `flush` may return, and which sink it may leave behind:
    /// anything, unless the sink says more.
    open spec fn may_flush(&self, after: &Self, r: Result<(), DiskCloneError>) -> bool {
        true
    }

    /// Writes a chunk of data. Returns number of bytes written.
    fn write(&mut self, data: &[u8]) -> (r: Result<usize, DiskCloneError>)
        ensures
            old(self).may_write(data@, final(self), r),
    ;

    /// Flushes any buffered data.
    fn flush(&mut self) -> (r: Result<(), DiskCloneError>)
        ensures
            old(self).may_flush(final(self), r),
    ;
}

/// Wraps an ImageSink to report progress via a shared atomic counter.
/// Use `bytes_written` for progress display.
pub struct ProgressSink<S: ImageSink> {
    pub inner: S,
    pub bytes_written: Arc<AtomicU64>,
    pub total_bytes: u64,
    /// What this sink has added to the counter. The counter itself is shared,
    /// and may hold anything else besides.
    pub added: Ghost<int>,
}

impl<S: ImageSink> ProgressSink<S> {
    pub fn new(inner: S, bytes_written: Arc<AtomicU64>, total_bytes: u64) -> (r: Self)
        ensures
            r.inner == inner,
            r.bytes_written == bytes_written,
            r.total_bytes == total_bytes,
            r.added@ == 0,
    {
        ProgressSink { inner, bytes_written, total_bytes, added: Ghost(0) }
    }

    /// Adds to the counter.
    fn advance(&mut self, n: usize)
        ensures
            final(self).inner == old(self).inner,
            final(self).bytes_written == old(self).bytes_written,
            final(self).total_bytes == old(self).total_bytes,
            final(self).added@ == old(self).added@ + n,
    {
        let k = count(n);
        self.bytes_written.fetch_add(k, Ordering::Relaxed);
        self.added = Ghost(self.added@ + k);
    }
}

fn count(n: usize) -> (r: u64)
    ensures
        r == n,
{
    n as u64
}

impl<S: ImageSink> ImageSink for ProgressSink<S> {
    /// The data goes to the inner sink as it is, and what that returns is
    /// returned. The bytes that it took are added to the counter.
    open spec fn may_write(
        &self,
        data: Seq<u8>,
        after: &Self,
        r: Result<usize, DiskCloneError>,
    ) -> bool {
        &&& self.inner.may_write(data, &after.inner, r)
        &&& after.bytes_written == self.bytes_written
        &&& after.total_bytes == self.total_bytes
        &&& after.added@ == self.added@ + (match r {
            Ok(n) => n as int,
            Err(_) => 0,
        })
    }

    open spec fn may_flush(&self, after: &Self, r: Result<(), DiskCloneError>) -> bool {
        &&& self.inner.may_flush(&after.inner, r)
        &&& after.bytes_written == self.bytes_written
        &&& after.total_bytes == self.total_bytes
        &&& after.added@ == self.added@
    }

    /// Writes to the inner sink, and adds the bytes that it took to the
    /// counter. What the counter holds is not part of the contract: others may
    /// change it at any time.
    fn write(&mut self, data: &[u8]) -> (r: Result<usize, DiskCloneError>) {
        match self.inner.write(data) {
            Ok(n) => {
                self.advance(n);
                Ok(n)
            },
            Err(e) => Err(e),
        }
    }

    fn flush(&mut self) -> (r: Result<(), DiskCloneError>) {
        self.inner.flush()
    }
}

/// Writes disk image to a local file, which is opened for this alone.
#[derive(Debug)]
pub struct FileSink {
    /// How the file is opened.
    pub request: OpenRequest,
}

/// A file to write an image to: made anew, and shared with nobody.
pub open spec fn file_image_request(path: Seq<char>) -> OpenView {
    OpenView {
        path: terminated(encode(windows_path(path))),
        read: false,
        write: true,
        share: Share::Nothing,
        create: true,
        flags: OpenFlags::Normal,
    }
}

/// The message on a write that the file took only part of.
pub open spec fn short_write_text(requested: int, written: int) -> Seq<char> {
    "Short write: requested "@ + decimal(requested as nat) + " bytes, wrote "@ + decimal(
        written as nat,
    )
}

impl FileSink {
    pub fn new(path: &str) -> (r: Result<Self, DiskCloneError>)
        ensures
            ({
                let u = encode(windows_path(path@));
                match r {
                    Ok(s) => !has_inner_nul(u) && s.request@ == file_image_request(path@),
                    Err(e) => has_inner_nul(u) && e@ == ErrorView::Io(nul_text(u)),
                }
            }),
    {
        match wide_c_string(replace_char(path, '/', "\\").as_str()) {
            Ok(path) => Ok(
                FileSink {
                    request: OpenRequest {
                        path,
                        read: false,
                        write: true,
                        share: Share::Nothing,
                        create: true,
                        flags: OpenFlags::Normal,
                    },
                },
            ),
            Err(m) => Err(DiskCloneError::Io(m)),
        }
    }

    /// What a write of `requested` bytes returns when the file took `written`.
    pub fn wrote(&self, requested: usize, written: u32) -> (r: Result<usize, DiskCloneError>)
        ensures
            match r {
                Ok(n) => requested == written && n == requested,
                Err(e) => requested != written && e@ == ErrorView::Other(
                    short_write_text(requested as int, written as int),
                ),
            },
    {
        if requested as u64 != written as u64 {
            let mut m = String::new();
            m.append("Short write: requested ");
            push_decimal(&mut m, requested as u64);
            m.append(" bytes, wrote ");
            push_decimal(&mut m, written as u64);
            assert(m@ =~= short_write_text(requested as int, written as int));
            return Err(DiskCloneError::Other(m));
        }
        Ok(requested)
    }
}

/// Writes disk image directly to a physical disk.
/// Requires sector-aligned writes (512 bytes).
#[derive(Debug)]
pub struct LocalDiskSink {
    /// How the disk is opened.
    pub request: OpenRequest,
}

impl LocalDiskSink {
    pub fn new(disk_number: u32) -> (r: Result<Self, DiskCloneError>)
        ensures
            match r {
                Ok(s) => s.request@ == disk_image_request(disk_number),
                Err(_) => false,
            },
    {
        match open_disk_for_image(disk_number) {
            Ok(request) => Ok(LocalDiskSink { request }),
            Err(e) => Err(e),
        }
    }

    /// Starts to write `len` bytes.
    pub fn write(&self, len: usize) -> (r: DiskWrite)
        ensures
            r.len == len,
            r.done == 0,
    {
        DiskWrite { len, done: 0 }
    }
}

/// A chunk of data on its way to a disk, which may take it in parts.
#[derive(Debug)]
pub struct DiskWrite {
    pub len: usize,
    /// How much the disk has taken.
    pub done: usize,
}

/// What to do next with the chunk.
#[derive(Debug, Clone, Copy, PartialEq, Eq, Structural)]
pub enum DiskWriteOp {
    /// Hand `length` bytes from `start` on to the disk.
    Write { start: usize, length: u32 },
    /// The disk has taken `total` bytes, and will be given no more.
    Done { total: usize },
}

/// How a chunk of `len` bytes goes on, of which the disk has taken `done`, the
/// last time `wrote`: the rest is handed over, until the disk has all or takes
/// nothing.
pub open spec fn disk_write_op(len: usize, done: usize, wrote: Option<u32>) -> DiskWriteOp {
    if done < len && wrote != Some(0u32) {
        DiskWriteOp::Write { start: done, length: ((len - done) % 0x1_0000_0000) as u32 }
    } else {
        DiskWriteOp::Done { total: done }
    }
}

impl DiskWrite {
    /// Takes how much the disk took the last time it was handed data, `None`
    /// at the start, and gives what to do next.
    pub fn step(&mut self, wrote: Option<u32>) -> (op: DiskWriteOp)
        requires
            old(self).done <= old(self).len,
            wrote matches Some(n) ==> n <= old(self).len - old(self).done,
        ensures
            final(self).len == old(self).len,
            final(self).done == old(self).done + (match wrote {
                Some(n) => n as int,
                None => 0,
            }),
            op == disk_write_op(final(self).len, final(self).done, wrote),
    {
        if let Some(n) = wrote {
            self.done = self.done + n as usize;
            if n == 0 {
                return DiskWriteOp::Done { total: self.done };
            }
        }
        if self.done < self.len {
            DiskWriteOp::Write { start: self.done, length: call_length(self.len - self.done) }
        } else {
            DiskWriteOp::Done { total: self.done }
        }
    }
}

/// A chunk that ends short of its length was refused: the disk took nothing
/// of what it was handed last.
pub proof fn law_short_write_was_refused(len: usize, done: usize, wrote: Option<u32>)
    requires
        done <= len,
        disk_write_op(len, done, wrote) is Done,
    ensures
        disk_write_op(len, done, wrote)->total == done,
        done == len || wrote == Some(0u32),
{
}

} // verus!
