//! That sinks take what they are given, and open what they were named.

use vstd::prelude::*;

use crate::disk::{windows_path, OpenFlags, OpenRequest, Share};
use crate::disk_laws::{law_slashes_become_backslashes, law_sources_are_opened_to_read, names};
use crate::error::{DiskCloneError, ErrorView};
use crate::local_sink::{disk_write_op, file_image_request, short_write_text, DiskWriteOp, ImageSink, ProgressSink};
use crate::text::decimal;
use crate::text_laws::{law_decimal_can_be_read, read_decimal};

verus! {

/// A file that takes an image is opened under its path with backslashes, is
/// made anew, is written and not read, and is shared with nobody.
pub proof fn law_image_file_is_made_anew(path: Seq<char>)
    requires
        !path.contains('\0'),
    ensures
        ({
            let q = file_image_request(path);
            &&& names(q.path, windows_path(path))
            &&& q.write && !q.read
            &&& q.share == Share::Nothing
            &&& q.create
            &&& q.flags == OpenFlags::Normal
        }),
{
    law_slashes_become_backslashes(path);
    let p = windows_path(path);
    assert forall|i: int| 0 <= i < p.len() implies #[trigger] p[i] != '\0' by {
        assert(path.contains(path[i]));
    }
    law_sources_are_opened_to_read(p, OpenFlags::Normal);
}

/// The message on a short write gives both numbers.
pub proof fn law_short_write_gives_both_numbers(requested: int, written: int) -> (r: (
    Seq<char>,
    Seq<char>,
))
    requires
        requested >= 0,
        written >= 0,
    ensures
        short_write_text(requested, written) == "Short write: requested "@ + r.0
            + " bytes, wrote "@ + r.1,
        read_decimal(r.0) == requested,
        read_decimal(r.1) == written,
{
    law_decimal_can_be_read(requested as nat);
    law_decimal_can_be_read(written as nat);
    (decimal(requested as nat), decimal(written as nat))
}

/// A chunk goes to the disk from its first byte on: what the disk has not taken
/// is handed over, all of it where it is less than four gigabytes, until the
/// disk has all or takes nothing.
pub proof fn law_disk_is_handed_the_rest(len: usize, done: usize, wrote: Option<u32>)
    requires
        done <= len,
    ensures
        ({
            let op = disk_write_op(len, done, wrote);
            &&& op is Done <==> done == len || wrote == Some(0u32)
            &&& op matches DiskWriteOp::Done { total } ==> total == done
            &&& op matches DiskWriteOp::Write { start, length } ==> start == done && start + length
                <= len && (len - done < 0x1_0000_0000 ==> start + length == len)
        }),
{
    if done < len {
        vstd::arithmetic::div_mod::lemma_mod_decreases((len - done) as nat, 0x1_0000_0000);
    }
}

/// What a sink that reports progress is given goes to the sink in it as it is,
/// and what that returns is returned.
pub proof fn law_progress_is_only_reported<S: ImageSink>(
    sink: ProgressSink<S>,
    after: ProgressSink<S>,
    data: Seq<u8>,
    w: Result<usize, DiskCloneError>,
    f: Result<(), DiskCloneError>,
)
    ensures
        sink.may_write(data, &after, w) ==> sink.inner.may_write(data, &after.inner, w)
            && after.bytes_written == sink.bytes_written && after.total_bytes == sink.total_bytes,
        sink.may_write(data, &after, w) && w is Ok ==> after.added@ - sink.added@ == w->Ok_0,
        sink.may_write(data, &after, w) && w is Err ==> after.added@ == sink.added@,
        sink.may_flush(&after, f) ==> sink.inner.may_flush(&after.inner, f) && after.added@
            == sink.added@ && after.bytes_written == sink.bytes_written && after.total_bytes
            == sink.total_bytes,
{
}

/// Requests and errors are seen as they are.
pub proof fn law_views_of_requests_and_errors(q: OpenRequest, text: String)
    ensures
        q@.path == q.path@,
        q@.read == q.read,
        q@.write == q.write,
        q@.share == q.share,
        q@.create == q.create,
        q@.flags == q.flags,
        DiskCloneError::Io(text)@ == ErrorView::Io(text@),
        DiskCloneError::Vss(text)@ == ErrorView::Vss(text@),
        DiskCloneError::Ssh(text)@ == ErrorView::Ssh(text@),
        DiskCloneError::Other(text)@ == ErrorView::Other(text@),
{
}

} // verus!
