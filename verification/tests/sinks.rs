//! The places that an image is written to.

use std::sync::atomic::{AtomicU64, Ordering};
use std::sync::Arc;

use diskclone::disk::{OpenFlags, Share};
use diskclone::error::DiskCloneError;
use diskclone::local_sink::{DiskWriteOp, FileSink, ImageSink, LocalDiskSink, ProgressSink};
use diskclone::ssh_sink::{create_ssh_session, LoginMethod, LoginOp, SshSink};

fn wide(s: &str) -> Vec<u16> {
    let mut v: Vec<u16> = s.encode_utf16().collect();
    v.push(0);
    v
}

struct Bytes {
    data: Vec<u8>,
    takes: usize,
    flushed: bool,
    broken: bool,
}

impl ImageSink for Bytes {
    fn write(&mut self, data: &[u8]) -> Result<usize, DiskCloneError> {
        if self.broken {
            return Err(DiskCloneError::Other("broken".to_string()));
        }
        let n = data.len().min(self.takes);
        self.data.extend_from_slice(&data[..n]);
        Ok(n)
    }

    fn flush(&mut self) -> Result<(), DiskCloneError> {
        if self.broken {
            return Err(DiskCloneError::Other("stuck".to_string()));
        }
        self.flushed = true;
        Ok(())
    }
}

#[test]
fn progress_counts_what_was_taken() {
    let counter = Arc::new(AtomicU64::new(5));
    let inner = Bytes { data: Vec::new(), takes: 3, flushed: false, broken: false };
    let mut s = ProgressSink::new(inner, counter.clone(), 100);
    assert_eq!(s.total_bytes, 100);
    assert_eq!(s.write(&[1, 2, 3, 4]).unwrap(), 3);
    assert_eq!(s.write(&[9]).unwrap(), 1);
    assert_eq!(counter.load(Ordering::Relaxed), 9);
    assert_eq!(s.inner.data, vec![1, 2, 3, 9]);
    s.flush().unwrap();
    assert!(s.inner.flushed);
}

#[test]
fn progress_passes_errors_on() {
    let counter = Arc::new(AtomicU64::new(0));
    let inner = Bytes { data: Vec::new(), takes: 3, flushed: false, broken: true };
    let mut s = ProgressSink::new(inner, counter.clone(), 100);
    assert_eq!(s.write(&[1]).unwrap_err().message(), "broken");
    assert_eq!(s.flush().unwrap_err().message(), "stuck");
    assert_eq!(counter.load(Ordering::Relaxed), 0);
}

#[test]
fn file_is_made_anew() {
    let s = FileSink::new("C:/backup/disk.img").unwrap();
    assert_eq!(s.request.path, wide("C:\\backup\\disk.img"));
    assert_eq!((s.request.read, s.request.write, s.request.create), (false, true, true));
    assert_eq!(s.request.share, Share::Nothing);
    assert_eq!(s.request.flags, OpenFlags::Normal);
    let e = FileSink::new("a\0b").unwrap_err();
    assert_eq!(e.message(), "I/O error: invalid nul value found at position 1");
}

#[test]
fn short_write_to_a_file_is_an_error() {
    let s = FileSink::new("x").unwrap();
    assert_eq!(s.wrote(1024, 1024).unwrap(), 1024);
    assert_eq!(s.wrote(0, 0).unwrap(), 0);
    assert_eq!(
        s.wrote(1024, 512).unwrap_err().message(),
        "Short write: requested 1024 bytes, wrote 512"
    );
}

#[test]
fn target_disk_is_opened_beside_others() {
    let s = LocalDiskSink::new(1).unwrap();
    assert_eq!(s.request.path, wide("\\\\.\\PhysicalDrive1"));
    assert_eq!((s.request.read, s.request.write, s.request.create), (false, true, false));
    assert_eq!(s.request.share, Share::Write);
    assert_eq!(s.request.flags, OpenFlags::Normal);
}

#[test]
fn disk_is_handed_the_rest() {
    let s = LocalDiskSink::new(1).unwrap();
    let mut w = s.write(1000);
    assert_eq!(w.step(None), DiskWriteOp::Write { start: 0, length: 1000 });
    assert_eq!(w.step(Some(300)), DiskWriteOp::Write { start: 300, length: 700 });
    assert_eq!(w.step(Some(700)), DiskWriteOp::Done { total: 1000 });
}

#[test]
fn disk_that_takes_nothing_ends_the_write() {
    let s = LocalDiskSink::new(1).unwrap();
    let mut w = s.write(1000);
    assert_eq!(w.step(None), DiskWriteOp::Write { start: 0, length: 1000 });
    assert_eq!(w.step(Some(300)), DiskWriteOp::Write { start: 300, length: 700 });
    assert_eq!(w.step(Some(0)), DiskWriteOp::Done { total: 300 });
    assert_eq!(s.write(0).step(None), DiskWriteOp::Done { total: 0 });
}

#[test]
fn one_call_hands_over_a_number_of_four_bytes() {
    let s = LocalDiskSink::new(1).unwrap();
    assert_eq!(
        s.write(0x1_0000_0200).step(None),
        DiskWriteOp::Write { start: 0, length: 0x200 }
    );
}

/// The ways that are tried when the one at index `works` does.
fn login(home: bool, password: bool, works: usize) -> (Vec<LoginMethod>, Option<String>) {
    let mut l = create_ssh_session("backup-server", home, password);
    assert_eq!(l.address, "backup-server:22");
    let mut tried = Vec::new();
    let mut op = l.start();
    loop {
        match op {
            LoginOp::Try(m) => {
                tried.push(m);
                op = l.step(tried.len() == works + 1);
                assert_eq!(l.address, "backup-server:22");
            }
            LoginOp::Accepted => return (tried, None),
            LoginOp::Refused { error } => return (tried, Some(error.message())),
        }
    }
}

#[test]
fn login_tries_one_way_after_the_other() {
    assert_eq!(login(true, true, 0), (vec![LoginMethod::Agent], None));
    assert_eq!(login(true, true, 2), (vec![LoginMethod::Agent, LoginMethod::Ed25519Key, LoginMethod::RsaKey], None));
    assert_eq!(login(true, true, 3), (vec![LoginMethod::Agent, LoginMethod::Ed25519Key, LoginMethod::RsaKey, LoginMethod::Password], None));
    assert_eq!(login(false, true, 1), (vec![LoginMethod::Agent, LoginMethod::Password], None));
}

#[test]
fn login_is_refused_when_all_fails() {
    let message = "SSH authentication failed. Try: ssh-add, ensure ~/.ssh/id_ed25519 or id_rsa exists, or use password auth (--ssh-password)";
    let (tried, refused) = login(true, true, 9);
    assert_eq!(tried.len(), 4);
    assert_eq!(refused.as_deref(), Some(message));
    let (tried, refused) = login(false, false, 9);
    assert_eq!(tried, vec![LoginMethod::Agent]);
    assert_eq!(refused.as_deref(), Some(message));
}

#[test]
fn receive_commands() {
    assert_eq!(SshSink::new("/dev/sdb").command, "dd of=\"/dev/sdb\" bs=512 2>/dev/null");
    assert_eq!(SshSink::new_cat("/backup/disk.img").command, "cat > \"/backup/disk.img\"");
    assert_eq!(SshSink::new("/a\"b$c").command, "dd of=\"/a\\\"b\\$c\" bs=512 2>/dev/null");
    assert_eq!(SshSink::new_cat("/a\"b$c").command, "cat > \"/a\\\"b\\$c\"");
}

#[test]
fn devices_are_written_with_dd() {
    assert_eq!(SshSink::for_path("/dev/sdb").command, SshSink::new("/dev/sdb").command);
    assert_eq!(SshSink::for_path("/dev").command, SshSink::new_cat("/dev").command);
    assert_eq!(SshSink::for_path("/tmp/dev/x").command, SshSink::new_cat("/tmp/dev/x").command);
}

/// The word that a shell takes the text between quotation marks for.
fn shell_word(quoted: &str) -> String {
    let mut word = String::new();
    let mut chars = quoted.chars().peekable();
    while let Some(c) = chars.next() {
        if c == '\\' && matches!(chars.peek(), Some('"' | '$' | '`' | '\\')) {
            word.push(chars.next().unwrap());
        } else {
            assert!(!matches!(c, '"' | '$' | '`'));
            word.push(c);
        }
    }
    word
}

#[test]
fn quoted_path_is_the_path() {
    let paths = [
        "/backup/disk.img",
        "/dev/sdb",
        "/a \"b\" $HOME/c",
        "$$\"\"",
        "`id`",
        "\\",
        "a\\\"b\\$c\\`d\\\\e",
        "",
    ];
    for path in paths {
        let command = SshSink::new_cat(path).command;
        let quoted = &command["cat > \"".len()..command.len() - 1];
        assert_eq!(shell_word(quoted), path);
        let command = SshSink::new(path).command;
        let quoted = &command["dd of=\"".len()..command.len() - "\" bs=512 2>/dev/null".len()];
        assert_eq!(shell_word(quoted), path);
    }
}
