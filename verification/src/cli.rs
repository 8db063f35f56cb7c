//! What the command line asks for.

use vstd::prelude::*;
use vstd::slice::slice_subrange;

use crate::stream::{boot_signature, mbr_signature, BOOT_SIGNATURE};
use crate::text::{chars_of, find, hex4, occurs_at, push_hex4, string_of};

verus! {

/// The options of the command line.
#[derive(Debug)]
pub struct Args {
    /// Source physical drive number.
    pub disk: Option<u32>,
    /// Run VSS diagnostic and exit.
    pub debug_vss: bool,
    /// Run image builder diagnostic and exit.
    pub debug_image: bool,
    /// Write to local file.
    pub output: Option<String>,
    /// Write to local physical drive.
    pub target_disk: Option<u32>,
    /// Stream via SSH (user@host).
    pub ssh: Option<String>,
    /// Remote path for SSH.
    pub remote_path: Option<String>,
}

/// Where the image goes.
#[derive(Debug)]
pub enum Destination {
    File { path: String },
    Disk { number: u32 },
    Ssh { target: String, remote_path: String },
}

/// What is to be done.
#[derive(Debug)]
pub enum Command {
    DebugVss { disk: u32 },
    DebugImage { disk: u32 },
    Clone { disk: u32, destination: Destination },
}

/// [`Args`] over characters.
pub struct ArgsView {
    pub disk: Option<u32>,
    pub debug_vss: bool,
    pub debug_image: bool,
    pub output: Option<Seq<char>>,
    pub target_disk: Option<u32>,
    pub ssh: Option<Seq<char>>,
    pub remote_path: Option<Seq<char>>,
}

/// The characters of a text that may be missing.
pub open spec fn text_of(s: Option<String>) -> Option<Seq<char>> {
    match s {
        Some(t) => Some(t@),
        None => None,
    }
}

impl View for Args {
    type V = ArgsView;

    open spec fn view(&self) -> ArgsView {
        ArgsView {
            disk: self.disk,
            debug_vss: self.debug_vss,
            debug_image: self.debug_image,
            output: text_of(self.output),
            target_disk: self.target_disk,
            ssh: text_of(self.ssh),
            remote_path: text_of(self.remote_path),
        }
    }
}

/// A [`Destination`] over characters.
pub enum DestinationView {
    File { path: Seq<char> },
    Disk { number: u32 },
    Ssh { target: Seq<char>, remote_path: Seq<char> },
}

impl View for Destination {
    type V = DestinationView;

    open spec fn view(&self) -> DestinationView {
        match self {
            Destination::File { path } => DestinationView::File { path: path@ },
            Destination::Disk { number } => DestinationView::Disk { number: *number },
            Destination::Ssh { target, remote_path } => DestinationView::Ssh {
                target: target@,
                remote_path: remote_path@,
            },
        }
    }
}

/// A [`Command`] over the view of its destination.
pub enum CommandView {
    DebugVss { disk: u32 },
    DebugImage { disk: u32 },
    Clone { disk: u32, destination: DestinationView },
}

impl View for Command {
    type V = CommandView;

    open spec fn view(&self) -> CommandView {
        match self {
            Command::DebugVss { disk } => CommandView::DebugVss { disk: *disk },
            Command::DebugImage { disk } => CommandView::DebugImage { disk: *disk },
            Command::Clone { disk, destination } => CommandView::Clone {
                disk: *disk,
                destination: destination@,
            },
        }
    }
}

/// The remote path where none is given.
pub open spec fn default_remote_path() -> Seq<char> {
    "/tmp/diskclone.img"@
}

/// Where the image goes, if that is said exactly once.
pub open spec fn destination_of(a: ArgsView) -> Option<DestinationView> {
    match (a.output, a.target_disk, a.ssh) {
        (Some(path), None, None) => Some(DestinationView::File { path }),
        (None, Some(number), None) => Some(DestinationView::Disk { number }),
        (None, None, Some(target)) => Some(
            DestinationView::Ssh {
                target,
                remote_path: match a.remote_path {
                    Some(p) => p,
                    None => default_remote_path(),
                },
            },
        ),
        _ => None,
    }
}

/// What is to be done, or the message on what is wrong with the options.
pub open spec fn command_of(a: ArgsView) -> Result<CommandView, Seq<char>> {
    match a.disk {
        Some(disk) => if a.debug_vss {
            Ok(CommandView::DebugVss { disk })
        } else if a.debug_image {
            Ok(CommandView::DebugImage { disk })
        } else {
            match destination_of(a) {
                Some(destination) => Ok(CommandView::Clone { disk, destination }),
                None => Err(
                    "Error: Exactly one of --output, --target-disk, or --ssh must be specified"@,
                ),
            }
        },
        None => Err(
            if a.debug_vss {
                "Error: --debug-vss requires --disk N"@
            } else if a.debug_image {
                "Error: --debug-image requires --disk N"@
            } else {
                "Error: --disk N is required"@
            },
        ),
    }
}

impl Args {
    fn destination(self) -> (r: Option<Destination>)
        ensures
            match r {
                Some(d) => destination_of(self@) == Some(d@),
                None => destination_of(self@) is None,
            },
            match r {
                Some(Destination::File { path }) => self.output == Some(path),
                Some(Destination::Disk { number }) => self.target_disk == Some(number),
                Some(Destination::Ssh { target, remote_path }) => self.ssh == Some(target) && (
                match self.remote_path {
                    Some(given) => remote_path == given,
                    None => remote_path@ == "/tmp/diskclone.img"@,
                }),
                None => true,
            },
    {
        match (self.output, self.target_disk, self.ssh) {
            (Some(path), None, None) => Some(Destination::File { path }),
            (None, Some(number), None) => Some(Destination::Disk { number }),
            (None, None, Some(target)) => {
                let remote_path = match self.remote_path {
                    Some(p) => p,
                    None => "/tmp/diskclone.img".to_owned(),
                };
                Some(Destination::Ssh { target, remote_path })
            },
            _ => None,
        }
    }

    /// What is to be done, or the message on what is wrong with the options.
    pub fn command(self) -> (r: Result<Command, String>)
        ensures
            match r {
                Ok(c) => command_of(self@) == Ok::<CommandView, Seq<char>>(c@),
                Err(m) => command_of(self@) == Err::<CommandView, Seq<char>>(m@),
            },
            match r {
                Ok(Command::DebugVss { disk }) => self.debug_vss && self.disk == Some(disk),
                Ok(Command::DebugImage { disk }) => !self.debug_vss && self.debug_image
                    && self.disk == Some(disk),
                Ok(Command::Clone { disk, destination }) => !self.debug_vss && !self.debug_image
                    && self.disk == Some(disk) && (match destination {
                    Destination::File { path } => self.output == Some(path),
                    Destination::Disk { number } => self.target_disk == Some(number),
                    Destination::Ssh { target, remote_path } => self.ssh == Some(target) && (
                    match self.remote_path {
                        Some(given) => remote_path == given,
                        None => remote_path@ == "/tmp/diskclone.img"@,
                    }),
                }),
                Err(_) => self.disk is None || !(self.debug_vss || self.debug_image),
            },
    {
        let disk = match self.disk {
            Some(disk) => disk,
            None => {
                return Err(
                    if self.debug_vss {
                        "Error: --debug-vss requires --disk N".to_owned()
                    } else if self.debug_image {
                        "Error: --debug-image requires --disk N".to_owned()
                    } else {
                        "Error: --disk N is required".to_owned()
                    },
                );
            },
        };
        if self.debug_vss {
            return Ok(Command::DebugVss { disk });
        }
        if self.debug_image {
            return Ok(Command::DebugImage { disk });
        }
        match self.destination() {
            Some(destination) => Ok(Command::Clone { disk, destination }),
            None => Err(
                "Error: Exactly one of --output, --target-disk, or --ssh must be specified".to_owned(),
            ),
        }
    }
}

/// Without a source disk, or without exactly one destination where nothing is
/// to be diagnosed, the options are refused; else they are carried out.
pub proof fn law_options_are_refused_or_carried_out(a: ArgsView)
    ensures
        command_of(a) is Err <==> a.disk is None || (!a.debug_vss && !a.debug_image && !exactly_one(
            a.output is Some,
            a.target_disk is Some,
            a.ssh is Some,
        )),
        command_of(a) matches Err(m) ==> m == if a.disk is Some {
            "Error: Exactly one of --output, --target-disk, or --ssh must be specified"@
        } else if a.debug_vss {
            "Error: --debug-vss requires --disk N"@
        } else if a.debug_image {
            "Error: --debug-image requires --disk N"@
        } else {
            "Error: --disk N is required"@
        },
{
}

/// One of the three holds, and no other.
pub open spec fn exactly_one(a: bool, b: bool, c: bool) -> bool {
    (a || b || c) && !(a && b) && !(a && c) && !(b && c)
}

/// The disk of a command is the source disk of the options, and a diagnosis
/// that they ask for goes before a clone; that of VSS goes first.
pub proof fn law_command_is_on_source_disk(a: ArgsView, disk: u32)
    requires
        a.disk == Some(disk),
    ensures
        a.debug_vss ==> command_of(a) == Ok::<CommandView, Seq<char>>(
            CommandView::DebugVss { disk },
        ),
        !a.debug_vss && a.debug_image ==> command_of(a) == Ok::<CommandView, Seq<char>>(
            CommandView::DebugImage { disk },
        ),
        !a.debug_vss && !a.debug_image && command_of(a) is Ok ==> (command_of(a)->Ok_0 is Clone
            && command_of(a)->Ok_0->Clone_disk == disk),
{
}

/// Whatever path is given for the remote system, an image that goes there goes
/// to that path; the default path is for options that give none. A file and a
/// disk are those that are named.
pub proof fn law_image_goes_where_it_is_sent(a: ArgsView)
    requires
        command_of(a) matches Ok(c) && c is Clone,
    ensures
        ({
            let d = command_of(a)->Ok_0->destination;
            match d {
                DestinationView::File { path } => a.output == Some(path),
                DestinationView::Disk { number } => a.target_disk == Some(number),
                DestinationView::Ssh { target, remote_path } => {
                    &&& a.ssh == Some(target)
                    &&& a.remote_path matches Some(given) ==> remote_path == given
                    &&& a.remote_path is None ==> remote_path == "/tmp/diskclone.img"@
                },
            }
        }),
        a.output is Some ==> command_of(a)->Ok_0->destination is File,
        a.target_disk is Some ==> command_of(a)->Ok_0->destination is Disk,
        a.ssh is Some ==> command_of(a)->Ok_0->destination is Ssh,
{
}

/// Options and commands are seen as they are.
pub proof fn law_views_of_options_and_commands(a: Args, d: Destination, c: Command)
    ensures
        a@.disk == a.disk,
        a@.debug_vss == a.debug_vss,
        a@.debug_image == a.debug_image,
        a@.target_disk == a.target_disk,
        a.output matches Some(p) ==> a@.output == Some(p@),
        a.output is None ==> a@.output is None,
        a.ssh matches Some(p) ==> a@.ssh == Some(p@),
        a.ssh is None ==> a@.ssh is None,
        a.remote_path matches Some(p) ==> a@.remote_path == Some(p@),
        a.remote_path is None ==> a@.remote_path is None,
        d matches Destination::File { path } ==> d@ == (DestinationView::File { path: path@ }),
        d matches Destination::Disk { number } ==> d@ == (DestinationView::Disk { number }),
        d matches Destination::Ssh { target, remote_path } ==> d@ == (DestinationView::Ssh {
            target: target@,
            remote_path: remote_path@,
        }),
        c matches Command::DebugVss { disk } ==> c@ == (CommandView::DebugVss { disk }),
        c matches Command::DebugImage { disk } ==> c@ == (CommandView::DebugImage { disk }),
        c matches Command::Clone { disk, destination } ==> c@ == (CommandView::Clone {
            disk,
            destination: destination@,
        }),
{
}

/// The user and the host of an SSH target: what stands before and behind its
/// first `@`.
pub fn ssh_user_and_host(target: &str) -> (r: Option<(String, String)>)
    ensures
        match r {
            Some((user, host)) => target@ == user@ + "@"@ + host@ && !user@.contains('@'),
            None => !target@.contains('@'),
        },
{
    proof {
        reveal_strlit("@");
    }
    let v = chars_of(target);
    let ghost at = "@"@;
    match find(v.as_slice(), chars_of("@").as_slice()) {
        Some(i) => {
            let user = string_of(slice_subrange(v.as_slice(), 0, i));
            let len: usize = v.len();
            assert(i < len);
            let host = string_of(slice_subrange(v.as_slice(), i + 1, len));
            proof {
                assert(v@.subrange(i as int, i + 1) == at);
                assert(v@.subrange(i as int, i + 1)[0] == v@[i as int]);
                assert(target@ =~= user@ + at + host@);
                assert forall|j: int| 0 <= j < user@.len() implies user@[j] != '@' by {
                    assert(!occurs_at(v@, at, j));
                    if v@[j] == '@' {
                        assert(v@.subrange(j, j + 1) =~= at);
                    }
                }
            }
            Some((user, host))
        },
        None => {
            proof {
                if target@.contains('@') {
                    let j = choose|j: int| 0 <= j < target@.len() && target@[j] == '@';
                    assert(v@.subrange(j, j + 1) =~= at);
                    assert(occurs_at(v@, at, j));
                }
            }
            None
        },
    }
}

/// The warning on an image file whose first sector is no boot sector. There
/// is none if not all of the sector could be read.
pub fn output_warning(head: &[u8]) -> (r: Option<String>)
    ensures
        match r {
            Some(m) => head@.len() >= 512 && boot_signature(head@) != BOOT_SIGNATURE && m@
                == "WARNING: Output file MBR signature invalid (0x"@ + hex4(boot_signature(head@))
                + "), image may be corrupted"@,
            None => head@.len() < 512 || boot_signature(head@) == BOOT_SIGNATURE,
        },
{
    if head.len() >= 512 {
        let signature = mbr_signature(head);
        if signature != BOOT_SIGNATURE {
            let mut m = "WARNING: Output file MBR signature invalid (0x".to_owned();
            push_hex4(&mut m, signature);
            m.append("), image may be corrupted");
            return Some(m);
        }
    }
    None
}

} // verus!
