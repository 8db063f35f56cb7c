//! SSH output sink for streaming disk image to remote system.

use vstd::prelude::*;

use crate::error::{DiskCloneError, ErrorView};
use crate::text::{chars_of, starts_with};

verus! {

broadcast use vstd::seq::group_seq_axioms;

/// A way to prove to the remote system who the user is.
#[derive(Debug, Clone, Copy, PartialEq, Eq, Structural)]
pub enum LoginMethod {
    /// The keys of the SSH agent.
    Agent,
    /// The key in `~/.ssh/id_ed25519`.
    Ed25519Key,
    /// The key in `~/.ssh/id_rsa`.
    RsaKey,
    Password,
}

/// The ways that are tried, in this order: the agent first, then the keys if
/// the home directory is known, then the password if there is one.
pub open spec fn login_methods(home: bool, password: bool) -> Seq<LoginMethod> {
    seq![LoginMethod::Agent] + (if home {
        seq![LoginMethod::Ed25519Key, LoginMethod::RsaKey]
    } else {
        seq![]
    }) + (if password {
        seq![LoginMethod::Password]
    } else {
        seq![]
    })
}

/// What to do next to log in.
#[derive(Debug)]
pub enum LoginOp {
    Try(LoginMethod),
    /// The user is logged in.
    Accepted,
    Refused { error: DiskCloneError },
}

/// A [`LoginOp`] over the view of its error.
pub enum LoginOpView {
    Try(LoginMethod),
    Accepted,
    Refused { error: ErrorView },
}

impl View for LoginOp {
    type V = LoginOpView;

    open spec fn view(&self) -> LoginOpView {
        match self {
            LoginOp::Try(m) => LoginOpView::Try(*m),
            LoginOp::Accepted => LoginOpView::Accepted,
            LoginOp::Refused { error } => LoginOpView::Refused { error: error@ },
        }
    }
}

/// The error of a user who could not be logged in.
pub open spec fn login_error() -> ErrorView {
    ErrorView::Other(
        "SSH authentication failed. Try: ssh-add, ensure ~/.ssh/id_ed25519 or id_rsa exists, or use password auth (--ssh-password)"@,
    )
}

/// Goes on with the way at index `i`; the user is refused if there is none.
pub open spec fn login_at(methods: Seq<LoginMethod>, i: int) -> LoginOpView {
    if i < methods.len() {
        LoginOpView::Try(methods[i])
    } else {
        LoginOpView::Refused { error: login_error() }
    }
}

/// A user on the way to being logged in.
#[derive(Debug)]
pub struct SshLogin {
    /// The host and port to connect to.
    pub address: String,
    /// The ways that are tried.
    pub methods: Vec<LoginMethod>,
    /// How many of them have been tried.
    pub tried: usize,
}

/// Starts to create an authenticated SSH session for a user on `host`.
/// Tries agent first, then `~/.ssh/id_ed25519` and `id_rsa` if the home
/// directory is known, then the password if there is one.
pub fn create_ssh_session(host: &str, home: bool, password: bool) -> (r: SshLogin)
    ensures
        r.address@ == host@ + ":22"@,
        r.methods@ == login_methods(home, password),
        r.tried == 0,
{
    let mut address = host.to_owned();
    address.append(":22");
    let mut methods: Vec<LoginMethod> = Vec::new();
    methods.push(LoginMethod::Agent);
    if home {
        methods.push(LoginMethod::Ed25519Key);
        methods.push(LoginMethod::RsaKey);
    }
    if password {
        methods.push(LoginMethod::Password);
    }
    assert(methods@ =~= login_methods(home, password));
    SshLogin { address, methods, tried: 0 }
}

impl SshLogin {
    /// The first way to try.
    pub fn start(&self) -> (op: LoginOp)
        requires
            self.tried == 0,
        ensures
            op@ == login_at(self.methods@, 0),
    {
        self.at()
    }

    /// Takes whether the last way led to success, and gives what to do next.
    pub fn step(&mut self, success: bool) -> (op: LoginOp)
        requires
            old(self).tried < old(self).methods@.len(),
        ensures
            final(self).address@ == old(self).address@,
            final(self).methods@ == old(self).methods@,
            final(self).tried == old(self).tried + 1,
            op@ == if success {
                LoginOpView::Accepted
            } else {
                login_at(final(self).methods@, final(self).tried as int)
            },
    {
        let len: usize = self.methods.len();
        assert(self.tried < len);
        self.tried = self.tried + 1;
        if success {
            LoginOp::Accepted
        } else {
            self.at()
        }
    }

    fn at(&self) -> (op: LoginOp)
        ensures
            op@ == login_at(self.methods@, self.tried as int),
    {
        if self.tried < self.methods.len() {
            LoginOp::Try(self.methods[self.tried])
        } else {
            LoginOp::Refused {
                error: DiskCloneError::Other(
                    "SSH authentication failed. Try: ssh-add, ensure ~/.ssh/id_ed25519 or id_rsa exists, or use password auth (--ssh-password)".to_owned(),
                ),
            }
        }
    }
}

/// What comes of a login whose ways have the given outcomes: the way at index
/// `i` is next.
pub open spec fn login_result(
    methods: Seq<LoginMethod>,
    outcomes: Seq<bool>,
    i: int,
) -> LoginOpView
    decreases methods.len() - i,
{
    match login_at(methods, i) {
        LoginOpView::Try(_) => if outcomes[i] {
            LoginOpView::Accepted
        } else {
            login_result(methods, outcomes, i + 1)
        },
        op => op,
    }
}

/// A user is refused if and only if every way fails, and else accepted.
pub proof fn law_login_succeeds_if_any_way_does(home: bool, password: bool, outcomes: Seq<bool>)
    requires
        outcomes.len() == login_methods(home, password).len(),
    ensures
        outcomes.contains(true) ==> login_result(login_methods(home, password), outcomes, 0)
            is Accepted,
        !outcomes.contains(true) ==> login_result(login_methods(home, password), outcomes, 0) == (
        LoginOpView::Refused { error: login_error() }),
{
    let methods = login_methods(home, password);
    lemma_login_from(methods, outcomes, 0);
}

proof fn lemma_login_from(methods: Seq<LoginMethod>, outcomes: Seq<bool>, i: int)
    requires
        outcomes.len() == methods.len(),
        0 <= i <= methods.len(),
        forall|k: int| 0 <= k < i ==> !#[trigger] outcomes[k],
    ensures
        outcomes.contains(true) ==> login_result(methods, outcomes, i) is Accepted,
        !outcomes.contains(true) ==> login_result(methods, outcomes, i) == (LoginOpView::Refused {
            error: login_error(),
        }),
    decreases methods.len() - i,
{
    if i < methods.len() {
        if outcomes[i] {
            assert(outcomes.contains(true));
        } else {
            lemma_login_from(methods, outcomes, i + 1);
        }
    }
}

/// Streams disk image to a remote system via SSH.
/// Executes `dd of=<path>` or `cat > <path>` on the remote and writes to stdin.
#[derive(Debug)]
pub struct SshSink {
    /// What is executed on the remote.
    pub command: String,
}

/// The character has a meaning of its own between the quotation marks of a
/// shell.
pub open spec fn is_special(c: char) -> bool {
    c == '"' || c == '$' || c == '`' || c == '\\'
}

/// The path with a backslash before each character that has a meaning of its
/// own between quotation marks.
pub open spec fn shell_escaped(path: Seq<char>) -> Seq<char>
    decreases path.len(),
{
    if path.len() == 0 {
        seq![]
    } else if is_special(path[0]) {
        seq!['\\', path[0]] + shell_escaped(path.skip(1))
    } else {
        seq![path[0]] + shell_escaped(path.skip(1))
    }
}

/// Appends the path, with a backslash before each character that has a meaning
/// of its own between quotation marks.
fn push_escaped(s: &mut String, path: &str)
    ensures
        final(s)@ == old(s)@ + shell_escaped(path@),
{
    let v = chars_of(path);
    assert(v@.skip(0) =~= v@);
    for i in 0..v.len()
        invariant
            v@ == path@,
            old(s)@ + shell_escaped(path@) == s@ + shell_escaped(v@.skip(i as int)),
    {
        assert(v@.skip(i as int).skip(1) =~= v@.skip(i + 1));
        let ghost before = s@;
        let c: char = v[i];
        if c == '"' || c == '$' || c == '`' || c == '\\' {
            s.push('\\');
        }
        s.push(c);
        assert(before + shell_escaped(v@.skip(i as int)) =~= s@ + shell_escaped(v@.skip(i + 1)));
    }
    assert(s@ + shell_escaped(v@.skip(v@.len() as int)) =~= s@);
}

/// The command that copies its input to a device.
pub open spec fn dd_command(path: Seq<char>) -> Seq<char> {
    "dd of=\""@ + shell_escaped(path) + "\" bs=512 2>/dev/null"@
}

/// The command that copies its input to a file.
pub open spec fn cat_command(path: Seq<char>) -> Seq<char> {
    "cat > \""@ + shell_escaped(path) + "\""@
}

impl SshSink {
    /// The receive command.
    /// `remote_path` is the destination path (e.g. "/dev/sdb" or "/backup/disk.img").
    /// For block devices, the remote typically needs to run with sudo.
    pub fn new(remote_path: &str) -> (r: Self)
        ensures
            r.command@ == dd_command(remote_path@),
    {
        let mut command = "dd of=\"".to_owned();
        push_escaped(&mut command, remote_path);
        command.append("\" bs=512 2>/dev/null");
        SshSink { command }
    }

    /// Alternative: use cat for file output (simpler, no dd needed).
    pub fn new_cat(remote_path: &str) -> (r: Self)
        ensures
            r.command@ == cat_command(remote_path@),
    {
        let mut command = "cat > \"".to_owned();
        push_escaped(&mut command, remote_path);
        command.append("\"");
        SshSink { command }
    }

    /// The receive command for a path: `dd` for what lies under `/dev/`, `cat`
    /// for all else.
    pub fn for_path(remote_path: &str) -> (r: Self)
        ensures
            r.command@ == if "/dev/"@.is_prefix_of(remote_path@) {
                dd_command(remote_path@)
            } else {
                cat_command(remote_path@)
            },
    {
        if starts_with(remote_path, "/dev/") {
            SshSink::new(remote_path)
        } else {
            SshSink::new_cat(remote_path)
        }
    }
}

/// The word that a shell takes `s` for between quotation marks, if it neither
/// ends nor expands anything there.
pub open spec fn quoted_word(s: Seq<char>) -> Option<Seq<char>>
    decreases s.len(),
{
    if s.len() == 0 {
        Some(seq![])
    } else if s[0] == '\\' && s.len() > 1 && (s[1] == '"' || s[1] == '$' || s[1] == '`' || s[1] == '\\') {
        match quoted_word(s.skip(2)) {
            Some(w) => Some(seq![s[1]] + w),
            None => None,
        }
    } else if s[0] == '"' || s[0] == '$' || s[0] == '`' {
        None
    } else {
        match quoted_word(s.skip(1)) {
            Some(w) => Some(seq![s[0]] + w),
            None => None,
        }
    }
}

/// A shell takes the quoted path in a receive command as the path itself,
/// whatever characters that holds.
pub proof fn law_receive_command_names_path(path: Seq<char>)
    ensures
        quoted_word(shell_escaped(path)) == Some(path),
    decreases path.len(),
{
    if path.len() > 0 {
        let x = path[0];
        let rest = path.skip(1);
        let tail = shell_escaped(rest);
        let s = shell_escaped(path);
        law_receive_command_names_path(rest);
        if is_special(x) {
            assert(s[0] == '\\' && s[1] == x);
            assert(s.skip(2) =~= tail);
        } else {
            assert(s[0] == x);
            assert(s.skip(1) =~= tail);
        }
        assert(seq![x] + rest =~= path);
    } else {
        assert(path =~= seq![]);
    }
}

/// The receive commands hand the path on in quotation marks that a shell takes
/// for the path itself: `dd` writes to it in blocks of a sector, `cat` as it
/// comes.
pub proof fn law_receive_commands_write_to_path(path: Seq<char>) -> (quoted: Seq<char>)
    ensures
        quoted_word(quoted) == Some(path),
        dd_command(path) == "dd of=\""@ + quoted + "\" bs=512 2>/dev/null"@,
        cat_command(path) == "cat > \""@ + quoted + "\""@,
{
    law_receive_command_names_path(path);
    shell_escaped(path)
}

/// The agent is asked first, then the keys, of which there are two if the home
/// directory is known, and the password last, if there is one. Nothing is tried
/// twice.
pub proof fn law_ways_to_log_in(home: bool, password: bool)
    ensures
        ({
            let m = login_methods(home, password);
            &&& m.no_duplicates()
            &&& m[0] == LoginMethod::Agent
            &&& home ==> m[1] == LoginMethod::Ed25519Key && m[2] == LoginMethod::RsaKey
            &&& m.contains(LoginMethod::Ed25519Key) ==> home
            &&& m.contains(LoginMethod::RsaKey) ==> home
            &&& password <==> m.last() == LoginMethod::Password
            &&& m.contains(LoginMethod::Password) ==> password
            &&& m.len() == 1 + (if home {
                2int
            } else {
                0
            }) + (if password {
                1int
            } else {
                0
            })
        }),
{
}

/// Every way is tried in its turn; a user for whom none is left is refused, and
/// is told what would help.
pub proof fn law_ways_are_tried_in_turn(methods: Seq<LoginMethod>, i: int)
    requires
        0 <= i,
    ensures
        i < methods.len() ==> login_at(methods, i) == LoginOpView::Try(methods[i]),
        i >= methods.len() ==> login_at(methods, i) == (LoginOpView::Refused {
            error: ErrorView::Other(
                "SSH authentication failed. Try: ssh-add, ensure ~/.ssh/id_ed25519 or id_rsa exists, or use password auth (--ssh-password)"@,
            ),
        }),
{
}

/// What is to be done to log in is seen as it is.
pub proof fn law_view_of_login(op: LoginOp)
    ensures
        match op {
            LoginOp::Try(m) => op@ == LoginOpView::Try(m),
            LoginOp::Accepted => op@ is Accepted,
            LoginOp::Refused { error } => op@ == (LoginOpView::Refused { error: error@ }),
        },
{
}

} // verus!
