//! SSH port forwarding.
//!
//! The client never talks to the server directly. It runs the system `ssh`
//! binary with a local port forward to the server's loopback port and connects
//! to the local end. What that binary is told, and what its progress means, is
//! decided here.

pub mod stderr;

use vstd::prelude::*;

use crate::profiles;
use crate::proto;
use crate::text;

verus! {

/// How long one attempt to reach the local end may take, in nanoseconds.
pub const DIAL_TIMEOUT: u64 = 200_000_000;

/// How long to wait between two attempts, in nanoseconds.
pub const DIAL_PAUSE: u64 = 100_000_000;

/// What to forward to on the remote host.
#[derive(Clone, Debug, PartialEq, Eq)]
pub enum RemoteTarget {
    /// `127.0.0.1:<port>` on the remote host.
    Port(u16),
    /// A Unix socket path on the remote host.
    Socket(String),
}

/// SSH invocation parameters.
#[derive(Clone, Debug, PartialEq, Eq)]
pub struct TunnelConfig {
    /// `[user@]host` (or an alias from `~/.ssh/config`).
    pub destination: String,
    /// SSH server port (`None` = default / config).
    pub ssh_port: Option<u16>,
    /// Identity file (`-i`).
    pub identity: Option<String>,
    /// Extra `-o key=value` options.
    pub options: Vec<String>,
    /// Remote target of the forward.
    pub remote: RemoteTarget,
    /// Local port to bind (`0` = pick a free one).
    pub local_port: u16,
    /// `ssh` executable.
    pub ssh_program: String,
    /// Extra raw arguments passed before the destination.
    pub extra_args: Vec<String>,
    /// Environment to add to `ssh`.
    pub env: Vec<(String, String)>,
}

impl Default for TunnelConfig {
    fn default() -> (c: TunnelConfig)
        ensures
            c.destination@.len() == 0,
            c.ssh_port is None,
            c.identity is None,
            c.options@.len() == 0,
            c.remote == RemoteTarget::Port(proto::DEFAULT_PORT),
            c.local_port == 0,
            c.ssh_program@ == "ssh"@,
            c.extra_args@.len() == 0,
            c.env@.len() == 0,
    {
        TunnelConfig {
            destination: String::new(),
            ssh_port: None,
            identity: None,
            options: Vec::new(),
            remote: RemoteTarget::Port(proto::DEFAULT_PORT),
            local_port: 0,
            ssh_program: text::copy("ssh"),
            extra_args: Vec::new(),
            env: Vec::new(),
        }
    }
}

// ---------------------------------------------------------------------------
// Options
// ---------------------------------------------------------------------------

/// What ends the keyword of an option.
pub open spec fn ends_keyword(c: char) -> bool {
    c == '=' || c == ' ' || c == '\t'
}

/// Where the keyword of an option ends.
pub open spec fn keyword_end(s: Seq<char>, from: int) -> int
    decreases s.len() - from,
{
    if from >= s.len() || ends_keyword(s[from]) {
        from
    } else {
        keyword_end(s, from + 1)
    }
}

/// The keyword part of an `ssh -o` argument, i.e. what comes before `=` or
/// whitespace, if there is one.
pub open spec fn keyword(option: Seq<char>) -> Option<Seq<char>> {
    let k = text::trim(option.take(keyword_end(option, 0)));
    if k.len() == 0 {
        None
    } else {
        Some(k)
    }
}

proof fn lemma_keyword_end(s: Seq<char>, from: int)
    requires
        0 <= from <= s.len(),
    ensures
        from <= keyword_end(s, from) <= s.len(),
    decreases s.len() - from,
{
    if from < s.len() && !ends_keyword(s[from]) {
        lemma_keyword_end(s, from + 1);
    }
}

/// The keyword part of an `ssh -o` argument. `None` when the argument has no
/// recognisable keyword.
pub fn keyword_of(option: &str) -> (k: Option<String>)
    ensures
        profiles::text_of(k) == keyword(option@),
{
    let v = text::chars_of(option);
    let mut i: usize = 0;
    while i < v.len() && !(v[i] == '=' || v[i] == ' ' || v[i] == '\t')
        invariant
            i <= v.len(),
            keyword_end(v@, 0) == keyword_end(v@, i as int),
        decreases v.len() - i,
    {
        i = i + 1;
    }
    let head = text::slice_of(&v, 0, i);
    assert(head@ =~= option@.take(keyword_end(option@, 0)));
    let k = text::trimmed_chars(&head);
    if k.len() == 0 {
        None
    } else {
        Some(text::string_of(&k))
    }
}

/// The tunnel's readiness check depends on this option, so that a setting that
/// collides with it is left out.
pub open spec fn pinned(option: Seq<char>) -> bool {
    keyword(option) matches Some(k) && text::lower(k) == "exitonforwardfailure"@
}

fn is_pinned(option: &str) -> (r: bool)
    ensures
        r == pinned(option@),
{
    match keyword_of(option) {
        Some(k) => {
            let v = text::chars_of(k.as_str());
            let want = text::chars_of("exitonforwardfailure");
            if v.len() != want.len() {
                return false;
            }
            let mut i: usize = 0;
            while i < v.len()
                invariant
                    i <= v.len(),
                    v.len() == want.len(),
                    v@ == k@,
                    keyword(option@) == Some(k@),
                    want@ == "exitonforwardfailure"@,
                    forall|j: int| 0 <= j < i ==> text::lower(k@)[j] == #[trigger] want@[j],
                decreases v.len() - i,
            {
                if text::to_ascii_lower(v[i]) != want[i] {
                    assert(text::lower(k@)[i as int] != want@[i as int]);
                    return false;
                }
                i = i + 1;
            }
            assert(text::lower(k@) =~= want@);
            true
        },
        None => false,
    }
}

/// The options of the user, each behind `-o`, but for pinned ones.
pub open spec fn user_args(options: Seq<Seq<char>>) -> Seq<Seq<char>>
    decreases options.len(),
{
    if options.len() == 0 {
        Seq::empty()
    } else if pinned(options.last()) {
        user_args(options.drop_last())
    } else {
        user_args(options.drop_last()) + seq!["-o"@, options.last()]
    }
}

/// The options a session has unless the user set them: keepalive on the SSH
/// connection itself, and no compression, since the stream is already
/// compressed and more only adds latency.
pub open spec fn default_args() -> Seq<Seq<char>> {
    seq![
        "-o"@,
        "ServerAliveInterval=15"@,
        "-o"@,
        "ServerAliveCountMax=3"@,
        "-o"@,
        "TCPKeepAlive=yes"@,
        "-o"@,
        "Compression=no"@,
    ]
}

/// What is forwarded to.
pub open spec fn target_text(remote: RemoteTarget) -> Seq<char> {
    match remote {
        RemoteTarget::Port(p) => "127.0.0.1:"@ + text::decimal(p as nat),
        RemoteTarget::Socket(path) => path@,
    }
}

impl TunnelConfig {
    /// What comes before the options of the user.
    ///
    /// The port and the identity stay above them so that a stray option cannot
    /// override the field of the profile it sits next to.
    pub open spec fn head_args(self) -> Seq<Seq<char>> {
        seq!["-N"@, "-o"@, "ExitOnForwardFailure=yes"@] + profiles::port_args("-p"@, self.ssh_port)
            + profiles::valued("-i"@, profiles::text_of(self.identity))
    }

    /// What comes behind the options.
    pub open spec fn tail_args(self, local_port: u16) -> Seq<Seq<char>> {
        seq![
            "-L"@,
            "127.0.0.1:"@ + text::decimal(local_port as nat) + ":"@ + target_text(self.remote),
        ] + text::texts(self.extra_args@) + seq!["--"@, self.destination@]
    }

    /// The argument list for `ssh` given the chosen local port.
    ///
    /// The options of the user come before the defaults, because `ssh` takes
    /// the first value it sees for a keyword.
    pub open spec fn all_args(self, local_port: u16) -> Seq<Seq<char>> {
        self.head_args() + user_args(text::texts(self.options@)) + default_args() + self.tail_args(
            local_port,
        )
    }

    /// Build the argument list for `ssh` given the chosen local port.
    ///
    /// `ClearAllForwardings` must not be set here: it applies to forwards of
    /// the command line too, and the tunnel would never come up.
    pub fn args(&self, local_port: u16) -> (a: Vec<String>)
        ensures
            text::texts(a@) == self.all_args(local_port),
    {
        let mut a: Vec<String> = Vec::new();
        profiles::push_arg(&mut a, text::copy("-N"));
        profiles::push_arg(&mut a, text::copy("-o"));
        profiles::push_arg(&mut a, text::copy("ExitOnForwardFailure=yes"));
        assert(text::texts(a@) =~= seq!["-N"@, "-o"@, "ExitOnForwardFailure=yes"@]);
        profiles::push_port(&mut a, "-p", self.ssh_port);
        let identity = match &self.identity {
            Some(i) => Some(text::copy(i.as_str())),
            None => None,
        };
        profiles::push_value(&mut a, "-i", identity);
        push_options(&mut a, &self.options);
        push_defaults(&mut a);
        let ghost so_far = text::texts(a@);
        let mut forward = text::copy("127.0.0.1:");
        let port = text::decimal_of(local_port as u64);
        forward.push_str(port.as_str());
        forward.push_str(":");
        match &self.remote {
            RemoteTarget::Port(p) => {
                forward.push_str("127.0.0.1:");
                let remote = text::decimal_of(*p as u64);
                forward.push_str(remote.as_str());
            },
            RemoteTarget::Socket(path) => {
                forward.push_str(path.as_str());
            },
        }
        assert(forward@ =~= "127.0.0.1:"@ + text::decimal(local_port as nat) + ":"@ + target_text(
            self.remote,
        ));
        profiles::push_arg(&mut a, text::copy("-L"));
        profiles::push_arg(&mut a, forward);
        push_all(&mut a, &self.extra_args);
        profiles::push_arg(&mut a, text::copy("--"));
        profiles::push_arg(&mut a, text::copy(self.destination.as_str()));
        assert(text::texts(a@) =~= so_far + self.tail_args(local_port));
        a
    }
}

fn push_all(args: &mut Vec<String>, more: &Vec<String>)
    ensures
        text::texts(final(args)@) == text::texts(old(args)@) + text::texts(more@),
{
    let mut i: usize = 0;
    assert(text::texts(more@.take(0)) =~= Seq::<Seq<char>>::empty());
    while i < more.len()
        invariant
            i <= more.len(),
            text::texts(args@) == text::texts(old(args)@) + text::texts(more@.take(i as int)),
        decreases more.len() - i,
    {
        profiles::push_arg(args, text::copy(more[i].as_str()));
        i = i + 1;
        assert(text::texts(args@) =~= text::texts(old(args)@) + text::texts(more@.take(i as int)));
    }
    assert(more@.take(i as int) =~= more@);
}

fn push_options(args: &mut Vec<String>, options: &Vec<String>)
    ensures
        text::texts(final(args)@) == text::texts(old(args)@) + user_args(text::texts(options@)),
{
    let ghost all = text::texts(options@);
    let mut i: usize = 0;
    assert(all.take(0) =~= Seq::<Seq<char>>::empty());
    assert(text::texts(args@) =~= text::texts(old(args)@) + user_args(all.take(0)));
    while i < options.len()
        invariant
            i <= options.len(),
            all == text::texts(options@),
            text::texts(args@) == text::texts(old(args)@) + user_args(all.take(i as int)),
        decreases options.len() - i,
    {
        assert(all.take(i + 1).drop_last() =~= all.take(i as int));
        assert(all.take(i + 1).last() == options@[i as int]@);
        if !is_pinned(options[i].as_str()) {
            profiles::push_arg(args, text::copy("-o"));
            profiles::push_arg(args, text::copy(options[i].as_str()));
        }
        assert(text::texts(args@) =~= text::texts(old(args)@) + user_args(all.take(i + 1)));
        i = i + 1;
    }
    assert(all.take(i as int) =~= all);
}

fn push_defaults(args: &mut Vec<String>)
    ensures
        text::texts(final(args)@) == text::texts(old(args)@) + default_args(),
{
    profiles::push_arg(args, text::copy("-o"));
    profiles::push_arg(args, text::copy("ServerAliveInterval=15"));
    profiles::push_arg(args, text::copy("-o"));
    profiles::push_arg(args, text::copy("ServerAliveCountMax=3"));
    profiles::push_arg(args, text::copy("-o"));
    profiles::push_arg(args, text::copy("TCPKeepAlive=yes"));
    profiles::push_arg(args, text::copy("-o"));
    profiles::push_arg(args, text::copy("Compression=no"));
    assert(text::texts(args@) =~= text::texts(old(args)@) + default_args());
}

proof fn lemma_user_args(options: Seq<Seq<char>>, i: int)
    requires
        0 <= i < options.len(),
        !pinned(options[i]),
    ensures
        exists|j: int|
            0 < j < user_args(options).len() && #[trigger] user_args(options)[j] == options[i]
                && user_args(options)[j - 1] == "-o"@,
    decreases options.len(),
{
    let head = options.drop_last();
    if i < head.len() {
        lemma_user_args(head, i);
        let j = choose|j: int|
            0 < j < user_args(head).len() && #[trigger] user_args(head)[j] == head[i] && user_args(
                head,
            )[j - 1] == "-o"@;
        assert(user_args(options)[j] == options[i]);
        assert(user_args(options)[j - 1] == "-o"@);
    } else {
        let j = user_args(head).len() as int + 1;
        assert(user_args(options)[j] == options[i]);
        assert(user_args(options)[j - 1] == "-o"@);
    }
}

proof fn lemma_unpinned(options: Seq<Seq<char>>)
    ensures
        user_args(options).len() % 2 == 0,
        forall|j: int|
            0 <= j < user_args(options).len() && j % 2 == 1 ==> !pinned(
                #[trigger] user_args(options)[j],
            ),
    decreases options.len(),
{
    if options.len() > 0 {
        let head = options.drop_last();
        lemma_unpinned(head);
        assert forall|j: int|
            0 <= j < user_args(options).len() && j % 2 == 1 implies !pinned(
            #[trigger] user_args(options)[j],
        ) by {
            if j < user_args(head).len() {
                assert(user_args(options)[j] == user_args(head)[j]);
            }
        }
    }
}

/// An option of the user wins over the default of its keyword: it stands in
/// the arguments, and before every default.
pub proof fn law_user_options_come_first(cfg: TunnelConfig, local_port: u16, i: int)
    requires
        0 <= i < cfg.options@.len(),
        !pinned(cfg.options@[i]@),
    ensures
        ({
            let args = cfg.all_args(local_port);
            let defaults = cfg.head_args().len() + user_args(text::texts(cfg.options@)).len();
            &&& args.subrange(defaults as int, (defaults + default_args().len()) as int)
                == default_args()
            &&& exists|k: int|
                0 < k < defaults && #[trigger] args[k] == cfg.options@[i]@ && args[k - 1] == "-o"@
        }),
{
    let options = text::texts(cfg.options@);
    let head = cfg.head_args();
    let user = user_args(options);
    let args = cfg.all_args(local_port);
    lemma_user_args(options, i);
    let j = choose|j: int|
        0 < j < user.len() && #[trigger] user[j] == options[i] && user[j - 1] == "-o"@;
    let at = head.len() + j;
    assert(args[at] == user[j]);
    assert(args[at - 1] == user[j - 1]);
    let defaults = (head.len() + user.len()) as int;
    assert(args.subrange(defaults, defaults + default_args().len()) =~= default_args());
}

/// `ssh` is told to fail with its forward before anything the user says, and no
/// option of the user for that keyword is passed on.
pub proof fn law_forward_failure_is_pinned(cfg: TunnelConfig, local_port: u16)
    ensures
        cfg.all_args(local_port).take(3) == seq!["-N"@, "-o"@, "ExitOnForwardFailure=yes"@],
        forall|j: int|
            0 <= j < user_args(text::texts(cfg.options@)).len() && j % 2 == 1 ==> !pinned(
                #[trigger] user_args(text::texts(cfg.options@))[j],
            ),
{
    assert(cfg.all_args(local_port).take(3) =~= seq!["-N"@, "-o"@, "ExitOnForwardFailure=yes"@]);
    lemma_unpinned(text::texts(cfg.options@));
}

/// The destination is the last argument, and behind the mark that ends the
/// options: nothing in it is read as one.
pub proof fn law_destination_is_no_option(cfg: TunnelConfig, local_port: u16)
    ensures
        cfg.all_args(local_port).len() >= 2,
        cfg.all_args(local_port).last() == cfg.destination@,
        cfg.all_args(local_port)[cfg.all_args(local_port).len() - 2] == "--"@,
{
}

// ---------------------------------------------------------------------------
// Starting
// ---------------------------------------------------------------------------

/// What the wait for the tunnel comes to.
#[derive(Debug, PartialEq, Eq)]
pub enum Readiness {
    /// The local end accepted: `ssh` has bound the forward, which it only does
    /// after authentication succeeded. The connection is kept for the client:
    /// the far end takes it for one.
    Ready,
    /// Wait and look again.
    Wait,
    /// Give up; `ssh` is gone already.
    Gone(String),
    /// Stop `ssh` and give up.
    Stop(String),
}

/// Why no tunnel can be started, if none can.
pub fn start_fault(cfg: &TunnelConfig) -> (r: Option<String>)
    ensures
        match r {
            Some(e) => cfg.destination@.len() == 0 && e@ == "no SSH destination given"@,
            None => cfg.destination@.len() > 0,
        },
{
    if cfg.destination.as_str().is_empty() {
        Some(text::copy("no SSH destination given"))
    } else {
        None
    }
}

/// What a missing program is answered.
pub fn missing_text(program: &str) -> (s: String)
    ensures
        s@ == "could not run '"@ + program@ + "'; is an OpenSSH client installed?"@,
{
    let mut s = text::copy("could not run '");
    s.push_str(program);
    s.push_str("'; is an OpenSSH client installed?");
    s
}

/// One look at a tunnel that is coming up: how `ssh` ended where it has,
/// whether the local end accepted a connection, and whether time is up.
pub fn look(exited: Option<&str>, accepted: bool, late: bool) -> (r: Readiness)
    ensures
        match exited {
            Some(status) => r matches Readiness::Gone(e) && e@
                == "ssh exited before the tunnel came up ("@ + status@ + ")"@,
            None => if accepted {
                r is Ready
            } else if late {
                r matches Readiness::Stop(e) && e@ == "timed out waiting for the SSH tunnel"@
            } else {
                r is Wait
            },
        },
{
    match exited {
        Some(status) => {
            let mut s = text::copy("ssh exited before the tunnel came up (");
            s.push_str(status);
            s.push_str(")");
            Readiness::Gone(s)
        },
        None => if accepted {
            Readiness::Ready
        } else if late {
            Readiness::Stop(text::copy("timed out waiting for the SSH tunnel"))
        } else {
            Readiness::Wait
        },
    }
}

// ---------------------------------------------------------------------------
// Destinations
// ---------------------------------------------------------------------------

/// A port behind a colon, where there is one: what follows the colon is one, or
/// is refused.
pub open spec fn port_behind(rest: Seq<char>) -> Option<Option<u16>> {
    if rest.len() == 0 || rest[0] != ':' {
        Some(None)
    } else {
        match text::unsigned(rest.skip(1), u16::MAX as nat) {
            Some(n) => Some(Some(n as u16)),
            None => None,
        }
    }
}

/// The first place of `p` in `s`, or the length of `s`.
pub open spec fn place(s: Seq<char>, p: Seq<char>, from: int) -> int
    decreases s.len() - from,
{
    if from >= s.len() {
        s.len() as int
    } else if text::occurs_at(s, p, from) {
        from
    } else {
        place(s, p, from + 1)
    }
}

/// The last place of a colon in `s`, or a number below zero.
pub open spec fn last_colon(s: Seq<char>) -> int
    decreases s.len(),
{
    if s.len() == 0 {
        -1
    } else if s.last() == ':' {
        s.len() - 1
    } else {
        last_colon(s.drop_last())
    }
}

/// What an address in brackets means: where the brackets begin is given.
pub open spec fn bracketed(s: Seq<char>, from: int) -> Result<(Seq<char>, Option<u16>), Seq<char>> {
    let rest = s.skip(from);
    let end = text::next_char(rest, ']', 0);
    if end >= rest.len() {
        Err("unterminated IPv6 literal"@)
    } else {
        let at = place(s, "@["@, 0);
        let dest = if at < s.len() {
            s.take(at) + "@"@ + rest.take(end)
        } else {
            rest.take(end)
        };
        match port_behind(rest.skip(end + 1)) {
            Some(port) => Ok((dest, port)),
            None => Err("bad port"@),
        }
    }
}

/// What `[user@]host[:port]` means: the destination and the port, where one is
/// given. An address with colons in it needs brackets to have a port.
pub open spec fn destination_of(text: Seq<char>) -> Result<(Seq<char>, Option<u16>), Seq<char>> {
    let s = text::trim(text);
    let at = place(s, "@["@, 0);
    if s.len() == 0 {
        Err("empty destination"@)
    } else if s[0] == '[' {
        bracketed(s, 1)
    } else if at < s.len() {
        bracketed(s, at + 2)
    } else {
        let k = last_colon(s);
        if k >= 0 && last_colon(s.take(k)) < 0 && k + 1 < s.len() {
            match text::unsigned(s.skip(k + 1), u16::MAX as nat) {
                Some(n) => Ok((s.take(k), Some(n as u16))),
                None => Err("bad port "@ + profiles::quoted(s.skip(k + 1))),
            }
        } else {
            Ok((s, None))
        }
    }
}

fn place_of(s: &Vec<char>, p: &Vec<char>) -> (r: usize)
    requires
        p@.len() > 0,
    ensures
        r == place(s@, p@, 0),
        r <= s.len(),
        r < s.len() ==> r + p.len() <= s.len(),
{
    let mut i: usize = 0;
    while i < s.len() && !text::is_at(s, p, i)
        invariant
            i <= s.len(),
            place(s@, p@, 0) == place(s@, p@, i as int),
        decreases s.len() - i,
    {
        i = i + 1;
    }
    i
}

fn colon_before(s: &Vec<char>, to: usize) -> (r: Option<usize>)
    requires
        to <= s.len(),
    ensures
        match r {
            Some(k) => k < to && last_colon(s@.take(to as int)) == k,
            None => last_colon(s@.take(to as int)) < 0,
        },
{
    let mut k: usize = to;
    while k > 0
        invariant
            k <= to <= s.len(),
            last_colon(s@.take(to as int)) == last_colon(s@.take(k as int)),
        decreases k,
    {
        assert(s@.take(k as int).drop_last() =~= s@.take(k - 1));
        if s[k - 1] == ':' {
            return Some(k - 1);
        }
        k = k - 1;
    }
    None
}

fn in_brackets(s: &Vec<char>, from: usize) -> (r: Result<(String, Option<u16>), String>)
    requires
        from <= s.len(),
    ensures
        match r {
            Ok((dest, port)) => bracketed(s@, from as int) == Ok::<
                (Seq<char>, Option<u16>),
                Seq<char>,
            >((dest@, port)),
            Err(e) => bracketed(s@, from as int) == Err::<(Seq<char>, Option<u16>), Seq<char>>(e@),
        },
{
    let rest = text::slice_of(s, from, s.len());
    assert(rest@ =~= s@.skip(from as int));
    let end = text::position(&rest, ']', 0);
    if end >= rest.len() {
        return Err(text::copy("unterminated IPv6 literal"));
    }
    let host = text::slice_of(&rest, 0, end);
    assert(host@ =~= rest@.take(end as int));
    let host_text = text::string_of(&host);
    let mark = text::chars_of("@[");
    proof {
        reveal_strlit("@[");
    }
    let at = place_of(s, &mark);
    let dest = if at < s.len() {
        let user = text::slice_of(s, 0, at);
        assert(user@ =~= s@.take(at as int));
        let mut d = text::string_of(&user);
        d.push_str("@");
        d.push_str(host_text.as_str());
        d
    } else {
        host_text
    };
    let behind = text::slice_of(&rest, end + 1, rest.len());
    assert(behind@ =~= rest@.skip(end + 1));
    if behind.len() == 0 || behind[0] != ':' {
        return Ok((dest, None));
    }
    let digits = text::slice_of(&behind, 1, behind.len());
    assert(digits@ =~= behind@.skip(1));
    match text::parse_unsigned(&digits, 65535) {
        Some(n) => Ok((dest, Some(n as u16))),
        None => Err(text::copy("bad port")),
    }
}

/// Parse `[user@]host[:port]` into destination and optional port.
pub fn parse_destination(s: &str) -> (r: Result<(String, Option<u16>), String>)
    ensures
        match r {
            Ok((dest, port)) => destination_of(s@) == Ok::<(Seq<char>, Option<u16>), Seq<char>>(
                (dest@, port),
            ),
            Err(e) => destination_of(s@) == Err::<(Seq<char>, Option<u16>), Seq<char>>(e@),
        },
{
    let all = text::chars_of(s);
    let v = text::trimmed_chars(&all);
    if v.len() == 0 {
        return Err(text::copy("empty destination"));
    }
    if v[0] == '[' {
        return in_brackets(&v, 1);
    }
    let mark = text::chars_of("@[");
    proof {
        reveal_strlit("@[");
    }
    let at = place_of(&v, &mark);
    if at < v.len() {
        return in_brackets(&v, at + 2);
    }
    assert(v@.take(v@.len() as int) =~= v@);
    match colon_before(&v, v.len()) {
        Some(k) => {
            if colon_before(&v, k).is_none() && k + 1 < v.len() {
                let port = text::slice_of(&v, k + 1, v.len());
                assert(port@ =~= v@.skip(k + 1));
                match text::parse_unsigned(&port, 65535) {
                    Some(n) => {
                        let host = text::slice_of(&v, 0, k);
                        assert(host@ =~= v@.take(k as int));
                        return Ok((text::string_of(&host), Some(n as u16)));
                    },
                    None => {
                        let t = text::string_of(&port);
                        let mut e = text::copy("bad port ");
                        let q = profiles::quote(t.as_str());
                        e.push_str(q.as_str());
                        return Err(e);
                    },
                }
            }
        },
        None => {},
    }
    Ok((text::string_of(&v), None))
}

/// The tunnel of a saved connection.
pub fn profile_tunnel(profile: &profiles::Profile, env: Vec<(String, String)>) -> (c: TunnelConfig)
    ensures
        c.destination@ == profile@.destination(),
        c.ssh_port == profile.ssh_port,
        profiles::text_of(c.identity) == profiles::text_of(profile.identity),
        text::texts(c.options@) == text::texts(profile.ssh_options@),
        c.remote == RemoteTarget::Port(
            match profile.remote_port {
                Some(p) => p,
                None => proto::DEFAULT_PORT,
            },
        ),
        c.local_port == 0,
        c.ssh_program@ == "ssh"@,
        c.extra_args@.len() == 0,
        c.env == env,
{
    let port: u16 = match profile.remote_port {
        Some(p) => p,
        None => proto::DEFAULT_PORT,
    };
    let mut c = TunnelConfig::default();
    c.destination = profile.destination();
    c.ssh_port = profile.ssh_port;
    c.identity = match &profile.identity {
        Some(i) => Some(text::copy(i.as_str())),
        None => None,
    };
    c.options = text::copy_all(&profile.ssh_options);
    c.remote = RemoteTarget::Port(port);
    c.env = env;
    c
}

// ---------------------------------------------------------------------------
// Laws of the command line
// ---------------------------------------------------------------------------

/// Whether a text says a word, whatever the case of its letters.
pub open spec fn says(s: Seq<char>, word: Seq<char>) -> bool {
    &&& s.len() == word.len()
    &&& forall|i: int|
        0 <= i < s.len() ==> #[trigger] s[i] == word[i] || (0x41 <= s[i] as u32 <= 0x5a
            && (s[i] as u32 + 0x20) as char == word[i])
}

/// Whether the keyword of an option, which ends before the first equals sign,
/// space or tab, is the one of the forward's failure.
pub open spec fn about_forward_failure(option: Seq<char>) -> bool {
    exists|from: int, to: int, end: int|
        #![trigger option.subrange(from, to), option.take(end)]
        0 <= from <= to <= end <= option.len() && (end < option.len() ==> option[end] == '='
            || option[end] == ' ' || option[end] == '\t') && (forall|i: int|
            0 <= i < end ==> option[i] != '=' && option[i] != ' ' && option[i] != '\t') && (forall|
            i: int,
        |
            0 <= i < from || to <= i < end ==> text::white_space(#[trigger] option[i])) && says(
            option.subrange(from, to),
            "exitonforwardfailure"@,
        )
}

proof fn lemma_keyword_stops(s: Seq<char>, from: int)
    requires
        0 <= from <= s.len(),
    ensures
        from <= keyword_end(s, from) <= s.len(),
        forall|i: int|
            from <= i < keyword_end(s, from) ==> s[i] != '=' && s[i] != ' ' && s[i] != '\t',
        keyword_end(s, from) < s.len() ==> s[keyword_end(s, from)] == '=' || s[keyword_end(s, from)]
            == ' ' || s[keyword_end(s, from)] == '\t',
    decreases s.len() - from,
{
    if from < s.len() && !ends_keyword(s[from]) {
        lemma_keyword_stops(s, from + 1);
    }
}

proof fn lemma_says_lower(s: Seq<char>, word: Seq<char>)
    requires
        forall|i: int| 0 <= i < word.len() ==> !(0x41 <= (#[trigger] word[i]) as u32 <= 0x5a),
    ensures
        text::lower(s) == word <==> says(s, word),
{
    if text::lower(s) == word {
        assert forall|i: int| 0 <= i < s.len() implies #[trigger] s[i] == word[i] || (0x41
            <= s[i] as u32 <= 0x5a && (s[i] as u32 + 0x20) as char == word[i]) by {
            text::law_lower_changes_capitals_alone(s, i);
        }
    }
    if says(s, word) {
        assert forall|i: int| 0 <= i < s.len() implies text::lower(s)[i] == word[i] by {
            text::law_lower_changes_capitals_alone(s, i);
            assert(!(0x41 <= word[i] as u32 <= 0x5a));
            assert(s[i] == word[i] || (0x41 <= s[i] as u32 <= 0x5a && (s[i] as u32 + 0x20) as char
                == word[i]));
        }
        assert(text::lower(s) =~= word);
    }
}

/// Trimmed texts that are the same part of a text are the same.
proof fn lemma_middle_is_trim(s: Seq<char>, from: int, to: int)
    requires
        0 <= from < to <= s.len(),
        forall|i: int| 0 <= i < from || to <= i < s.len() ==> text::white_space(#[trigger] s[i]),
        !text::white_space(s[from]),
        !text::white_space(s[to - 1]),
    ensures
        text::trim(s) == s.subrange(from, to),
{
    text::law_trim_keeps_the_middle(s);
    let (a, b) = choose|a: int, b: int|
        0 <= a <= b <= s.len() && text::trim(s) == #[trigger] s.subrange(a, b) && (forall|i: int|
            0 <= i < a || b <= i < s.len() ==> text::white_space(#[trigger] s[i])) && (a < b
            ==> !text::white_space(s[a]) && !text::white_space(s[b - 1]));
    assert(a == from && b == to);
}

proof fn lemma_word_is_solid()
    ensures
        "exitonforwardfailure"@.len() == 20,
        forall|i: int|
            0 <= i < 20 ==> 0x61 <= (#[trigger] "exitonforwardfailure"@[i]) as u32 <= 0x7a,
{
    reveal_strlit("exitonforwardfailure");
}

proof fn lemma_pinned_is_about_forward_failure(option: Seq<char>)
    ensures
        pinned(option) <==> about_forward_failure(option),
{
    let word = "exitonforwardfailure"@;
    let end = keyword_end(option, 0);
    let head = option.take(end);
    lemma_word_is_solid();
    lemma_keyword_stops(option, 0);
    if pinned(option) {
        text::law_trim_keeps_the_middle(head);
        let (a, b) = choose|a: int, b: int|
            0 <= a <= b <= head.len() && text::trim(head) == #[trigger] head.subrange(a, b) && (
            forall|i: int|
                0 <= i < a || b <= i < head.len() ==> text::white_space(#[trigger] head[i])) && (a
                < b ==> !text::white_space(head[a]) && !text::white_space(head[b - 1]));
        assert(head.subrange(a, b) =~= option.subrange(a, b));
        assert forall|i: int| 0 <= i < a || b <= i < end implies text::white_space(
            #[trigger] option[i],
        ) by {
            assert(head[i] == option[i]);
        }
        lemma_says_lower(option.subrange(a, b), word);
        assert(option.take(end) == head);
    }
    if about_forward_failure(option) {
        let (from, to, e) = choose|from: int, to: int, e: int|
            #![trigger option.subrange(from, to), option.take(e)]
            0 <= from <= to <= e <= option.len() && (e < option.len() ==> option[e] == '='
                || option[e] == ' ' || option[e] == '\t') && (forall|i: int|
                0 <= i < e ==> option[i] != '=' && option[i] != ' ' && option[i] != '\t') && (
            forall|i: int|
                0 <= i < from || to <= i < e ==> text::white_space(#[trigger] option[i])) && says(
                option.subrange(from, to),
                word,
            );
        assert(e == end);
        let k = option.subrange(from, to);
        assert(k.len() == 20);
        assert forall|i: int| 0 <= i < 20 implies !text::white_space(#[trigger] k[i]) by {
            assert(0x61 <= word[i] as u32 <= 0x7a);
            assert(k[i] == word[i] || 0x41 <= k[i] as u32 <= 0x5a);
        }
        assert(!text::white_space(k[0]) && !text::white_space(k[19]));
        assert forall|i: int| 0 <= i < from || to <= i < head.len() implies text::white_space(
            #[trigger] head[i],
        ) by {
            assert(head[i] == option[i]);
        }
        assert(head[from] == k[0]);
        assert(head[to - 1] == k[19]);
        lemma_middle_is_trim(head, from, to);
        assert(head.subrange(from, to) =~= k);
        lemma_says_lower(k, word);
    }
}

/// Every option of the user whose keyword is not the one of the forward's
/// failure stands in the arguments behind an `-o` of its own, and before the
/// first of the defaults, which `ssh` takes only where nothing came before.
pub proof fn law_every_other_option_is_passed_on(cfg: TunnelConfig, local_port: u16, i: int)
    requires
        0 <= i < cfg.options@.len(),
        !about_forward_failure(cfg.options@[i]@),
    ensures
        ({
            let args = cfg.all_args(local_port);
            exists|k: int, d: int|
                0 < k < d <= args.len() - 8 && #[trigger] args[k] == cfg.options@[i]@ && args[k - 1]
                    == "-o"@ && #[trigger] args.subrange(d, d + 8) == seq![
                    "-o"@,
                    "ServerAliveInterval=15"@,
                    "-o"@,
                    "ServerAliveCountMax=3"@,
                    "-o"@,
                    "TCPKeepAlive=yes"@,
                    "-o"@,
                    "Compression=no"@,
                ]
        }),
{
    lemma_pinned_is_about_forward_failure(cfg.options@[i]@);
    law_user_options_come_first(cfg, local_port, i);
    let args = cfg.all_args(local_port);
    let d = (cfg.head_args().len() + user_args(text::texts(cfg.options@)).len()) as int;
    let k = choose|k: int|
        0 < k < d && #[trigger] args[k] == cfg.options@[i]@ && args[k - 1] == "-o"@;
    assert(args[k] == cfg.options@[i]@);
    assert(args.subrange(d, d + 8) =~= default_args());
}

/// What stands between the head of the command line and the defaults is the
/// user's own: an `-o` before each option, each of the options the user gave, in
/// the order they were given in, and none about the forward's failure.
pub proof fn law_only_the_users_options_are_passed_on(options: Seq<Seq<char>>, a: Seq<char>)
    ensures
        user_args(Seq::empty()) == Seq::<Seq<char>>::empty(),
        about_forward_failure(a) ==> user_args(options.push(a)) == user_args(options),
        !about_forward_failure(a) ==> user_args(options.push(a)) == user_args(options).push(
            "-o"@,
        ).push(a),
{
    lemma_pinned_is_about_forward_failure(a);
    assert(options.push(a).drop_last() =~= options);
    assert(user_args(options) + seq!["-o"@, a] =~= user_args(options).push("-o"@).push(a));
}

/// The command line around the user's options: no command is run, a forward that
/// fails ends it, the port and the key are those that were set, the local port
/// leads to the server's loopback port or socket, and the destination comes
/// last, behind the mark that ends the options.
pub proof fn law_command_line_is_laid_out(cfg: TunnelConfig, local_port: u16)
    ensures
        ({
            let args = cfg.all_args(local_port);
            let port = if cfg.ssh_port is Some {
                2int
            } else {
                0
            };
            let key = if cfg.identity is Some {
                2int
            } else {
                0
            };
            let n = user_args(text::texts(cfg.options@)).len();
            let extra = cfg.extra_args@.len();
            &&& args.len() == 3 + port + key + n + 8 + 2 + extra + 2
            &&& args[0] == "-N"@
            &&& args[1] == "-o"@
            &&& args[2] == "ExitOnForwardFailure=yes"@
            &&& cfg.ssh_port matches Some(p) ==> args[3] == "-p"@ && args[4] == text::decimal(
                p as nat,
            )
            &&& cfg.identity matches Some(path) ==> args[3 + port] == "-i"@ && args[4 + port]
                == path@
            &&& args[3 + port + key + n + 8] == "-L"@
            &&& cfg.remote matches RemoteTarget::Port(p) ==> args[3 + port + key + n + 9]
                == "127.0.0.1:"@ + text::decimal(local_port as nat) + ":"@ + ("127.0.0.1:"@
                + text::decimal(p as nat))
            &&& cfg.remote matches RemoteTarget::Socket(path) ==> args[3 + port + key + n + 9]
                == "127.0.0.1:"@ + text::decimal(local_port as nat) + ":"@ + path@
            &&& forall|i: int|
                0 <= i < extra ==> args[3 + port + key + n + 10 + i] == (
                #[trigger] cfg.extra_args@[i])@
            &&& args[args.len() - 2] == "--"@
            &&& args[args.len() - 1] == cfg.destination@
        }),
{
}

// ---------------------------------------------------------------------------
// Laws of destinations
// ---------------------------------------------------------------------------

proof fn lemma_no_place(s: Seq<char>, from: int)
    requires
        0 <= from,
        forall|i: int| 0 <= i < s.len() ==> s[i] != '[',
    ensures
        place(s, "@["@, from) == s.len(),
    decreases s.len() - from,
{
    reveal_strlit("@[");
    if from < s.len() {
        if text::occurs_at(s, "@["@, from) {
            assert(s.subrange(from, from + 2)[1] == "@["@[1]);
            assert(s[from + 1] == '[');
        }
        lemma_no_place(s, from + 1);
    }
}

proof fn lemma_place_at(s: Seq<char>, from: int, at: int)
    requires
        0 <= from <= at,
        at + 2 <= s.len(),
        s[at] == '@',
        s[at + 1] == '[',
        forall|i: int| from < i <= at ==> s[i] != '[',
    ensures
        place(s, "@["@, from) == at,
    decreases at - from,
{
    reveal_strlit("@[");
    if from < at {
        if text::occurs_at(s, "@["@, from) {
            assert(s.subrange(from, from + 2)[1] == "@["@[1]);
            assert(s[from + 1] == '[');
        }
        lemma_place_at(s, from + 1, at);
    } else {
        assert(s.subrange(at, at + 2) =~= "@["@);
    }
}

proof fn lemma_no_colon(s: Seq<char>)
    requires
        forall|i: int| 0 <= i < s.len() ==> s[i] != ':',
    ensures
        last_colon(s) < 0,
    decreases s.len(),
{
    if s.len() > 0 {
        lemma_no_colon(s.drop_last());
    }
}

proof fn lemma_colon_at(s: Seq<char>, k: int)
    requires
        0 <= k < s.len(),
        s[k] == ':',
        forall|i: int| k < i < s.len() ==> s[i] != ':',
    ensures
        last_colon(s) == k,
    decreases s.len(),
{
    if k < s.len() - 1 {
        lemma_colon_at(s.drop_last(), k);
    }
}

proof fn lemma_solid_text(s: Seq<char>)
    requires
        s.len() > 0,
        !text::white_space(s[0]),
        !text::white_space(s.last()),
    ensures
        text::trim(s) == s,
{
    lemma_middle_is_trim(s, 0, s.len() as int);
    assert(s.subrange(0, s.len() as int) =~= s);
}

/// A host with a colon and a port behind it is that host and that port, and a
/// host alone is that host and no port. Here the host, with its user if it has
/// one, holds neither a colon nor a bracket.
pub proof fn law_host_and_port_are_parted(host: Seq<char>, port: u16)
    requires
        host.len() > 0,
        !text::white_space(host[0]),
        !text::white_space(host.last()),
        forall|i: int| 0 <= i < host.len() ==> host[i] != ':' && host[i] != '[',
    ensures
        destination_of(host) == Ok::<(Seq<char>, Option<u16>), Seq<char>>((host, None)),
        destination_of(host + seq![':'] + text::decimal(port as nat)) == Ok::<
            (Seq<char>, Option<u16>),
            Seq<char>,
        >((host, Some(port))),
{
    let digits = text::decimal(port as nat);
    let s = host + seq![':'] + digits;
    text::law_decimal_has_places(port as nat);
    text::law_decimal_round_trip(port as nat, u16::MAX as nat);
    lemma_solid_text(host);
    lemma_no_place(host, 0);
    lemma_no_colon(host);
    assert(s.last() == digits.last());
    assert(s.last() as u32 >= 0x30);
    assert(s[0] == host[0]);
    assert(0x30 <= digits[digits.len() - 1] as u32 <= 0x39);
    lemma_solid_text(s);
    assert forall|i: int| 0 <= i < s.len() implies s[i] != '[' && (i != host.len() ==> s[i]
        != ':') by {
        if i > host.len() {
            assert(s[i] == digits[i - host.len() - 1]);
        }
    }
    lemma_no_place(s, 0);
    lemma_colon_at(s, host.len() as int);
    assert(s.take(host.len() as int) =~= host);
    assert(s.skip(host.len() as int + 1) =~= digits);
}

/// An IPv6 address in brackets is the address without them, behind the user if
/// one is given, and the port stands behind the bracket.
pub proof fn law_bracketed_address_is_read(user: Seq<char>, address: Seq<char>, port: u16)
    requires
        forall|i: int| 0 <= i < address.len() ==> address[i] != ']' && address[i] != '[',
        forall|i: int| 0 <= i < user.len() ==> user[i] != '[',
        user.len() > 0 ==> !text::white_space(user[0]),
    ensures
        ({
            let host = seq!['['] + address + seq![']'];
            let digits = seq![':'] + text::decimal(port as nat);
            &&& destination_of(host) == Ok::<(Seq<char>, Option<u16>), Seq<char>>((address, None))
            &&& destination_of(host + digits) == Ok::<(Seq<char>, Option<u16>), Seq<char>>(
                (address, Some(port)),
            )
            &&& user.len() > 0 ==> destination_of(user + seq!['@'] + host) == Ok::<
                (Seq<char>, Option<u16>),
                Seq<char>,
            >((user + seq!['@'] + address, None))
            &&& user.len() > 0 ==> destination_of(user + seq!['@'] + host + digits) == Ok::<
                (Seq<char>, Option<u16>),
                Seq<char>,
            >((user + seq!['@'] + address, Some(port)))
        }),
{
    lemma_bracketed(user, address, Seq::empty(), None, port);
    let digits = seq![':'] + text::decimal(port as nat);
    text::law_decimal_has_places(port as nat);
    text::law_decimal_round_trip(port as nat, u16::MAX as nat);
    assert(digits.skip(1) =~= text::decimal(port as nat));
    assert(0x30 <= text::decimal(port as nat)[text::decimal(port as nat).len() - 1] as u32 <= 0x39);
    assert forall|i: int| 0 <= i < digits.len() implies digits[i] != '[' by {
        if i > 0 {
            assert(digits[i] == text::decimal(port as nat)[i - 1]);
        }
    }
    assert(digits.last() == text::decimal(port as nat).last());
    lemma_bracketed(user, address, digits, Some(port), port);
    let host = seq!['['] + address + seq![']'];
    assert(host + Seq::<char>::empty() =~= host);
    assert(user + seq!['@'] + host + Seq::<char>::empty() =~= user + seq!['@'] + host);
}

proof fn lemma_bracketed(
    user: Seq<char>,
    address: Seq<char>,
    rest: Seq<char>,
    port: Option<u16>,
    n: u16,
)
    requires
        forall|i: int| 0 <= i < address.len() ==> address[i] != ']' && address[i] != '[',
        forall|i: int| 0 <= i < user.len() ==> user[i] != '[',
        user.len() > 0 ==> !text::white_space(user[0]),
        forall|i: int| 0 <= i < rest.len() ==> rest[i] != '[',
        rest.len() > 0 ==> !text::white_space(rest.last()),
        port_behind(rest) == Some(port),
    ensures
        destination_of(seq!['['] + address + seq![']'] + rest) == Ok::<
            (Seq<char>, Option<u16>),
            Seq<char>,
        >((address, port)),
        user.len() > 0 ==> destination_of(user + seq!['@'] + (seq!['['] + address + seq![']']) + rest)
            == Ok::<(Seq<char>, Option<u16>), Seq<char>>((user + seq!['@'] + address, port)),
{
    reveal_strlit("@");
    assert("@"@ =~= seq!['@']);
    let s = seq!['['] + address + seq![']'] + rest;
    assert(s.last() == if rest.len() > 0 {
        rest.last()
    } else {
        ']'
    });
    lemma_solid_text(s);
    let inner = s.skip(1);
    assert(inner =~= address + seq![']'] + rest);
    lemma_next_is(inner, ']', 0, address.len() as int);
    assert(inner.take(address.len() as int) =~= address);
    assert(inner.skip(address.len() as int + 1) =~= rest);
    lemma_no_place_behind(s, 0);
    if user.len() > 0 {
        let t = user + seq!['@'] + (seq!['['] + address + seq![']']) + rest;
        let at = user.len() as int;
        assert(t.last() == if rest.len() > 0 {
            rest.last()
        } else {
            ']'
        });
        assert(t[0] == user[0]);
        lemma_solid_text(t);
        assert(t[at] == '@' && t[at + 1] == '[');
        assert forall|i: int| 0 < i <= at implies t[i] != '[' by {
            if i < at {
                assert(t[i] == user[i]);
            }
        }
        lemma_place_at(t, 0, at);
        assert(t[0] != '[');
        assert(t.skip(at + 2) =~= inner);
        assert(t.take(at) =~= user);
    }
}

proof fn lemma_no_place_behind(s: Seq<char>, from: int)
    requires
        0 <= from,
        forall|i: int| 0 < i < s.len() ==> s[i] != '[',
    ensures
        place(s, "@["@, from) == s.len(),
    decreases s.len() - from,
{
    reveal_strlit("@[");
    if from < s.len() {
        if text::occurs_at(s, "@["@, from) {
            assert(s.subrange(from, from + 2)[1] == "@["@[1]);
            assert(s[from + 1] == '[');
        }
        lemma_no_place_behind(s, from + 1);
    }
}

proof fn lemma_next_is(s: Seq<char>, c: char, from: int, at: int)
    requires
        0 <= from <= at < s.len(),
        s[at] == c,
        forall|i: int| from <= i < at ==> s[i] != c,
    ensures
        text::next_char(s, c, from) == at,
    decreases at - from,
{
    if from < at {
        lemma_next_is(s, c, from + 1, at);
    }
}

/// An IPv6 address without brackets is taken whole: with more than one colon
/// none of them parts a port off. White space around a destination is no part
/// of it, and nothing but white space is no destination.
pub proof fn law_bare_address_is_taken_whole(s: Seq<char>, i: int, j: int)
    requires
        forall|k: int| 0 <= k < s.len() ==> s[k] != '[',
    ensures
        text::trim(s).len() == 0 ==> destination_of(s) == Err::<
            (Seq<char>, Option<u16>),
            Seq<char>,
        >("empty destination"@),
        0 <= i < j < text::trim(s).len() && text::trim(s)[i] == ':' && text::trim(s)[j] == ':'
            ==> destination_of(s) == Ok::<(Seq<char>, Option<u16>), Seq<char>>(
            (text::trim(s), None),
        ),
{
    let t = text::trim(s);
    text::law_trim_keeps_the_middle(s);
    assert forall|k: int| 0 <= k < t.len() implies t[k] != '[' by {
        let (a, b) = choose|a: int, b: int|
            0 <= a <= b <= s.len() && text::trim(s) == #[trigger] s.subrange(a, b) && (forall|
                k: int,
            |
                0 <= k < a || b <= k < s.len() ==> text::white_space(#[trigger] s[k])) && (a < b
                ==> !text::white_space(s[a]) && !text::white_space(s[b - 1]));
        assert(t[k] == s[a + k]);
    }
    lemma_no_place(t, 0);
    if 0 <= i < j < t.len() && t[i] == ':' && t[j] == ':' {
        let k = last_colon(t);
        lemma_last_colon(t, j);
        assert(t.take(k)[i] == ':');
        lemma_last_colon(t.take(k), i);
    }
}

proof fn lemma_last_colon(s: Seq<char>, k: int)
    requires
        0 <= k < s.len(),
        s[k] == ':',
    ensures
        k <= last_colon(s) < s.len(),
        s[last_colon(s)] == ':',
    decreases s.len(),
{
    if s.last() != ':' {
        lemma_last_colon(s.drop_last(), k);
    }
}

/// An option that is a keyword, an equals sign and a value is left out where the
/// keyword is the one of the forward's failure in any case, and is passed on as
/// it stands where it is any other.
pub proof fn law_options_go_by_their_keyword(
    options: Seq<Seq<char>>,
    k: Seq<char>,
    sign: char,
    value: Seq<char>,
)
    requires
        forall|i: int|
            0 <= i < k.len() ==> #[trigger] k[i] != '=' && !text::white_space(k[i]) && k[i] != ' '
                && k[i] != '\t',
        sign == '=' || sign == ' ' || sign == '\t',
    ensures
        ({
            let option = k + seq![sign] + value;
            let before = user_args(options);
            let after = user_args(options.push(option));
            &&& text::lower(k) == "exitonforwardfailure"@ ==> after == before
            &&& text::lower(k) != "exitonforwardfailure"@ ==> after == before.push("-o"@).push(option)
        }),
{
    let option = k + seq![sign] + value;
    let n = k.len() as int;
    law_only_the_users_options_are_passed_on(options, option);
    lemma_pinned_is_about_forward_failure(option);
    assert(option[n] == sign);
    assert forall|i: int| 0 <= i < n implies !ends_keyword(option[i]) by {
        assert(option[i] == k[i]);
    }
    lemma_keyword_ends_at(option, 0, n);
    assert(option.take(n) =~= k);
    lemma_solid_is_trimmed(k);
}

proof fn lemma_keyword_ends_at(s: Seq<char>, from: int, i: int)
    requires
        0 <= from <= i < s.len(),
        ends_keyword(s[i]),
        forall|j: int| from <= j < i ==> !ends_keyword(s[j]),
    ensures
        keyword_end(s, from) == i,
    decreases i - from,
{
    if from < i {
        lemma_keyword_ends_at(s, from + 1, i);
    }
}

proof fn lemma_solid_is_trimmed(s: Seq<char>)
    requires
        forall|i: int| 0 <= i < s.len() ==> !text::white_space(#[trigger] s[i]),
    ensures
        text::trim(s) == s,
{
    text::law_trim_keeps_the_middle(s);
}

/// What stands behind the only colon is the port, whatever stands before it, and
/// is told where it is no port; a colon with nothing behind it is part of the
/// host.
pub proof fn law_only_colon_parts_the_port(text: Seq<char>, host: Seq<char>, port: Seq<char>)
    requires
        text::trim(text) == host + seq![':'] + port,
        forall|i: int| 0 <= i < host.len() ==> host[i] != ':' && host[i] != '[',
        forall|i: int| 0 <= i < port.len() ==> port[i] != ':' && port[i] != '[',
    ensures
        port.len() == 0 ==> destination_of(text) == Ok::<(Seq<char>, Option<u16>), Seq<char>>(
            (host + seq![':'], None),
        ),
        port.len() > 0 ==> (text::unsigned(port, 65535) matches Some(n) ==> destination_of(text) == Ok::<
            (Seq<char>, Option<u16>),
            Seq<char>,
        >((host, Some(n as u16)))),
        port.len() > 0 && text::unsigned(port, 65535) is None ==> destination_of(text) == Err::<
            (Seq<char>, Option<u16>),
            Seq<char>,
        >("bad port "@ + profiles::quoted(port)),
{
    let s = text::trim(text);
    let n = host.len() as int;
    assert(s[n] == ':');
    assert forall|i: int| 0 <= i < s.len() implies s[i] != '[' by {
        if i < n {
            assert(s[i] == host[i]);
        } else if i > n {
            assert(s[i] == port[i - n - 1]);
        }
    }
    lemma_no_place(s, 0);
    assert forall|i: int| n < i < s.len() implies s[i] != ':' by {
        assert(s[i] == port[i - n - 1]);
    }
    lemma_last_colon_is_at(s, n);
    assert(s.take(n) =~= host);
    assert(s.skip(n + 1) =~= port);
    lemma_no_colon(host);
    if port.len() == 0 {
        assert(s =~= host + seq![':']);
    }
}

proof fn lemma_last_colon_is_at(s: Seq<char>, n: int)
    requires
        0 <= n < s.len(),
        s[n] == ':',
        forall|i: int| n < i < s.len() ==> s[i] != ':',
    ensures
        last_colon(s) == n,
    decreases s.len(),
{
    if n < s.len() - 1 {
        lemma_last_colon_is_at(s.drop_last(), n);
    }
}

/// A text of white space is no destination.
pub proof fn law_blank_is_no_destination(text: Seq<char>)
    requires
        text::trim(text).len() == 0,
    ensures
        destination_of(text) == Err::<(Seq<char>, Option<u16>), Seq<char>>("empty destination"@),
{
}

/// An attempt to reach the local end takes a fifth of a second at most, and a
/// tenth passes between two.
pub proof fn law_forward_is_tried_often()
    ensures
        DIAL_TIMEOUT == 200_000_000,
        DIAL_PAUSE == 100_000_000,
{
}

} // verus!
