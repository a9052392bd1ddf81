//! Session administration over the user's normal SSH authentication.

use vstd::prelude::*;

use crate::profiles;
use crate::profiles::Profile;
use crate::proto;
use crate::text;
use crate::tunnel;
use crate::tunnel::{RemoteTarget, TunnelConfig};

verus! {

/// How long the command may take, in nanoseconds.
pub const TIMEOUT: u64 = 120_000_000_000;

/// How much it may say, in bytes.
pub const MAX_OUTPUT: u64 = 1_048_576;

/// How much of what it says about a failure is shown, in bytes.
pub const MAX_ERROR: u64 = 8192;

/// A desktop that is running on the server.
#[derive(Clone, Debug, PartialEq, Eq)]
pub struct SessionRecord {
    pub pid: u32,
    pub started: u64,
    pub session_id: u64,
    pub listen: Option<String>,
}

/// The arguments of a tunnel without what opens one: the flag that runs no
/// command, and the forward with its value.
pub open spec fn unforwarded(args: Seq<Seq<char>>) -> Seq<Seq<char>>
    decreases args.len(),
{
    if args.len() == 0 {
        args
    } else if args[0] == "-N"@ {
        unforwarded(args.skip(1))
    } else if args[0] == "-L"@ {
        if args.len() < 2 {
            Seq::empty()
        } else {
            unforwarded(args.skip(2))
        }
    } else {
        seq![args[0]] + unforwarded(args.skip(1))
    }
}

/// What `ssh` is told before the arguments of the tunnel.
pub open spec fn lead_args() -> Seq<Seq<char>> {
    seq!["-T"@, "-o"@, "ClearAllForwardings=yes"@, "-o"@, "RemoteCommand=none"@]
}

/// What runs on the server.
pub open spec fn remote_command(terminate: Option<(u32, u64)>) -> Seq<char> {
    match terminate {
        Some((pid, started)) => "lynxrdp-session --terminate "@ + text::decimal(pid as nat)
            + " --started "@ + text::decimal(started as nat),
        None => "lynxrdp-session --list-sessions"@,
    }
}

proof fn lemma_no_forward_is_left(args: Seq<Seq<char>>)
    ensures
        forall|i: int|
            0 <= i < unforwarded(args).len() ==> #[trigger] unforwarded(args)[i] != "-L"@
                && unforwarded(args)[i] != "-N"@,
    decreases args.len(),
{
    let out = unforwarded(args);
    if args.len() > 0 {
        if args[0] == "-N"@ {
            lemma_no_forward_is_left(args.skip(1));
            assert(out == unforwarded(args.skip(1)));
        } else if args[0] == "-L"@ {
            if args.len() >= 2 {
                lemma_no_forward_is_left(args.skip(2));
                assert(out == unforwarded(args.skip(2)));
            } else {
                assert(out == Seq::<Seq<char>>::empty());
            }
        } else {
            lemma_no_forward_is_left(args.skip(1));
            let rest = unforwarded(args.skip(1));
            assert(out == seq![args[0]] + rest);
            assert forall|i: int| 0 <= i < out.len() implies #[trigger] out[i] != "-L"@ && out[i]
                != "-N"@ by {
                if i > 0 {
                    assert(out[i] == rest[i - 1]);
                } else {
                    assert(out[i] == args[0]);
                }
            }
        }
    }
}

/// The arguments of `ssh` for session management.
pub open spec fn management_args(config: TunnelConfig, terminate: Option<(u32, u64)>) -> Seq<
    Seq<char>,
> {
    lead_args() + unforwarded(config.all_args(1)) + seq![remote_command(terminate)]
}

/// Session management opens no forward and runs a command: neither of the
/// arguments that ask otherwise is left, whatever the connection's options are.
pub proof fn law_management_opens_no_forward(
    config: TunnelConfig,
    terminate: Option<(u32, u64)>,
    i: int,
)
    requires
        0 <= i < management_args(config, terminate).len(),
    ensures
        management_args(config, terminate)[i] != "-L"@,
        management_args(config, terminate)[i] != "-N"@,
{
    let rest = unforwarded(config.all_args(1));
    lemma_no_forward_is_left(config.all_args(1));
    reveal_strlit("-L");
    reveal_strlit("-N");
    reveal_strlit("-T");
    reveal_strlit("-o");
    reveal_strlit("ClearAllForwardings=yes");
    reveal_strlit("RemoteCommand=none");
    reveal_strlit("lynxrdp-session --terminate ");
    reveal_strlit("lynxrdp-session --list-sessions");
    let n = lead_args().len() as int;
    if i < n {
        assert(management_args(config, terminate)[i] == lead_args()[i]);
        assert("-T"@[1] != "-L"@[1] && "-T"@[1] != "-N"@[1]);
        assert("-o"@[1] != "-L"@[1] && "-o"@[1] != "-N"@[1]);
        assert(lead_args()[2].len() > 2 && lead_args()[4].len() > 2);
    } else if i < n + rest.len() {
        assert(management_args(config, terminate)[i] == rest[i - n]);
    } else {
        assert(management_args(config, terminate)[i] == remote_command(terminate));
        assert(remote_command(terminate).len() > 2);
    }
}

/// The arguments of `ssh` for session management. No shell data comes from a
/// profile: only fixed commands and decimal numbers.
pub fn command(config: &TunnelConfig, terminate: Option<(u32, u64)>) -> (a: Vec<String>)
    ensures
        text::texts(a@) == management_args(*config, terminate),
{
    let mut a: Vec<String> = Vec::new();
    profiles::push_arg(&mut a, text::copy("-T"));
    profiles::push_arg(&mut a, text::copy("-o"));
    profiles::push_arg(&mut a, text::copy("ClearAllForwardings=yes"));
    profiles::push_arg(&mut a, text::copy("-o"));
    profiles::push_arg(&mut a, text::copy("RemoteCommand=none"));
    assert(text::texts(a@) =~= lead_args());
    let args = config.args(1);
    let ghost all = text::texts(args@);
    let ghost lead = text::texts(a@);
    let mut i: usize = 0;
    assert(all.skip(0) =~= all);
    while i < args.len()
        invariant
            i <= args.len(),
            all == text::texts(args@),
            lead + unforwarded(all) == text::texts(a@) + unforwarded(all.skip(i as int)),
        decreases args.len() - i,
    {
        let ghost rest = all.skip(i as int);
        assert(rest[0] == args@[i as int]@);
        assert(rest.skip(1) =~= all.skip(i + 1));
        if text::same(args[i].as_str(), "-N") {
            i = i + 1;
        } else if text::same(args[i].as_str(), "-L") {
            if args.len() - i >= 2 {
                assert(rest.skip(2) =~= all.skip(i + 2));
                i = i + 2;
            } else {
                assert(all.skip(args@.len() as int) =~= Seq::<Seq<char>>::empty());
                i = args.len();
            }
        } else {
            let ghost before = text::texts(a@);
            profiles::push_arg(&mut a, text::copy(args[i].as_str()));
            assert(before + (seq![rest[0]] + unforwarded(rest.skip(1))) =~= text::texts(a@)
                + unforwarded(rest.skip(1)));
            i = i + 1;
        }
    }
    assert(all.skip(i as int) =~= Seq::<Seq<char>>::empty());
    assert(text::texts(a@) + Seq::<Seq<char>>::empty() =~= text::texts(a@));
    let last = match terminate {
        Some((pid, started)) => {
            let mut s = text::copy("lynxrdp-session --terminate ");
            let p = text::decimal_of(pid as u64);
            s.push_str(p.as_str());
            s.push_str(" --started ");
            let t = text::decimal_of(started);
            s.push_str(t.as_str());
            s
        },
        None => text::copy("lynxrdp-session --list-sessions"),
    };
    let ghost so_far = text::texts(a@);
    profiles::push_arg(&mut a, last);
    assert(text::texts(a@) =~= so_far + seq![remote_command(terminate)]);
    a
}

/// Whether the command has taken too long or said too much.
pub fn over_limit(elapsed: u64, output: u64, errors: u64) -> (r: bool)
    ensures
        r == (elapsed > TIMEOUT || output > MAX_OUTPUT || errors > MAX_OUTPUT),
{
    elapsed > TIMEOUT || output > MAX_OUTPUT || errors > MAX_OUTPUT
}

/// What a command that has is answered.
pub fn over_limit_text() -> (s: String)
    ensures
        s@ == "session management timed out or returned too much output"@,
{
    text::copy("session management timed out or returned too much output")
}

/// What a command that failed is answered, given what it said.
pub fn failure_text(said: &str) -> (s: String)
    ensures
        s@ == "session management failed: "@ + text::trim(said@),
{
    let mut s = text::copy("session management failed: ");
    let t = text::trimmed(said);
    s.push_str(t.as_str());
    s
}

// ---------------------------------------------------------------------------
// The window
// ---------------------------------------------------------------------------

/// A remote session list belonging to one saved SSH connection.
#[derive(Debug)]
pub struct Window {
    pub profile: Profile,
    pub records: Vec<SessionRecord>,
    /// An answer of the server is awaited.
    pub pending: bool,
    /// The desktop the user is asked about.
    pub confirm: Option<SessionRecord>,
    pub error: Option<String>,
    pub open: bool,
}

impl Window {
    /// The tunnel whose arguments management takes. Where it would lead does not
    /// matter: no forward is opened.
    pub fn config(&self, env: Vec<(String, String)>) -> (c: TunnelConfig)
        ensures
            c.destination@ == self.profile@.destination(),
            c.ssh_port == self.profile.ssh_port,
            profiles::text_of(c.identity) == profiles::text_of(self.profile.identity),
            text::texts(c.options@) == text::texts(self.profile.ssh_options@),
            c.remote == RemoteTarget::Port(proto::DEFAULT_PORT),
            c.local_port == 0,
            c.ssh_program@ == "ssh"@,
            c.extra_args@.len() == 0,
            c.env == env,
    {
        let mut c = tunnel::profile_tunnel(&self.profile, env);
        c.remote = RemoteTarget::Port(proto::DEFAULT_PORT);
        c
    }

    /// A window that asks for the list at once.
    pub fn new(profile: Profile) -> (w: Window)
        ensures
            w.profile == profile,
            w.records@.len() == 0,
            w.pending,
            w.confirm is None,
            w.error is None,
            w.open,
    {
        Window {
            profile,
            records: Vec::new(),
            pending: true,
            confirm: None,
            error: None,
            open: true,
        }
    }

    /// What asking for the list anew does.
    pub open spec fn refreshed(self, after: Window, ask: bool) -> bool {
        &&& ask == !self.pending
        &&& after == if ask {
                Window { pending: true, error: None, ..self }
            } else {
                self
            }
    }

    /// Ask the server again, where no answer is awaited. Returns whether to.
    pub fn refresh(&mut self) -> (ask: bool)
        ensures
            ask == !old(self).pending,
            *final(self) == if ask {
                Window { pending: true, error: None, ..*old(self) }
            } else {
                *old(self)
            },
            old(self).refreshed(*final(self), ask),
    {
        if self.pending {
            return false;
        }
        self.pending = true;
        self.error = None;
        true
    }

    /// What an answer does to the list.
    pub open spec fn filled(self, after: Window, result: Result<Vec<SessionRecord>, String>) -> bool {
        &&& after == match result {
                Ok(records) => Window { pending: false, records, ..self },
                Err(e) => Window { pending: false, error: Some(e), ..self },
            }
    }

    /// The server answered. A failure leaves the list as it was.
    pub fn answered(&mut self, result: Result<Vec<SessionRecord>, String>)
        ensures
            *final(self) == match result {
                Ok(records) => Window { pending: false, records, ..*old(self) },
                Err(e) => Window { pending: false, error: Some(e), ..*old(self) },
            },
            old(self).filled(*final(self), result),
    {
        self.pending = false;
        match result {
            Ok(records) => {
                self.records = records;
            },
            Err(e) => {
                self.error = Some(e);
            },
        }
    }

    /// Whether the list is known to be empty.
    pub fn empty(&self) -> (r: bool)
        ensures
            r == (!self.pending && self.records@.len() == 0),
    {
        !self.pending && self.records.len() == 0
    }

    /// The connection to a desktop that runs.
    pub open spec fn reconnects(self, port: Option<u16>, p: Option<Profile>) -> bool {
        &&& if self.pending {
                p is None
            } else {
                p matches Some(profile) && profile@ == (profiles::ProfileModel {
                    remote_port: match port {
                        Some(n) => Some(n),
                        None => self.profile.remote_port,
                    },
                    ..self.profile@
                })
            }
    }

    /// The connection to launch for a desktop. `port` is what its address names
    /// where that can be read; the connection's own stands otherwise.
    pub fn reconnect(&self, port: Option<u16>) -> (p: Option<Profile>)
        ensures
            if self.pending {
                p is None
            } else {
                p matches Some(profile) && profile@ == (profiles::ProfileModel {
                    remote_port: match port {
                        Some(n) => Some(n),
                        None => self.profile.remote_port,
                    },
                    ..self.profile@
                })
            },
            self.reconnects(port, p),
    {
        if self.pending {
            return None;
        }
        let mut profile = self.profile.clone();
        match port {
            Some(n) => {
                profile.remote_port = Some(n);
            },
            None => {},
        }
        Some(profile)
    }

    /// Ask about ending a desktop, where no answer of the server is awaited.
    pub fn ask_about(&mut self, i: usize)
        requires
            i < old(self).records@.len(),
        ensures
            if old(self).pending {
                *final(self) == *old(self)
            } else {
                &&& final(self).confirm matches Some(r) && r.pid == old(self).records@[i as int].pid
                    && r.started == old(self).records@[i as int].started && r.session_id
                    == old(self).records@[i as int].session_id && profiles::text_of(r.listen)
                    == profiles::text_of(old(self).records@[i as int].listen)
                &&& *final(self) == (Window { confirm: final(self).confirm, ..*old(self) })
            },
    {
        if self.pending {
            return;
        }
        let r = &self.records[i];
        self.confirm = Some(
            SessionRecord {
                pid: r.pid,
                started: r.started,
                session_id: r.session_id,
                listen: r.listen.clone(),
            },
        );
    }

    /// The user thought better of it.
    pub fn cancel(&mut self)
        ensures
            *final(self) == (Window { confirm: None, ..*old(self) }),
    {
        self.confirm = None;
    }

    /// What confirming the end of a desktop does, and which one is ended.
    pub open spec fn ended(self, after: Window, target: Option<(u32, u64)>) -> bool {
        &&& match self.confirm {
                Some(r) => {
                    &&& target == Some((r.pid, r.started))
                    &&& after == (Window {
                        confirm: None,
                        pending: true,
                        error: None,
                        ..self
                    })
                },
                None => target is None && after == self,
            }
    }

    /// The user wants the desktop ended. Returns which.
    pub fn end(&mut self) -> (target: Option<(u32, u64)>)
        ensures
            match old(self).confirm {
                Some(r) => {
                    &&& target == Some((r.pid, r.started))
                    &&& *final(self) == (Window {
                        confirm: None,
                        pending: true,
                        error: None,
                        ..*old(self)
                    })
                },
                None => target is None && *final(self) == *old(self),
            },
            old(self).ended(*final(self), target),
    {
        match &self.confirm {
            Some(r) => {
                let target = (r.pid, r.started);
                self.confirm = None;
                self.pending = true;
                self.error = None;
                Some(target)
            },
            None => None,
        }
    }

    /// The title of the window.
    pub fn title(&self) -> (s: String)
        ensures
            s@ == "Running desktops - "@ + self.profile@.destination(),
    {
        let mut s = text::copy("Running desktops - ");
        let d = self.profile.destination();
        s.push_str(d.as_str());
        s
    }
}

/// How a desktop is listed.
pub fn row_text(record: &SessionRecord) -> (s: String)
    ensures
        s@ == "Session "@ + text::decimal(record.session_id as nat) + " - PID "@ + text::decimal(
            record.pid as nat,
        ),
{
    let mut s = text::copy("Session ");
    let id = text::decimal_of(record.session_id);
    s.push_str(id.as_str());
    s.push_str(" - PID ");
    let pid = text::decimal_of(record.pid as u64);
    s.push_str(pid.as_str());
    s
}

/// How the user is asked about ending a desktop.
pub fn question_text(pid: u32) -> (s: String)
    ensures
        s@ == "End desktop PID "@ + text::decimal(pid as nat)
            + "? Its applications will close and unsaved work may be lost."@,
{
    let mut s = text::copy("End desktop PID ");
    let p = text::decimal_of(pid as u64);
    s.push_str(p.as_str());
    s.push_str("? Its applications will close and unsaved work may be lost.");
    s
}

/// The command line that manages sessions is that of the tunnel without its
/// forward, and every other argument stays in its order.
pub proof fn law_forward_alone_is_left_out(first: Seq<char>, rest: Seq<Seq<char>>, spec: Seq<char>)
    ensures
        unforwarded(Seq::empty()).len() == 0,
        unforwarded(seq!["-N"@] + rest) == unforwarded(rest),
        unforwarded(seq!["-L"@, spec] + rest) == unforwarded(rest),
        first != "-N"@ && first != "-L"@ ==> unforwarded(seq![first] + rest) == seq![first]
            + unforwarded(rest),
{
    reveal_strlit("-N");
    reveal_strlit("-L");
    assert("-N"@[1] != "-L"@[1]);
    assert((seq!["-N"@] + rest).skip(1) =~= rest);
    assert((seq!["-L"@, spec] + rest).skip(2) =~= rest);
    assert((seq![first] + rest).skip(1) =~= rest);
}

/// Sessions are listed, or one of them is ended by its number and the moment it
/// started, over a connection that forwards nothing.
pub proof fn law_server_is_asked(config: TunnelConfig, pid: u32, started: u64)
    ensures
        ({
            let list = management_args(config, None);
            let end = management_args(config, Some((pid, started)));
            &&& list.last() == "lynxrdp-session --list-sessions"@
            &&& end.last() == "lynxrdp-session --terminate "@ + text::decimal(pid as nat)
                + " --started "@ + text::decimal(started as nat)
            &&& list.take(5) == seq![
                "-T"@,
                "-o"@,
                "ClearAllForwardings=yes"@,
                "-o"@,
                "RemoteCommand=none"@,
            ]
            &&& end.take(5) == list.take(5)
            &&& list.drop_last().skip(5) == unforwarded(config.all_args(1))
            &&& end.drop_last().skip(5) == unforwarded(config.all_args(1))
        }),
        TIMEOUT == 120_000_000_000 && MAX_OUTPUT == 1024 * 1024 && MAX_ERROR == 8192,
{
    let list = management_args(config, None);
    let end = management_args(config, Some((pid, started)));
    assert(list.take(5) =~= lead_args());
    assert(end.take(5) =~= lead_args());
    assert(list.drop_last().skip(5) =~= unforwarded(config.all_args(1)));
    assert(end.drop_last().skip(5) =~= unforwarded(config.all_args(1)));
}

/// Only the desktop that was asked about is ended, and only once.
pub proof fn law_confirmed_desktop_is_ended(w: Window, after: Window, target: Option<(u32, u64)>)
    requires
        w.ended(after, target),
    ensures
        w.confirm is None ==> target is None && after == w,
        w.confirm matches Some(r) ==> target == Some((r.pid, r.started)) && after.confirm is None
            && after.pending && after.error is None,
        after.records == w.records && after.profile == w.profile,
{
}

/// A desktop is connected to with the settings of the connection, at its own
/// port where it has one, and not while an answer is awaited.
pub proof fn law_desktop_is_connected_to(w: Window, port: Option<u16>, p: Option<Profile>)
    requires
        w.reconnects(port, p),
    ensures
        p is None <==> w.pending,
        p matches Some(q) ==> q.name@ == w.profile.name@ && q.host@ == w.profile.host@ && q.user@
            == w.profile.user@ && q.ssh_port == w.profile.ssh_port && (port matches Some(n)
            ==> q.remote_port == Some(n)) && (port is None ==> q.remote_port
            == w.profile.remote_port),
{
    if let Some(q) = p {
        assert(q@.name == w.profile@.name && q@.host == w.profile@.host && q@.user
            == w.profile@.user);
        assert(q@.ssh_port == w.profile@.ssh_port);
    }
}

/// The list is asked for once at a time, and is that of the last answer.
pub proof fn law_list_is_that_of_the_answer(
    w: Window,
    asked: Window,
    ask: bool,
    after: Window,
    result: Result<Vec<SessionRecord>, String>,
)
    requires
        w.refreshed(asked, ask),
        w.filled(after, result),
    ensures
        ask <==> !w.pending,
        asked.pending,
        ask ==> asked.error is None && asked.records == w.records,
        !after.pending,
        result matches Ok(records) ==> after.records == records,
        result matches Err(e) ==> after.error == Some(e) && after.records == w.records,
{
}

} // verus!
