//! The command line: what its arguments mean.

use vstd::prelude::*;

use crate::profiles;
use crate::text;
use crate::tunnel;
use crate::tunnel::{RemoteTarget, TunnelConfig};

verus! {

/// The largest magnification of the remote screen.
pub const MAX_SCALE: u8 = 4;

/// The smallest side of an initial remote screen.
pub const MIN_SIDE: u16 = 64;

/// How long one file transfer may take before giving up, in nanoseconds.
pub const TRANSFER_TIMEOUT: u64 = 3_600_000_000_000;

/// What a magnification means.
pub open spec fn scale_of(s: Seq<char>) -> Result<u8, Seq<char>> {
    match text::unsigned(s, u8::MAX as nat) {
        None => Err("expected a whole number"@),
        Some(n) => if 1 <= n <= MAX_SCALE {
            Ok(n as u8)
        } else {
            Err("the scale must be between 1 and "@ + text::decimal(MAX_SCALE as nat))
        },
    }
}

/// Only whole factors, and only small ones.
///
/// The magnification is nearest-neighbour, which is what keeps the promise that
/// a remote desktop is never resampled and text stays exactly as the server
/// drew it; that only holds at an integer factor.
pub fn parse_scale(s: &str) -> (r: Result<u8, String>)
    ensures
        match r {
            Ok(n) => scale_of(s@) == Ok::<u8, Seq<char>>(n),
            Err(e) => scale_of(s@) == Err::<u8, Seq<char>>(e@),
        },
{
    let v = text::chars_of(s);
    match text::parse_unsigned(&v, 255) {
        None => Err(text::copy("expected a whole number")),
        Some(n) => {
            if n < 1 || n > MAX_SCALE as u64 {
                let mut e = text::copy("the scale must be between 1 and ");
                let m = text::decimal_of(MAX_SCALE as u64);
                e.push_str(m.as_str());
                return Err(e);
            }
            Ok(n as u8)
        },
    }
}

/// What a screen size means.
pub open spec fn size_of(s: Seq<char>) -> Result<(u16, u16), Seq<char>> {
    let i = text::next_char(s, 'x', 0);
    if i >= s.len() {
        Err("expected WIDTHxHEIGHT"@)
    } else {
        match (
            text::unsigned(s.take(i), u16::MAX as nat),
            text::unsigned(s.skip(i + 1), u16::MAX as nat),
        ) {
            (None, _) => Err("bad width"@),
            (Some(_), None) => Err("bad height"@),
            (Some(w), Some(h)) => if w < MIN_SIDE || h < MIN_SIDE {
                Err("size must be at least 64x64"@)
            } else {
                Ok((w as u16, h as u16))
            },
        }
    }
}

/// Read an initial screen size, `WIDTHxHEIGHT`.
pub fn parse_size(s: &str) -> (r: Result<(u16, u16), String>)
    ensures
        match r {
            Ok(size) => size_of(s@) == Ok::<(u16, u16), Seq<char>>(size),
            Err(e) => size_of(s@) == Err::<(u16, u16), Seq<char>>(e@),
        },
{
    let v = text::chars_of(s);
    let i = text::position(&v, 'x', 0);
    if i >= v.len() {
        return Err(text::copy("expected WIDTHxHEIGHT"));
    }
    let left = text::slice_of(&v, 0, i);
    let right = text::slice_of(&v, i + 1, v.len());
    assert(left@ =~= s@.take(i as int));
    assert(right@ =~= s@.skip(i + 1));
    let w: u64 = match text::parse_unsigned(&left, 65535) {
        Some(w) => w,
        None => {
            return Err(text::copy("bad width"));
        },
    };
    let h: u64 = match text::parse_unsigned(&right, 65535) {
        Some(h) => h,
        None => {
            return Err(text::copy("bad height"));
        },
    };
    if w < MIN_SIDE as u64 || h < MIN_SIDE as u64 {
        return Err(text::copy("size must be at least 64x64"));
    }
    Ok((w as u16, h as u16))
}

/// What the command line says of the tunnel.
#[derive(Clone, Debug, PartialEq, Eq)]
pub struct TunnelArgs {
    /// SSH port, which overrides one given in the destination.
    pub port: Option<u16>,
    pub identity: Option<String>,
    pub ssh_options: Vec<String>,
    /// Path of the ssh executable.
    pub ssh: String,
    /// Port on the remote host's loopback interface.
    pub remote_port: u16,
    /// Unix socket on the remote host instead of a port.
    pub remote_socket: Option<String>,
    pub local_port: u16,
}

/// The tunnel that a command line asks for.
pub open spec fn configured(args: TunnelArgs, destination: Seq<char>, env: Vec<(String, String)>, r: Result<TunnelConfig, String>) -> bool {
    &&& match tunnel::destination_of(destination) {
            Err(e) => r matches Err(f) && f@ == e,
            Ok((dest, port)) => r matches Ok(c) && c.destination@ == dest && c.ssh_port == (
            match args.port {
                Some(p) => Some(p),
                None => port,
            }) && profiles::text_of(c.identity) == profiles::text_of(args.identity) && text::texts(
                c.options@,
            ) == text::texts(args.ssh_options@) && (match args.remote_socket {
                Some(path) => c.remote matches RemoteTarget::Socket(s) && s@ == path@,
                None => c.remote == RemoteTarget::Port(args.remote_port),
            }) && c.local_port == args.local_port && c.ssh_program@ == args.ssh@
                && c.extra_args@.len() == 0 && c.env == env,
        }
}

/// The SSH invocation a destination on this command line asks for.
pub fn tunnel_config(args: &TunnelArgs, destination: &str, env: Vec<(String, String)>) -> (r: Result<
    TunnelConfig,
    String,
>)
    ensures
        match tunnel::destination_of(destination@) {
            Err(e) => r matches Err(f) && f@ == e,
            Ok((dest, port)) => r matches Ok(c) && c.destination@ == dest && c.ssh_port == (
            match args.port {
                Some(p) => Some(p),
                None => port,
            }) && profiles::text_of(c.identity) == profiles::text_of(args.identity) && text::texts(
                c.options@,
            ) == text::texts(args.ssh_options@) && (match args.remote_socket {
                Some(path) => c.remote matches RemoteTarget::Socket(s) && s@ == path@,
                None => c.remote == RemoteTarget::Port(args.remote_port),
            }) && c.local_port == args.local_port && c.ssh_program@ == args.ssh@
                && c.extra_args@.len() == 0 && c.env == env,
        },
        configured(*args, destination@, env, r),
{
    let (dest, port) = match tunnel::parse_destination(destination) {
        Ok(d) => d,
        Err(e) => {
            return Err(e);
        },
    };
    Ok(
        TunnelConfig {
            destination: dest,
            ssh_port: match args.port {
                Some(p) => Some(p),
                None => port,
            },
            identity: match &args.identity {
                Some(i) => Some(text::copy(i.as_str())),
                None => None,
            },
            options: text::copy_all(&args.ssh_options),
            remote: match &args.remote_socket {
                Some(p) => RemoteTarget::Socket(text::copy(p.as_str())),
                None => RemoteTarget::Port(args.remote_port),
            },
            local_port: args.local_port,
            ssh_program: text::copy(args.ssh.as_str()),
            extra_args: Vec::new(),
            env,
        },
    )
}

/// What opening a session directly comes to.
#[derive(Clone, Copy, Debug, PartialEq, Eq, Structural)]
pub enum Start {
    /// Connect to an address that is already tunnelled.
    Direct,
    /// Open a tunnel to the destination.
    Tunnel,
    /// Show the connection manager.
    Manager,
}

/// What the program begins with.
pub open spec fn begins(has_address: bool, has_destination: bool, s: Start) -> bool {
    &&& s == if has_address {
            Start::Direct
        } else if has_destination {
            Start::Tunnel
        } else {
            Start::Manager
        }
}

/// What the command line asks for. No arguments are no usage error: this is a
/// desktop application, so the connection manager is shown.
pub fn start(has_address: bool, has_destination: bool) -> (s: Start)
    ensures
        s == if has_address {
            Start::Direct
        } else if has_destination {
            Start::Tunnel
        } else {
            Start::Manager
        },
        begins(has_address, has_destination, s),
{
    if has_address {
        Start::Direct
    } else if has_destination {
        Start::Tunnel
    } else {
        Start::Manager
    }
}

/// Whether the end of a session is a failure of the command.
pub open spec fn failed(reason: Seq<char>) -> bool {
    text::starts_with(reason, "rejected"@) || text::starts_with(reason, "protocol error"@)
}

/// Whether the end of a session is a failure of the command.
pub fn is_failure(reason: &str) -> (r: bool)
    ensures
        r == failed(reason@),
{
    text::begins(reason, "rejected") || text::begins(reason, "protocol error")
}

/// A text without the slashes at its end.
pub open spec fn unslashed(s: Seq<char>) -> Seq<char>
    decreases s.len(),
{
    if s.len() > 0 && s.last() == '/' {
        unslashed(s.drop_last())
    } else {
        s
    }
}

/// Where an upload goes, below the session's upload directory.
pub open spec fn upload_path(into: Option<Seq<char>>, name: Seq<char>) -> Seq<char> {
    match into {
        Some(dir) => unslashed(dir) + "/"@ + name,
        None => name,
    }
}

/// Where an upload goes, below the session's upload directory.
pub fn upload_dest(into: Option<&str>, name: &str) -> (s: String)
    ensures
        s@ == upload_path(crate::askpass::str_of(into), name@),
{
    match into {
        Some(dir) => {
            let v = text::chars_of(dir);
            let mut n: usize = v.len();
            assert(v@.take(n as int) =~= v@);
            while n > 0 && v[n - 1] == '/'
                invariant
                    n <= v.len(),
                    unslashed(v@) == unslashed(v@.take(n as int)),
                decreases n,
            {
                assert(v@.take(n as int).drop_last() =~= v@.take(n - 1));
                n = n - 1;
            }
            let head = text::slice_of(&v, 0, n);
            assert(head@ =~= v@.take(n as int));
            let mut s = text::string_of(&head);
            s.push_str("/");
            s.push_str(name);
            s
        },
        None => text::copy(name),
    }
}

/// What follows the last slash of a path.
pub open spec fn base_of(path: Seq<char>) -> Seq<char>
    decreases path.len(),
{
    if path.len() == 0 || path.last() == '/' {
        Seq::empty()
    } else {
        base_of(path.drop_last()).push(path.last())
    }
}

/// The name a download gets: what follows the last slash of its path.
pub fn download_name(remote: &str) -> (name: String)
    ensures
        name@ == base_of(remote@),
{
    let v = text::chars_of(remote);
    let mut from: usize = v.len();
    assert(v@.skip(v@.len() as int) =~= Seq::<char>::empty());
    assert(v@.take(v@.len() as int) =~= v@);
    assert(base_of(v@) + v@.skip(v@.len() as int) =~= base_of(v@));
    while from > 0 && v[from - 1] != '/'
        invariant
            from <= v.len(),
            base_of(v@.take(from as int)) + v@.skip(from as int) == base_of(v@),
        decreases from,
    {
        let ghost head = v@.take(from as int);
        assert(head.drop_last() =~= v@.take(from - 1));
        assert(head.last() == v@[from - 1]);
        assert(v@.skip(from - 1) =~= seq![v@[from - 1]] + v@.skip(from as int));
        assert(base_of(head) + v@.skip(from as int) =~= base_of(v@.take(from - 1)) + v@.skip(
            from - 1,
        ));
        from = from - 1;
    }
    assert(base_of(v@.take(from as int)) =~= Seq::<char>::empty());
    let rest = text::slice_of(&v, from, v.len());
    assert(rest@ =~= base_of(v@));
    text::string_of(&rest)
}

/// A scale is a whole number from one to four.
pub proof fn law_scales_are_few(s: Seq<char>)
    ensures
        scale_of(s) is Ok <==> (text::unsigned(s, 255) matches Some(n) && 1 <= n && n <= 4),
        text::unsigned(s, 255) matches Some(n) ==> (1 <= n && n <= 4 ==> scale_of(s) == Ok::<
            u8,
            Seq<char>,
        >(n as u8)) && (n < 1 || n > 4 ==> scale_of(s) == Err::<u8, Seq<char>>(
            "the scale must be between 1 and "@ + seq!['4'],
        )),
        text::unsigned(s, 255) is None ==> scale_of(s) == Err::<u8, Seq<char>>(
            "expected a whole number"@,
        ),
{
    assert(text::decimal(4) =~= seq!['4']);
}

/// A size is the width, a cross and the height, 64 at least on each side.
pub proof fn law_sizes_have_two_sides(w: Seq<char>, h: Seq<char>)
    requires
        forall|k: int| 0 <= k < w.len() ==> w[k] != 'x',
    ensures
        ({
            let size = size_of(w + seq!['x'] + h);
            let width = text::unsigned(w, 65535);
            let height = text::unsigned(h, 65535);
            &&& width is None ==> size == Err::<(u16, u16), Seq<char>>("bad width"@)
            &&& width is Some && height is None ==> size == Err::<(u16, u16), Seq<char>>(
                "bad height"@,
            )
            &&& width matches Some(a) ==> (height matches Some(b) ==> (a >= 64 && b >= 64 ==> size
                == Ok::<(u16, u16), Seq<char>>((a as u16, b as u16))) && (a < 64 || b < 64 ==> size
                == Err::<(u16, u16), Seq<char>>("size must be at least 64x64"@)))
        }),
        size_of(w) == Err::<(u16, u16), Seq<char>>("expected WIDTHxHEIGHT"@),
{
    let s = w + seq!['x'] + h;
    let n = w.len() as int;
    let i = text::next_char(s, 'x', 0);
    text::law_next_place_is_the_first(s, 'x', 0, n);
    assert(s[n] == 'x');
    if i < n {
        assert(s[i] == w[i]);
    }
    assert(i == n);
    assert(s.take(n) =~= w);
    assert(s.skip(n + 1) =~= h);
    let j = text::next_char(w, 'x', 0);
    text::law_next_place_is_the_first(w, 'x', 0, 0);
    assert(j == w.len());
}

/// The tunnel of a command line goes where the destination says, and takes each
/// setting from the flag of its own; the port of the command line comes before
/// that of the destination, and a socket before a port.
pub proof fn law_tunnel_is_as_asked(
    args: TunnelArgs,
    destination: Seq<char>,
    env: Vec<(String, String)>,
    r: Result<TunnelConfig, String>,
)
    requires
        configured(args, destination, env, r),
    ensures
        r is Ok <==> tunnel::destination_of(destination) is Ok,
        r matches Ok(c) ==> (args.port matches Some(p) ==> c.ssh_port == Some(p)),
        r matches Ok(c) ==> (tunnel::destination_of(destination) matches Ok((d, port)) && c.destination@
            == d && (args.port is None ==> c.ssh_port == port)),
        r matches Ok(c) ==> c.local_port == args.local_port && c.ssh_program@ == args.ssh@
            && text::texts(c.options@) == text::texts(args.ssh_options@) && c.env == env
            && c.extra_args@.len() == 0,
        r matches Ok(c) ==> (args.remote_socket matches Some(path) ==> (
        c.remote matches RemoteTarget::Socket(s) && s@ == path@)),
        r matches Ok(c) ==> (args.remote_socket is None ==> c.remote == RemoteTarget::Port(
            args.remote_port,
        )),
        r matches Ok(c) ==> (args.identity matches Some(i) ==> (c.identity matches Some(j) && j@
            == i@)) && (args.identity is None ==> c.identity is None),
        r matches Err(e) ==> tunnel::destination_of(destination) == Err::<
            (Seq<char>, Option<u16>),
            Seq<char>,
        >(e@),
{
}

/// A session has failed where it was rejected or the protocol was broken, and
/// ended well with any other reason.
pub proof fn law_failures_are_told_by_their_reason(rest: Seq<char>, reason: Seq<char>)
    ensures
        failed("rejected"@ + rest),
        failed("protocol error"@ + rest),
        failed(reason) ==> reason == "rejected"@ + reason.skip("rejected"@.len() as int) || reason
            == "protocol error"@ + reason.skip("protocol error"@.len() as int),
{
    let none = Seq::<char>::empty();
    text::law_parts_are_found(reason, "rejected"@, none, rest, 0);
    text::law_parts_are_found(reason, "protocol error"@, none, rest, 0);
}

/// An upload goes below the directory that was named, with one slash between, or
/// keeps its bare name.
pub proof fn law_uploads_go_below_the_directory(dir: Seq<char>, name: Seq<char>)
    ensures
        upload_path(None, name) == name,
        dir.len() == 0 || dir.last() != '/' ==> upload_path(Some(dir), name) == dir + "/"@ + name,
        upload_path(Some(dir + "/"@), name) == upload_path(Some(dir), name),
{
    reveal_strlit("/");
    assert((dir + "/"@).last() == '/');
    assert((dir + "/"@).drop_last() =~= dir);
}

/// A download is named by what stands behind the last slash.
pub proof fn law_downloads_keep_their_name(dir: Seq<char>, name: Seq<char>)
    requires
        forall|k: int| 0 <= k < name.len() ==> name[k] != '/',
    ensures
        base_of(dir + "/"@ + name) == name,
        base_of(name) == name,
    decreases name.len(),
{
    reveal_strlit("/");
    if name.len() == 0 {
        assert((dir + "/"@ + name).last() == '/');
        assert(base_of(dir + "/"@ + name) =~= name);
        assert(base_of(name) =~= name);
    } else {
        let s = dir + "/"@ + name;
        assert(s.drop_last() =~= dir + "/"@ + name.drop_last());
        assert(s.last() == name.last());
        law_downloads_keep_their_name(dir, name.drop_last());
        assert(name.drop_last().push(name.last()) =~= name);
    }
}

/// An address is connected to directly, a destination through a tunnel, and
/// without either the connections are shown.
pub proof fn law_program_begins_with_what_it_was_given(has_address: bool, has_destination: bool, s: Start)
    requires
        begins(has_address, has_destination, s),
    ensures
        s is Direct <==> has_address,
        s is Tunnel <==> !has_address && has_destination,
        s is Manager <==> !has_address && !has_destination,
        TRANSFER_TIMEOUT == 3600 * 1_000_000_000,
{
}

} // verus!
