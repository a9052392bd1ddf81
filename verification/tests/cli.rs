use lynxrdp_client::cli::{
    download_name, is_failure, parse_scale, parse_size, start, tunnel_config, upload_dest, Start,
    TunnelArgs,
};
use lynxrdp_client::tunnel::RemoteTarget;

#[test]
fn only_small_whole_scales_are_taken() {
    assert_eq!(parse_scale("1"), Ok(1));
    assert_eq!(parse_scale("4"), Ok(4));
    for bad in ["0", "5"] {
        assert_eq!(
            parse_scale(bad),
            Err("the scale must be between 1 and 4".to_string())
        );
    }
    for bad in ["1.5", "", "x", "256"] {
        assert_eq!(parse_scale(bad), Err("expected a whole number".to_string()));
    }
}

#[test]
fn screen_sizes_have_a_floor() {
    assert_eq!(parse_size("1920x1080"), Ok((1920, 1080)));
    assert_eq!(parse_size("64x64"), Ok((64, 64)));
    assert_eq!(
        parse_size("63x1080"),
        Err("size must be at least 64x64".to_string())
    );
    assert_eq!(parse_size("1920"), Err("expected WIDTHxHEIGHT".to_string()));
    assert_eq!(parse_size("ax1"), Err("bad width".to_string()));
    assert_eq!(parse_size("1x70000"), Err("bad height".to_string()));
}

#[test]
fn the_command_line_describes_a_tunnel() {
    let args = TunnelArgs {
        port: None,
        identity: Some("/k/id".into()),
        ssh_options: vec!["A=1".into()],
        ssh: "ssh".into(),
        remote_port: 3390,
        remote_socket: None,
        local_port: 0,
    };
    let c = tunnel_config(&args, "alice@host:2222", Vec::new()).unwrap();
    assert_eq!(c.destination, "alice@host");
    assert_eq!(c.ssh_port, Some(2222));
    assert_eq!(c.remote, RemoteTarget::Port(3390));
    // A port given on its own outranks one in the destination.
    let args = TunnelArgs {
        port: Some(22),
        remote_socket: Some("/run/s".into()),
        ..args
    };
    let c = tunnel_config(&args, "alice@host:2222", Vec::new()).unwrap();
    assert_eq!(c.ssh_port, Some(22));
    assert_eq!(c.remote, RemoteTarget::Socket("/run/s".into()));
    assert!(tunnel_config(&args, "host:nope", Vec::new()).is_err());
}

#[test]
fn no_arguments_show_the_manager() {
    assert_eq!(start(true, true), Start::Direct);
    assert_eq!(start(false, true), Start::Tunnel);
    assert_eq!(start(false, false), Start::Manager);
}

#[test]
fn a_rejected_session_is_a_failure() {
    assert!(is_failure("rejected (code 2): no"));
    assert!(is_failure("protocol error: bad tile"));
    assert!(!is_failure("closed by client"));
}

#[test]
fn transfers_are_named_by_the_last_component() {
    assert_eq!(upload_dest(None, "a.txt"), "a.txt");
    assert_eq!(upload_dest(Some("dir//"), "a.txt"), "dir/a.txt");
    assert_eq!(download_name("/srv/dir/a.txt"), "a.txt");
    assert_eq!(download_name("a.txt"), "a.txt");
}
