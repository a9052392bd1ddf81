use lynxrdp_client::askpass::broker::{
    decode_answer, decode_prompt, encode_answer, encode_prompt, Broker, Reply, MAX_WAITING,
    PATIENCE,
};
use lynxrdp_client::askpass::{
    classify, exit_code, height_for, helper_prompt, ssh_env, ssh_env_from, Ask, Choice, Kind,
    Program, HELPER_MARKER,
};

/// The exact text OpenSSH puts up for a host it has not seen. Getting a
/// password box here instead of Yes/No is the failure that would make
/// this feature worse than not having it.
const HOST_KEY: &str = "The authenticity of host 'gpu-01 (10.0.0.5)' can't be established.\n\
     ED25519 key fingerprint is SHA256:HrxE0lmMGCsCJ8bXBRr1lS3xhVwGhy8gRuKfEEXAMPLE.\n\
     This key is not known by any other names.\n\
     Are you sure you want to continue connecting (yes/no/[fingerprint])? ";

#[test]
fn a_host_key_question_is_a_yes_or_no() {
    assert_eq!(classify(HOST_KEY), Kind::Confirm);
    // Older OpenSSH, without the fingerprint option.
    assert_eq!(
        classify("Are you sure you want to continue connecting (yes/no)? "),
        Kind::Confirm
    );
    // And the reprompt after an answer it did not understand.
    assert_eq!(
        classify("Please type 'yes', 'no' or the fingerprint: "),
        Kind::Confirm
    );
}

#[test]
fn everything_else_is_something_to_type() {
    for prompt in [
        "alice@gpu-01's password: ",
        "Enter passphrase for key '/home/alice/.ssh/id_ed25519': ",
        "(alice@gpu-01) Verification code: ",
        "Duo two-factor login for alice\nPasscode or option (1-3): ",
    ] {
        assert_eq!(classify(prompt), Kind::Secret, "{prompt:?}");
    }
}

#[test]
fn a_host_key_question_opens_taller_than_a_passphrase_one() {
    // Five lines against one; one height for both leaves the important
    // question scrolled out of sight.
    assert!(height_for(HOST_KEY, Kind::Confirm) > height_for("Password: ", Kind::Secret));
}

/// Only an invocation that looks exactly like ssh's is treated as one.
#[test]
fn the_helper_is_recognised_by_marker_and_shape() {
    let argv = |args: &[&str]| -> Vec<Option<String>> {
        args.iter().map(|a| Some(a.to_string())).collect::<Vec<_>>()
    };

    // Without the marker this is just someone connecting to a host.
    assert_eq!(
        helper_prompt(false, &argv(&["lynxrdp", "alice@gpu-01"])),
        None
    );

    assert_eq!(
        helper_prompt(true, &argv(&["lynxrdp", "Password: "])),
        Some("Password: ".to_string())
    );
    // ssh passes exactly one argument, and never an option or an empty
    // one. Anything else is a real command line that happens to have
    // inherited the marker, and must open the client, not a dialog.
    assert_eq!(helper_prompt(true, &argv(&["lynxrdp"])), None);
    assert_eq!(
        helper_prompt(true, &argv(&["lynxrdp", "host", "--fullscreen"])),
        None
    );
    assert_eq!(helper_prompt(true, &argv(&["lynxrdp", "--version"])), None);
    assert_eq!(helper_prompt(true, &argv(&["lynxrdp", "   "])), None);
    // An argument that is no text is no prompt.
    assert_eq!(
        helper_prompt(true, &vec![Some("lynxrdp".to_string()), None]),
        None
    );
}

#[test]
fn ssh_is_pointed_at_this_binary_and_told_to_use_it() {
    let env = ssh_env_from(Some("/opt/lynxrdp/bin/lynxrdp"), None, None);
    let get = |k: &str| {
        env.iter()
            .find(|(key, _)| key == k)
            .map(|(_, v)| v.as_str())
    };
    assert_eq!(get("SSH_ASKPASS"), Some("/opt/lynxrdp/bin/lynxrdp"));
    assert_eq!(get(HELPER_MARKER), Some("1"));
    // Without force, OpenSSH uses an askpass only when DISPLAY is set,
    // which on macOS it never is.
    assert_eq!(get("SSH_ASKPASS_REQUIRE"), Some("force"));
}

#[test]
fn an_askpass_the_user_already_chose_is_left_alone() {
    // A desktop that ships ssh-askpass, or a line in a profile, is a
    // deliberate choice; ours is the fallback, not the override.
    let env = ssh_env_from(
        Some("/opt/lynxrdp/bin/lynxrdp"),
        Some("/usr/bin/ssh-askpass"),
        None,
    );
    assert!(!env.iter().any(|(k, _)| k == "SSH_ASKPASS"));
    assert!(
        !env.iter().any(|(k, _)| k == HELPER_MARKER),
        "the helper marker must not travel without the program that reads it"
    );
    // The preference for asking rather than using a tty still applies.
    assert!(env.iter().any(|(k, _)| k == "SSH_ASKPASS_REQUIRE"));

    let env = ssh_env_from(Some("/opt/lynxrdp/bin/lynxrdp"), None, Some("never"));
    assert!(!env.iter().any(|(k, _)| k == "SSH_ASKPASS_REQUIRE"));
}

#[test]
fn nothing_is_written_anywhere() {
    // The rule this module is under, asserted where someone adding a
    // "remember me" would have to delete it: no path, file or directory
    // name appears in what we hand ssh, and the only value that is not a
    // constant is our own executable.
    let env = ssh_env_from(Some("/opt/lynxrdp/bin/lynxrdp"), None, None);
    assert!(env.len() <= 3);
    for (key, _) in &env {
        assert!(
            matches!(key.as_str(), "SSH_ASKPASS" | "SSH_ASKPASS_REQUIRE") || key == HELPER_MARKER,
            "unexpected variable {key}"
        );
    }
}

#[test]
fn only_a_managed_session_is_asked_for() {
    let here = Program::At("/bin/lynxrdp".to_string());
    assert!(ssh_env(false, &here, None, None).is_empty());
    assert_eq!(ssh_env(true, &here, None, None).len(), 3);
    assert_eq!(ssh_env(true, &here, Some("/usr/bin/ssh-askpass"), None).len(), 1);
    // A program whose path is no text cannot be handed on.
    assert!(ssh_env_from(None, None, None).is_empty());
    assert!(ssh_env(true, &Program::Unnamed, None, None).is_empty());
    assert_eq!(
        ssh_env(true, &Program::Unnamed, Some("/usr/bin/ssh-askpass"), None),
        vec![("SSH_ASKPASS_REQUIRE".to_string(), "force".to_string())]
    );
}

#[test]
fn a_program_that_cannot_be_found_adds_nothing() {
    for askpass in [None, Some(""), Some("/usr/bin/ssh-askpass")] {
        assert!(ssh_env(true, &Program::Missing, askpass, None).is_empty());
    }
}

#[test]
fn no_answer_is_a_failure() {
    assert_eq!(exit_code(true), 0);
    assert_eq!(exit_code(false), 1);
}

#[test]
fn answers_are_what_was_chosen() {
    let mut ask = Ask::new("Password: ".to_string());
    ask.secret = "hunter2".to_string();
    ask.decide(Choice::Submit);
    assert_eq!(ask.answer, Some(Some("hunter2".to_string())));
    let mut ask = Ask::new(HOST_KEY.to_string());
    ask.decide(Choice::Yes);
    assert_eq!(ask.answer, Some(Some("yes".to_string())));
    let mut ask = Ask::new(HOST_KEY.to_string());
    ask.decide(Choice::No);
    assert_eq!(ask.answer, Some(Some("no".to_string())));
    let mut ask = Ask::new(HOST_KEY.to_string());
    ask.decide(Choice::Cancel);
    assert_eq!(ask.answer, Some(None));
}

#[test]
fn helper_prompts_and_cancellation_use_the_owning_ui() {
    let mut broker = Broker::new();
    for answer in [Some("test answer".to_string()), None] {
        assert!(broker.request(7, "Password: ".to_string(), 0));
        assert_eq!(broker.poll(0), (true, None));
        assert_eq!(broker.current.as_ref().unwrap().ask.prompt, "Password: ");
        let reply = match &answer {
            Some(a) => {
                assert_eq!(broker.finish(), None);
                let ask = &mut broker.current.as_mut().unwrap().ask;
                ask.secret = a.clone();
                ask.decide(Choice::Submit);
                broker.finish()
            }
            None => broker.cancel(),
        };
        assert_eq!(reply, Some(Reply { helper: 7, answer }));
        assert!(broker.current.is_none());
    }
}

#[test]
fn questions_wait_their_turn_and_run_out() {
    let mut broker = Broker::new();
    for n in 0..MAX_WAITING as u64 {
        assert!(broker.request(n, format!("question {n}"), 10));
    }
    assert!(!broker.request(99, "one too many".to_string(), 10));
    assert_eq!(broker.poll(11), (true, None));
    assert_eq!(broker.current.as_ref().unwrap().helper, 0);
    // Nobody answered in time: the helper gets none, and the next is up.
    assert_eq!(
        broker.poll(10 + PATIENCE),
        (
            true,
            Some(Reply {
                helper: 0,
                answer: None
            })
        )
    );
    assert_eq!(broker.current.as_ref().unwrap().helper, 1);
}

#[test]
fn lines_carry_what_was_sent() {
    for sent in [
        None,
        Some(String::new()),
        Some("two\nlines, a \"quote\" and \u{1f511}".to_string()),
    ] {
        let line = encode_answer(&sent);
        assert_eq!(line.matches('\n').count(), 1);
        assert!(line.ends_with('\n'));
        assert_eq!(decode_answer(&line), sent);
    }
    assert_eq!(encode_answer(&None), "null\n");
    assert_eq!(encode_answer(&Some("a\"b".to_string())), "\"a\\\"b\"\n");
    assert_eq!(decode_answer("not a line"), None);
    let line = encode_prompt(HOST_KEY);
    assert_eq!(line.matches('\n').count(), 1);
    assert_eq!(decode_prompt(&line), Some(HOST_KEY.to_string()));
    assert_eq!(decode_prompt("null\n"), None);
}
