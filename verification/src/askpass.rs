//! Answering ssh's prompts in a window.
//!
//! A session started from the connection manager has nowhere to be asked
//! anything, so this same binary is named to `ssh` as the program that asks.
//! It stores nothing: a passphrase lives as long as the window is open and
//! goes to `ssh` down a pipe. And it is wired up only for sessions the
//! connection manager started; one typed at a terminal keeps prompting there.

pub mod broker;

use vstd::prelude::*;

use crate::text;

verus! {

/// Set on the connection manager's own process, and inherited by the sessions
/// it starts. Its presence is the whole of "this session came from the GUI".
pub const GUI_MARKER: &'static str = "LYNXRDP_GUI_ASKPASS";

/// Set on the `ssh` process, and so present in the environment ssh hands the
/// askpass program. Its presence is the whole of "this invocation is the
/// helper".
pub const HELPER_MARKER: &'static str = "LYNXRDP_ASKPASS";

/// What `ssh` wants back for a [`Kind::Confirm`]. It matches on the word, not
/// on a leading letter.
pub const YES: &'static str = "yes";

pub const NO: &'static str = "no";

/// What the prompt is asking for, which decides what the window shows.
#[derive(Clone, Copy, Debug, PartialEq, Eq, Structural)]
pub enum Kind {
    /// A passphrase, a password, a token code: something to type, unechoed.
    Secret,
    /// A yes-or-no question, which is very nearly always the host key one.
    Confirm,
}

/// Whether a prompt wants one of two words.
pub open spec fn wants_word(prompt: Seq<char>) -> bool {
    let lower = text::lower(prompt);
    text::contains(lower, "yes/no"@) || text::contains(lower, "'yes'"@) || text::contains(
        lower,
        "\"yes\""@,
    )
}

/// Which kind of question a prompt is.
pub open spec fn kind_of(prompt: Seq<char>) -> Kind {
    if wants_word(prompt) {
        Kind::Confirm
    } else {
        Kind::Secret
    }
}

fn lowered(s: &str) -> (r: String)
    ensures
        r@ == text::lower(s@),
{
    let v = text::chars_of(s);
    let mut out: Vec<char> = Vec::new();
    let mut i: usize = 0;
    while i < v.len()
        invariant
            i <= v.len(),
            v@ == s@,
            out@ == text::lower(s@).take(i as int),
        decreases v.len() - i,
    {
        out.push(text::to_ascii_lower(v[i]));
        i = i + 1;
        assert(out@ =~= text::lower(s@).take(i as int));
    }
    assert(out@ =~= text::lower(s@));
    text::string_of(&out)
}

/// Which kind of question `prompt` is.
///
/// Text is all there is to go on, and getting it wrong is worse than having no
/// askpass at all: a masked field for a question whose only valid answers are
/// "yes" and "no".
pub fn classify(prompt: &str) -> (k: Kind)
    ensures
        k == kind_of(prompt@),
{
    let lower = lowered(prompt);
    if text::has(lower.as_str(), "yes/no") || text::has(lower.as_str(), "'yes'") || text::has(
        lower.as_str(),
        "\"yes\"",
    ) {
        return Kind::Confirm;
    }
    Kind::Secret
}

/// Whether an argument is a prompt that `ssh` could have passed.
pub open spec fn looks_like_prompt(s: Seq<char>) -> bool {
    !(s.len() > 0 && s[0] == '-') && !text::blank(s)
}

/// The prompt this invocation was asked to put to the user, if any. Arguments
/// that are no text are given as none.
pub open spec fn prompt_among(marked: bool, args: Seq<Option<String>>) -> Option<Seq<char>> {
    if marked && args.len() == 2 {
        match args[1] {
            Some(p) => if looks_like_prompt(p@) {
                Some(p@)
            } else {
                None
            },
            None => None,
        }
    } else {
        None
    }
}

/// The prompt this invocation was asked to put to the user, if any.
///
/// The rule is deliberately narrow: the marker, exactly one argument, and that
/// argument not looking like an option or blank. The shape check is what
/// catches the marker leaking into a shell: the client with no arguments, with
/// options, or with a subcommand still opens.
pub fn helper_prompt(marked: bool, args: &Vec<Option<String>>) -> (r: Option<String>)
    ensures
        match r {
            Some(p) => prompt_among(marked, args@) == Some(p@),
            None => prompt_among(marked, args@) is None,
        },
{
    if !marked || args.len() != 2 {
        return None;
    }
    match &args[1] {
        Some(p) => {
            let v = text::chars_of(p.as_str());
            if v.len() > 0 && v[0] == '-' {
                return None;
            }
            let t = text::trimmed_chars(&v);
            proof {
                text::lemma_trim_blank(p@);
            }
            if t.len() == 0 {
                return None;
            }
            Some(text::copy(p.as_str()))
        },
        None => None,
    }
}

/// The exit status of the helper: a non-zero one is how an askpass says "no
/// answer", and `ssh` then fails the authentication rather than waiting.
pub fn exit_code(answered: bool) -> (code: i32)
    ensures
        code == if answered {
            0i32
        } else {
            1i32
        },
{
    if answered {
        0
    } else {
        1
    }
}

/// A variable that is not set, or set to nothing.
pub open spec fn is_unset(v: Option<Seq<char>>) -> bool {
    v is None || v->0.len() == 0
}

/// The environment that makes `ssh` ask this program. One the user has already
/// chosen outranks ours, and a path that is no text cannot be passed on.
pub open spec fn env_from(
    exe: Option<Seq<char>>,
    askpass: Option<Seq<char>>,
    require: Option<Seq<char>>,
) -> Seq<(Seq<char>, Seq<char>)> {
    if is_unset(askpass) && exe is None {
        Seq::empty()
    } else {
        (if is_unset(askpass) {
            seq![("SSH_ASKPASS"@, exe->0), (HELPER_MARKER@, "1"@)]
        } else {
            Seq::empty()
        }) + (if is_unset(require) {
            seq![("SSH_ASKPASS_REQUIRE"@, "force"@)]
        } else {
            Seq::empty()
        })
    }
}

/// The view of an optional text.
pub open spec fn str_of(s: Option<&str>) -> Option<Seq<char>> {
    match s {
        Some(t) => Some(t@),
        None => None,
    }
}

/// The views of an environment.
pub open spec fn pairs(env: Seq<(String, String)>) -> Seq<(Seq<char>, Seq<char>)> {
    env.map_values(|e: (String, String)| (e.0@, e.1@))
}

fn push_pair(env: &mut Vec<(String, String)>, key: &str, value: &str)
    ensures
        pairs(final(env)@) == pairs(old(env)@).push((key@, value@)),
{
    env.push((text::copy(key), text::copy(value)));
    assert(pairs(env@) =~= pairs(old(env)@).push((key@, value@)));
}

fn not_set(v: Option<&str>) -> (r: bool)
    ensures
        r == is_unset(str_of(v)),
{
    match v {
        Some(t) => t.is_empty(),
        None => true,
    }
}

/// The environment to add to `ssh` so it asks us.
///
/// "force" is what makes this work where there is no display for the
/// traditional askpass to key off, and where the session inherits a terminal
/// it has no window for. The marker travels with the program so that the
/// helper knows what it is.
pub fn ssh_env_from(exe: Option<&str>, askpass: Option<&str>, require: Option<&str>) -> (env: Vec<
    (String, String),
>)
    ensures
        pairs(env@) == env_from(str_of(exe), str_of(askpass), str_of(require)),
{
    let mut env: Vec<(String, String)> = Vec::new();
    if not_set(askpass) {
        match exe {
            Some(path) => {
                push_pair(&mut env, "SSH_ASKPASS", path);
                push_pair(&mut env, HELPER_MARKER, "1");
            },
            None => {
                assert(pairs(env@) =~= Seq::<(Seq<char>, Seq<char>)>::empty());
                return env;
            },
        }
    }
    if not_set(require) {
        push_pair(&mut env, "SSH_ASKPASS_REQUIRE", "force");
    }
    assert(pairs(env@) =~= env_from(str_of(exe), str_of(askpass), str_of(require)));
    env
}

/// Where this program is.
#[derive(Debug, PartialEq, Eq)]
pub enum Program {
    /// It cannot be found.
    Missing,
    /// It was found, but its path is no text.
    Unnamed,
    /// It was found at a path.
    At(String),
}

impl Program {
    /// The path that can be handed on, if there is one.
    pub open spec fn path(self) -> Option<Seq<char>> {
        match self {
            Program::At(path) => Some(path@),
            _ => None,
        }
    }
}

/// The environment to add to `ssh`: nothing for a session the connection
/// manager did not start, and nothing where this program cannot be found, since
/// the prompts would have nowhere to go.
pub fn ssh_env(
    wanted: bool,
    program: &Program,
    askpass: Option<&str>,
    require: Option<&str>,
) -> (env: Vec<(String, String)>)
    ensures
        pairs(env@) == if wanted && !(program is Missing) {
            env_from(program.path(), str_of(askpass), str_of(require))
        } else {
            Seq::empty()
        },
{
    if wanted {
        match program {
            Program::At(path) => {
                return ssh_env_from(Some(path.as_str()), askpass, require);
            },
            Program::Unnamed => {
                return ssh_env_from(None, askpass, require);
            },
            Program::Missing => {},
        }
    }
    let env: Vec<(String, String)> = Vec::new();
    assert(pairs(env@) =~= Seq::<(Seq<char>, Seq<char>)>::empty());
    env
}

/// An askpass the user already chose is left alone, and the marker does not
/// travel without the program that reads it.
pub proof fn law_chosen_askpass_is_left_alone(
    exe: Option<Seq<char>>,
    askpass: Option<Seq<char>>,
    require: Option<Seq<char>>,
    i: int,
)
    requires
        !is_unset(askpass),
        0 <= i < env_from(exe, askpass, require).len(),
    ensures
        env_from(exe, askpass, require)[i] == ("SSH_ASKPASS_REQUIRE"@, "force"@),
{
}

/// Nothing but the program and two constants is handed to `ssh`.
pub proof fn law_only_the_program_is_told(
    exe: Option<Seq<char>>,
    askpass: Option<Seq<char>>,
    require: Option<Seq<char>>,
    i: int,
)
    requires
        0 <= i < env_from(exe, askpass, require).len(),
    ensures
        env_from(exe, askpass, require).len() <= 3,
        ({
            let (key, value) = env_from(exe, askpass, require)[i];
            ||| key == "SSH_ASKPASS"@ && exe == Some(value)
            ||| key == HELPER_MARKER@ && value == "1"@
            ||| key == "SSH_ASKPASS_REQUIRE"@ && value == "force"@
        }),
{
}

// ---------------------------------------------------------------------------
// The window
// ---------------------------------------------------------------------------

/// Width of the dialog in points. Wide enough for a fingerprint in the
/// monospace face without wrapping.
pub const WIDTH: u32 = 560;

/// How tall to open the window, in points, from how much prompt there is to
/// show.
pub open spec fn height(lines: nat, kind: Kind) -> int {
    let shown = if lines < 1 {
        1
    } else if lines > 8 {
        8
    } else {
        lines as int
    };
    (if kind == Kind::Confirm {
        96int
    } else {
        128
    }) + shown * 20
}

/// How tall to open the window, in points.
pub fn height_for(prompt: &str, kind: Kind) -> (h: u32)
    ensures
        h == height(text::lines(prompt@).len(), kind),
{
    let v = text::chars_of(prompt);
    let rows = text::lines_of(&v);
    assert(text::rows(rows@).len() == rows@.len());
    let count: usize = rows.len();
    let shown: u32 = if count < 1 {
        1
    } else if count > 8 {
        8
    } else {
        count as u32
    };
    let chrome: u32 = match kind {
        Kind::Confirm => 96,
        Kind::Secret => 128,
    };
    chrome + shown * 20
}

/// A control of the window.
#[derive(Clone, Copy, Debug, PartialEq, Eq, Structural)]
pub enum Choice {
    Yes,
    No,
    /// The button, or the enter key in the field.
    Submit,
    /// The button, or the escape key.
    Cancel,
}

/// A question being asked.
#[derive(Debug, PartialEq, Eq)]
pub struct Ask {
    pub prompt: String,
    pub kind: Kind,
    pub secret: String,
    /// Whether the text field has been given the focus yet.
    pub focused: bool,
    /// The answer, once the user gave one or declined to.
    pub answer: Option<Option<String>>,
}

impl Ask {
    /// Ask a question.
    pub fn new(prompt: String) -> (a: Ask)
        ensures
            a.prompt == prompt,
            a.kind == kind_of(prompt@),
            a.secret@.len() == 0,
            !a.focused,
            a.answer is None,
    {
        let kind = classify(prompt.as_str());
        Ask { prompt, kind, secret: String::new(), focused: false, answer: None }
    }

    /// Whether a control is there for that kind of question. Nothing is a
    /// default action: a host key is accepted by choosing to accept it.
    pub open spec fn offers(self, choice: Choice) -> bool {
        match choice {
            Choice::Yes => self.kind == Kind::Confirm,
            Choice::No => self.kind == Kind::Confirm,
            Choice::Submit => self.kind == Kind::Secret,
            Choice::Cancel => true,
        }
    }

    /// What a choice does to the question.
    pub open spec fn decided(self, after: Ask, choice: Choice) -> bool {
        &&& if !self.offers(choice) {
                after == self
            } else {
                match choice {
                    Choice::Yes => {
                        &&& after.answer matches Some(Some(a)) && a@ == YES@
                        &&& after == (Ask { answer: after.answer, ..self })
                    },
                    Choice::No => {
                        &&& after.answer matches Some(Some(a)) && a@ == NO@
                        &&& after == (Ask { answer: after.answer, ..self })
                    },
                    Choice::Submit => {
                        &&& after.answer == Some(Some(self.secret))
                        &&& after.secret@.len() == 0
                        &&& after == (Ask {
                            answer: after.answer,
                            secret: after.secret,
                            ..self
                        })
                    },
                    Choice::Cancel => after == (Ask { answer: Some(None), ..self }),
                }
            }
    }

    /// The user chose. The typed secret moves to the answer and stays nowhere
    /// else.
    pub fn decide(&mut self, choice: Choice)
        ensures
            if !old(self).offers(choice) {
                *final(self) == *old(self)
            } else {
                match choice {
                    Choice::Yes => {
                        &&& final(self).answer matches Some(Some(a)) && a@ == YES@
                        &&& *final(self) == (Ask { answer: final(self).answer, ..*old(self) })
                    },
                    Choice::No => {
                        &&& final(self).answer matches Some(Some(a)) && a@ == NO@
                        &&& *final(self) == (Ask { answer: final(self).answer, ..*old(self) })
                    },
                    Choice::Submit => {
                        &&& final(self).answer == Some(Some(old(self).secret))
                        &&& final(self).secret@.len() == 0
                        &&& *final(self) == (Ask {
                            answer: final(self).answer,
                            secret: final(self).secret,
                            ..*old(self)
                        })
                    },
                    Choice::Cancel => *final(self) == (Ask { answer: Some(None), ..*old(self) }),
                }
            },
            old(self).decided(*final(self), choice),
    {
        match choice {
            Choice::Yes => {
                if self.kind == Kind::Confirm {
                    self.answer = Some(Some(text::copy(YES)));
                }
            },
            Choice::No => {
                if self.kind == Kind::Confirm {
                    self.answer = Some(Some(text::copy(NO)));
                }
            },
            Choice::Submit => {
                if self.kind == Kind::Secret {
                    let mut secret = String::new();
                    std::mem::swap(&mut secret, &mut self.secret);
                    self.answer = Some(Some(secret));
                }
            },
            Choice::Cancel => {
                self.answer = Some(None);
            },
        }
    }
}

/// A question that asks for a word, "yes/no" or "yes" between quotation marks in
/// any case, is answered with a word; every other is answered with a secret.
pub proof fn law_questions_are_told_apart(prompt: Seq<char>)
    ensures
        kind_of(prompt) is Confirm <==> {
            let said = text::lower(prompt);
            ||| exists|i: int| #[trigger] text::occurs_at(said, "yes/no"@, i)
            ||| exists|i: int| #[trigger] text::occurs_at(said, "'yes'"@, i)
            ||| exists|i: int| #[trigger] text::occurs_at(said, "\"yes\""@, i)
        },
        kind_of(prompt) is Secret <==> !(kind_of(prompt) is Confirm),
{
}

/// The program is a helper where it was marked as one and given one argument
/// that is not blank and no flag: that argument is the prompt.
pub proof fn law_helper_is_given_a_prompt(marked: bool, args: Seq<Option<String>>, p: Seq<char>)
    ensures
        prompt_among(marked, args) == Some(p) ==> marked && args.len() == 2 && (args[1] matches Some(
            a,
        ) && a@ == p) && p.len() > 0 && p[0] != '-' && !text::blank(p),
        prompt_among(marked, args) is None && marked && args.len() == 2 ==> (args[1] matches Some(a)
            ==> text::blank(a@) || a@[0] == '-'),
        prompt_among(marked, args) is Some ==> (args[1] matches Some(a) && prompt_among(marked, args)
            == Some(a@)),
{
}

/// What the ssh program is told: to ask this program, unless the user chose
/// another, and to ask at all, unless the user chose that too.
pub proof fn law_ssh_is_told_whom_to_ask(
    exe: Option<Seq<char>>,
    askpass: Option<Seq<char>>,
    require: Option<Seq<char>>,
)
    ensures
        ({
            let env = env_from(exe, askpass, require);
            let chosen = askpass matches Some(a) && a.len() > 0;
            let forced = require matches Some(a) && a.len() > 0;
            &&& !chosen && !forced ==> (exe matches Some(p) ==> env == seq![
                ("SSH_ASKPASS"@, p),
                ("LYNXRDP_ASKPASS"@, "1"@),
                ("SSH_ASKPASS_REQUIRE"@, "force"@),
            ])
            &&& !chosen && forced ==> (exe matches Some(p) ==> env == seq![
                ("SSH_ASKPASS"@, p),
                ("LYNXRDP_ASKPASS"@, "1"@),
            ])
            &&& !chosen && exe is None ==> env.len() == 0
            &&& chosen && !forced ==> env == seq![("SSH_ASKPASS_REQUIRE"@, "force"@)]
            &&& chosen && forced ==> env.len() == 0
        }),
{
}

/// The window is twenty points higher for each line of the question, of which
/// one to eight are shown, and lower where there is nothing to type.
pub proof fn law_window_fits_the_question(lines: nat)
    ensures
        1 <= lines <= 8 ==> height(lines, Kind::Confirm) == 96 + 20 * lines && height(
            lines,
            Kind::Secret,
        ) == 128 + 20 * lines,
        height(0, Kind::Confirm) == 116 && height(0, Kind::Secret) == 148,
        lines > 8 ==> height(lines, Kind::Confirm) == 256 && height(lines, Kind::Secret) == 288,
        WIDTH == 560,
{
}

/// The answer is the choice that was made: a word to a question for a word, what
/// was typed to a question for a secret, and none where it was waved away. What
/// was typed is not kept.
pub proof fn law_choice_is_the_answer(q: Ask, after: Ask, choice: Choice)
    requires
        q.decided(after, choice),
    ensures
        q.kind is Confirm && choice is Yes ==> (after.answer matches Some(Some(a)) && a@ == "yes"@),
        q.kind is Confirm && choice is No ==> (after.answer matches Some(Some(a)) && a@ == "no"@),
        q.kind is Secret && choice is Submit ==> after.answer == Some(Some(q.secret))
            && after.secret@.len() == 0,
        choice is Cancel ==> after.answer == Some(None::<String>),
        q.kind is Secret && (choice is Yes || choice is No) ==> after == q,
        q.kind is Confirm && choice is Submit ==> after == q,
        after.prompt == q.prompt && after.kind == q.kind,
{
}

/// Each variable has its own name and value.
pub proof fn law_variables_are_pairs(env: Seq<(String, String)>, i: int, s: &str)
    ensures
        pairs(env).len() == env.len(),
        0 <= i < env.len() ==> pairs(env)[i] == (env[i].0@, env[i].1@),
        str_of(Some(s)) == Some(s@),
        str_of(None) is None,
{
}

} // verus!
