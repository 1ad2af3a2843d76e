//! Building the command lines that drive the external synthesis engine:
//! one invocation per chunk, plus the two read-only listing invocations.
//! The engine is reached through a shell, so a command is the shell
//! program together with its full argument list; running the command and
//! relaying its output is the caller's business.

use vstd::prelude::*;
use vstd::string::StringExecFns;

verus! {

/// The run's configuration: which text to speak, where to write, how the
/// voice is tuned, and where the engine executable lives.
#[derive(Debug, Clone)]
pub struct Args {
    pub say: Option<String>,
    pub text: Option<String>,
    pub out: Option<String>,
    pub narrator: Option<String>,
    pub emotion: Option<String>,
    pub list_narrator: bool,
    pub list_emotion: Option<String>,
    pub speed: Option<String>,
    pub pitch: Option<String>,
    pub exec_path: Option<String>,
}

/// The host platform, resolved once at startup by the caller; it selects
/// the shell and the default engine location.
#[derive(Debug, Clone, Copy, PartialEq, Eq, Structural)]
pub enum Platform {
    Windows,
    MacOs,
    Linux,
}

/// The shell that runs the engine on each platform.
pub open spec fn platform_shell(p: Platform) -> Seq<char> {
    match p {
        Platform::Windows => "powershell"@,
        Platform::MacOs => "zsh"@,
        Platform::Linux => "sh"@,
    }
}

/// The shell's option introducing the command to run.
pub open spec fn platform_shell_option(p: Platform) -> Seq<char> {
    "-c"@
}

/// Where the engine executable lives by default on each platform.
pub open spec fn platform_default_exec_path(p: Platform) -> Seq<char> {
    match p {
        Platform::Windows => "C:/'Program Files'/VOICEPEAK/voicepeak.exe"@,
        Platform::MacOs => "/Applications/voicepeak.app/Contents/MacOS/voicepeak"@,
        Platform::Linux => ""@,
    }
}

/// One invocation of the engine: the shell program and its full argument
/// list, in order.
pub struct EngineCommand {
    pub program: String,
    pub args: Vec<String>,
}

/// The views of an argument list.
pub open spec fn arg_views(args: Seq<String>) -> Seq<Seq<char>> {
    args.map_values(|s: String| s@)
}

/// `s` wrapped in single quotes, as the engine's "say" and narrator
/// arguments are passed.
pub open spec fn quoted(s: Seq<char>) -> Seq<char> {
    "'"@ + s + "'"@
}

/// A flag and its value, present only when the value is configured;
/// `quote` says whether the value is passed wrapped in single quotes.
pub open spec fn opt_arg(flag: Seq<char>, v: Option<String>, quote: bool) -> Seq<Seq<char>> {
    match v {
        Some(s) => seq![
            flag,
            if quote {
                quoted(s@)
            } else {
                s@
            },
        ],
        None => Seq::empty(),
    }
}

/// The engine front end.
pub struct VoicePeak<'a> {
    pub shell: &'a str,
    pub subshell_option_str: &'a str,
    pub exec_path: String,
    pub args: &'a Args,
}

/// The arguments every invocation starts with: the shell's command option
/// and the engine executable's path.
pub open spec fn base_args(vp: VoicePeak) -> Seq<Seq<char>> {
    seq![vp.subshell_option_str@, vp.exec_path@]
}

/// The full argument list of one synthesis invocation: destination first,
/// then the quoted text, then whichever voice options are configured.
pub open spec fn say_args(vp: VoicePeak, text: Seq<char>, out: Seq<char>) -> Seq<Seq<char>> {
    base_args(vp) + seq!["--out"@, out, "--say"@, quoted(text)] + opt_arg(
        "--narrator"@,
        vp.args.narrator,
        true,
    ) + opt_arg("--emotion"@, vp.args.emotion, false) + opt_arg("--speed"@, vp.args.speed, false)
        + opt_arg("--pitch"@, vp.args.pitch, false)
}

/// The argument list asking the engine for its narrator list.
pub open spec fn list_narrator_args(vp: VoicePeak) -> Seq<Seq<char>> {
    base_args(vp) + seq!["--list-narrator"@]
}

/// The argument list asking the engine for a narrator's emotion list.
pub open spec fn list_emotion_args(vp: VoicePeak) -> Seq<Seq<char>> {
    base_args(vp) + seq!["--list-emotion"@] + match vp.args.list_emotion {
        Some(n) => seq![quoted(n@)],
        None => Seq::<Seq<char>>::empty(),
    }
}

impl<'a> VoicePeak<'a> {
    /// Picks the shell for the platform and resolves the engine path once:
    /// the configured path when one is given, the platform default
    /// otherwise.
    pub fn new(args: &'a Args, platform: Platform) -> (vp: Self)
        ensures
            vp.shell@ == platform_shell(platform),
            vp.subshell_option_str@ == platform_shell_option(platform),
            vp.args == args,
            vp.exec_path@ == match args.exec_path {
                Some(p) => p@,
                None => platform_default_exec_path(platform),
            },
    {
        let (shell, subshell_option_str): (&str, &str) = match platform {
            Platform::Windows => ("powershell", "-c"),
            Platform::MacOs => ("zsh", "-c"),
            Platform::Linux => ("sh", "-c"),
        };
        let exec_path: String = match &args.exec_path {
            Some(p) => p.clone(),
            None => match platform {
                Platform::Windows => String::from_str("C:/'Program Files'/VOICEPEAK/voicepeak.exe"),
                Platform::MacOs => String::from_str(
                    "/Applications/voicepeak.app/Contents/MacOS/voicepeak",
                ),
                Platform::Linux => String::from_str(""),
            },
        };
        VoicePeak { shell, subshell_option_str, exec_path, args }
    }

    /// The command synthesizing one chunk: speak `text`, write the WAV to
    /// `out`, with the configured voice options in fixed order.
    pub fn exec(&self, text: &str, out: &str) -> (cmd: EngineCommand)
        ensures
            cmd.program@ == self.shell@,
            arg_views(cmd.args@) == say_args(*self, text@, out@),
    {
        let mut args: Vec<String> = Vec::new();
        args.push(String::from_str(self.subshell_option_str));
        args.push(self.exec_path.clone());
        args.push(String::from_str("--out"));
        args.push(String::from_str(out));
        args.push(String::from_str("--say"));
        args.push(String::from_str("'").concat(text).concat("'"));
        if let Some(narrator) = &self.args.narrator {
            args.push(String::from_str("--narrator"));
            args.push(String::from_str("'").concat(narrator.as_str()).concat("'"));
        }
        if let Some(emotion) = &self.args.emotion {
            args.push(String::from_str("--emotion"));
            args.push(emotion.clone());
        }
        if let Some(speed) = &self.args.speed {
            args.push(String::from_str("--speed"));
            args.push(speed.clone());
        }
        if let Some(pitch) = &self.args.pitch {
            args.push(String::from_str("--pitch"));
            args.push(pitch.clone());
        }
        let program = String::from_str(self.shell);
        proof {
            assert(arg_views(args@) =~= say_args(*self, text@, out@));
        }
        EngineCommand { program, args }
    }

    /// The command asking the engine for its narrator list.
    pub fn run_list_narrator(&self) -> (cmd: EngineCommand)
        ensures
            cmd.program@ == self.shell@,
            arg_views(cmd.args@) == list_narrator_args(*self),
    {
        let mut args: Vec<String> = Vec::new();
        args.push(String::from_str(self.subshell_option_str));
        args.push(self.exec_path.clone());
        args.push(String::from_str("--list-narrator"));
        let program = String::from_str(self.shell);
        proof {
            assert(arg_views(args@) =~= list_narrator_args(*self));
        }
        EngineCommand { program, args }
    }

    /// The command asking the engine for the emotion list of the narrator
    /// named by the listing option, when one is named.
    pub fn run_list_emotion(&self) -> (cmd: EngineCommand)
        ensures
            cmd.program@ == self.shell@,
            arg_views(cmd.args@) == list_emotion_args(*self),
    {
        let mut args: Vec<String> = Vec::new();
        args.push(String::from_str(self.subshell_option_str));
        args.push(self.exec_path.clone());
        args.push(String::from_str("--list-emotion"));
        if let Some(narrator_name) = &self.args.list_emotion {
            args.push(String::from_str("'").concat(narrator_name.as_str()).concat("'"));
        }
        let program = String::from_str(self.shell);
        proof {
            assert(arg_views(args@) =~= list_emotion_args(*self));
        }
        EngineCommand { program, args }
    }
}

} // verus!
