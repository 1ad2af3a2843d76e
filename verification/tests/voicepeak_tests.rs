use voicepeak_batch::voicepeak::{Args, Platform, VoicePeak};

fn bare_args() -> Args {
    Args {
        say: None,
        text: None,
        out: None,
        narrator: None,
        emotion: None,
        list_narrator: false,
        list_emotion: None,
        speed: None,
        pitch: None,
        exec_path: None,
    }
}

#[test]
fn each_platform_has_its_shell() {
    let args = bare_args();
    let vp = VoicePeak::new(&args, Platform::Windows);
    assert_eq!(vp.shell, "powershell");
    assert_eq!(vp.subshell_option_str, "-c");
    let vp = VoicePeak::new(&args, Platform::MacOs);
    assert_eq!(vp.shell, "zsh");
    assert_eq!(vp.subshell_option_str, "-c");
    let vp = VoicePeak::new(&args, Platform::Linux);
    assert_eq!(vp.shell, "sh");
    assert_eq!(vp.subshell_option_str, "-c");
}

#[test]
fn default_engine_path_depends_on_the_platform() {
    let args = bare_args();
    let vp = VoicePeak::new(&args, Platform::Windows);
    assert_eq!(vp.exec_path, "C:/'Program Files'/VOICEPEAK/voicepeak.exe");
    let vp = VoicePeak::new(&args, Platform::MacOs);
    assert_eq!(
        vp.exec_path,
        "/Applications/voicepeak.app/Contents/MacOS/voicepeak"
    );
    let vp = VoicePeak::new(&args, Platform::Linux);
    assert_eq!(vp.exec_path, "");
}

#[test]
fn configured_engine_path_wins() {
    let mut args = bare_args();
    args.exec_path = Some(String::from("/opt/engine/voicepeak"));
    let vp = VoicePeak::new(&args, Platform::Linux);
    assert_eq!(vp.exec_path, "/opt/engine/voicepeak");
}

#[test]
fn exec_builds_the_minimal_command() {
    let mut args = bare_args();
    args.exec_path = Some(String::from("/opt/engine/voicepeak"));
    let vp = VoicePeak::new(&args, Platform::Linux);
    let cmd = vp.exec("hello world", "/tmp/out/0.wav");
    assert_eq!(cmd.program, "sh");
    assert_eq!(
        cmd.args,
        vec![
            "-c",
            "/opt/engine/voicepeak",
            "--out",
            "/tmp/out/0.wav",
            "--say",
            "'hello world'",
        ]
    );
}

#[test]
fn exec_forwards_every_configured_option_in_order() {
    let mut args = bare_args();
    args.narrator = Some(String::from("Some Narrator"));
    args.emotion = Some(String::from("happy=50,sad=50"));
    args.speed = Some(String::from("120"));
    args.pitch = Some(String::from("-30"));
    args.exec_path = Some(String::from("/opt/engine/voicepeak"));
    let vp = VoicePeak::new(&args, Platform::MacOs);
    let cmd = vp.exec("text", "out.wav");
    assert_eq!(cmd.program, "zsh");
    assert_eq!(
        cmd.args,
        vec![
            "-c",
            "/opt/engine/voicepeak",
            "--out",
            "out.wav",
            "--say",
            "'text'",
            "--narrator",
            "'Some Narrator'",
            "--emotion",
            "happy=50,sad=50",
            "--speed",
            "120",
            "--pitch",
            "-30",
        ]
    );
}

#[test]
fn list_narrator_command() {
    let mut args = bare_args();
    args.exec_path = Some(String::from("/opt/engine/voicepeak"));
    let vp = VoicePeak::new(&args, Platform::Linux);
    let cmd = vp.run_list_narrator();
    assert_eq!(cmd.program, "sh");
    assert_eq!(
        cmd.args,
        vec!["-c", "/opt/engine/voicepeak", "--list-narrator"]
    );
}

#[test]
fn list_emotion_command_quotes_the_narrator() {
    let mut args = bare_args();
    args.list_emotion = Some(String::from("Some Narrator"));
    args.exec_path = Some(String::from("/opt/engine/voicepeak"));
    let vp = VoicePeak::new(&args, Platform::Linux);
    let cmd = vp.run_list_emotion();
    assert_eq!(
        cmd.args,
        vec![
            "-c",
            "/opt/engine/voicepeak",
            "--list-emotion",
            "'Some Narrator'",
        ]
    );
}

#[test]
fn list_emotion_command_without_a_narrator_sends_no_name() {
    let mut args = bare_args();
    args.exec_path = Some(String::from("/opt/engine/voicepeak"));
    let vp = VoicePeak::new(&args, Platform::Linux);
    let cmd = vp.run_list_emotion();
    assert_eq!(cmd.args, vec!["-c", "/opt/engine/voicepeak", "--list-emotion"]);
}
