use vstd::prelude::*;

use crate::text::{
    contains_seq, contains_text, lemma_trimmed_of_trimmed_form, occurs_at, text_result,
    trim_whitespace, trimmed,
};

verus! {

/// Whether Colorify starts with Windows, and whether it then starts minimized.
#[derive(Clone, Copy, Debug, PartialEq, Eq)]
pub struct StartupSettings {
    pub enabled: bool,
    pub start_minimized: bool,
}

/// The command-line flag that makes Colorify start hidden in the tray.
pub open spec fn start_minimized_flag() -> Seq<char> {
    "--start-minimized"@
}

/// The settings read from the startup shortcut: `None` when there is no
/// shortcut, otherwise the arguments stored in it.
pub open spec fn spec_startup_settings(shortcut_arguments: Option<Seq<char>>) -> StartupSettings {
    match shortcut_arguments {
        None => StartupSettings { enabled: false, start_minimized: false },
        Some(arguments) => StartupSettings {
            enabled: true,
            start_minimized: contains_seq(arguments, start_minimized_flag()),
        },
    }
}

/// The arguments written into the startup shortcut.
pub open spec fn spec_shortcut_arguments_for(start_minimized: bool) -> Seq<char> {
    if start_minimized {
        start_minimized_flag()
    } else {
        ""@
    }
}

/// The outcome of a PowerShell run: its trimmed output when it succeeded,
/// its trimmed error output when it failed.
pub open spec fn spec_command_text_result(
    success: bool,
    stdout: Seq<char>,
    stderr: Seq<char>,
) -> Result<Seq<char>, Seq<char>> {
    if success {
        Ok(trimmed(stdout))
    } else {
        Err(trimmed(stderr))
    }
}

/// The message shown once starting with Windows has been switched on.
pub open spec fn spec_startup_enabled_message(start_minimized: bool) -> Seq<char> {
    if start_minimized {
        "Start with Windows enabled. Colorify will start minimized."@
    } else {
        "Start with Windows enabled."@
    }
}

/// The settings read from the startup shortcut.
pub fn startup_settings(shortcut_arguments: Option<&str>) -> (r: StartupSettings)
    ensures
        r == spec_startup_settings(
            match shortcut_arguments {
                None => None,
                Some(a) => Some(a@),
            },
        ),
{
    match shortcut_arguments {
        None => StartupSettings { enabled: false, start_minimized: false },
        Some(arguments) => StartupSettings {
            enabled: true,
            start_minimized: contains_text(arguments, "--start-minimized"),
        },
    }
}

/// The arguments written into the startup shortcut.
pub fn shortcut_arguments_for(start_minimized: bool) -> (r: &'static str)
    ensures
        r@ == spec_shortcut_arguments_for(start_minimized),
{
    if start_minimized {
        "--start-minimized"
    } else {
        ""
    }
}

/// The outcome of a PowerShell run, from its exit status and its output.
pub fn command_text_result(success: bool, stdout: &str, stderr: &str) -> (r: Result<
    String,
    String,
>)
    ensures
        text_result(r) == spec_command_text_result(success, stdout@, stderr@),
{
    if success {
        Ok(trim_whitespace(stdout))
    } else {
        Err(trim_whitespace(stderr))
    }
}

/// The message shown once starting with Windows has been switched on.
pub fn startup_enabled_message(start_minimized: bool) -> (r: String)
    ensures
        r@ == spec_startup_enabled_message(start_minimized),
{
    if start_minimized {
        "Start with Windows enabled. Colorify will start minimized.".to_owned()
    } else {
        "Start with Windows enabled.".to_owned()
    }
}

/// The message shown once starting with Windows has been switched off.
pub fn startup_disabled_message() -> (r: String)
    ensures
        r@ == "Start with Windows disabled."@,
{
    "Start with Windows disabled.".to_owned()
}

/// What is written into the shortcut is read back: the arguments stored for
/// `start_minimized`, as the shortcut reports them (trimmed), give back the
/// same `start_minimized`, and a shortcut that exists means starting with
/// Windows is on.
pub proof fn lemma_startup_round_trip(start_minimized: bool)
    ensures
        spec_startup_settings(Some(trimmed(spec_shortcut_arguments_for(start_minimized))))
            == (StartupSettings { enabled: true, start_minimized }),
{
    reveal_strlit("--start-minimized");
    reveal_strlit("");
    let flag = start_minimized_flag();
    let written = spec_shortcut_arguments_for(start_minimized);
    if start_minimized {
        lemma_trimmed_of_trimmed_form(flag);
        assert(flag.subrange(0, flag.len() as int) =~= flag);
        assert(occurs_at(flag, flag, 0));
    } else {
        assert(trimmed(written) =~= Seq::<char>::empty());
        assert forall|i: int| !#[trigger] occurs_at(trimmed(written), flag, i) by {}
    }
}

/// A successful run is never an error: its outcome is `Ok` of its trimmed
/// output whatever that output is, empty included; `Err`, holding the
/// trimmed error output, comes only from a failed run.
pub proof fn lemma_command_outcome_follows_success(success: bool, stdout: Seq<char>, stderr: Seq<char>)
    ensures
        spec_command_text_result(success, stdout, stderr) is Ok <==> success,
        success ==> spec_command_text_result(success, stdout, stderr) == Ok::<
            Seq<char>,
            Seq<char>,
        >(trimmed(stdout)),
        !success ==> spec_command_text_result(success, stdout, stderr) == Err::<
            Seq<char>,
            Seq<char>,
        >(trimmed(stderr)),
        spec_command_text_result(true, stdout, stderr) == spec_command_text_result(
            true,
            stdout,
            Seq::empty(),
        ),
{
}

} // verus!
