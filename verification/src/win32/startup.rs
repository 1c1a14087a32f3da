//! Current-user autostart via `HKCU\Software\Microsoft\Windows\CurrentVersion\Run`:
//! the command line written there, the value's byte format, and the
//! relaunch arguments that keep startup mode across elevation.
use vstd::prelude::*;

use crate::text::{join, join_strs, str_views};
use crate::win32::wide::{
    lemma_utf16_roundtrip, utf16_decode, utf16_encode, utf16_to_string, wide_null, wide_null_spec,
};

verus! {

/// Registry / CLI flag for silent login autostart (tray only, no main window).
pub const STARTUP_ARG: &'static str = "--startup";

/// Flag of the elevated relaunch.
pub const ELEVATED_ARG: &'static str = "--elevated";

/// The Run key under `HKEY_CURRENT_USER`.
pub const RUN_KEY_PATH: &'static str = "Software\\Microsoft\\Windows\\CurrentVersion\\Run";

/// `ERROR_FILE_NOT_FOUND`.
pub const ERROR_FILE_NOT_FOUND: u32 = 2;

/// "--startup"
pub open spec fn startup_flag() -> Seq<char> {
    seq!['-', '-', 's', 't', 'a', 'r', 't', 'u', 'p']
}

/// "--elevated"
pub open spec fn elevated_flag() -> Seq<char> {
    seq!['-', '-', 'e', 'l', 'e', 'v', 'a', 't', 'e', 'd']
}

/// The process was started with the startup flag.
pub fn is_startup_launch(args: &[String]) -> (r: bool)
    ensures
        r == exists|i: int| 0 <= i < args@.len() && (#[trigger] args@[i])@ == startup_flag(),
{
    proof {
        reveal_strlit("--startup");
    }
    let flag = String::from_str(STARTUP_ARG);
    assert(flag@ =~= startup_flag());
    let mut i: usize = 0;
    while i < args.len()
        invariant
            i <= args@.len(),
            flag@ == startup_flag(),
            forall|j: int| 0 <= j < i ==> (#[trigger] args@[j])@ != startup_flag(),
        decreases args@.len() - i,
    {
        if args[i] == flag {
            return true;
        }
        i += 1;
    }
    false
}

/// Arguments of the elevated relaunch: the elevation flag, and the startup
/// flag when this launch was a startup launch.
pub open spec fn relaunch_args_spec(is_startup_launch: bool) -> Seq<char> {
    if is_startup_launch {
        elevated_flag() + seq![' '] + startup_flag()
    } else {
        elevated_flag()
    }
}

pub fn elevation_relaunch_args_for(is_startup_launch: bool) -> (r: String)
    ensures
        r@ == relaunch_args_spec(is_startup_launch),
{
    proof {
        reveal_strlit("--elevated");
        reveal_strlit("--startup");
        reveal_strlit(" ");
    }
    if is_startup_launch {
        let mut s = String::from_str(ELEVATED_ARG);
        s.append(" ");
        s.append(STARTUP_ARG);
        assert(s@ =~= relaunch_args_spec(true));
        s
    } else {
        let s = String::from_str(ELEVATED_ARG);
        assert(s@ =~= relaunch_args_spec(false));
        s
    }
}

/// Args passed to the elevated child so startup mode survives UAC relaunch.
pub fn elevation_relaunch_args(args: &[String]) -> (r: String)
    ensures
        r@ == relaunch_args_spec(
            exists|i: int| 0 <= i < args@.len() && (#[trigger] args@[i])@ == startup_flag(),
        ),
{
    elevation_relaunch_args_for(is_startup_launch(args))
}

/// `exe` in double quotes when it holds a space.
pub open spec fn quoted_exe(exe: Seq<char>) -> Seq<char> {
    if exe.contains(' ') {
        seq!['"'] + exe + seq!['"']
    } else {
        exe
    }
}

/// `"C:\Path With Spaces\app.exe" --arg` style command lines.
pub open spec fn launch_command(exe: Seq<char>, args: Seq<Seq<char>>) -> Seq<char> {
    if args.len() == 0 {
        quoted_exe(exe)
    } else {
        quoted_exe(exe) + seq![' '] + join(args, seq![' '])
    }
}

fn has_space(s: &str) -> (r: bool)
    ensures
        r == s@.contains(' '),
{
    let cs = crate::text::chars_of(s);
    let mut i: usize = 0;
    while i < cs.len()
        invariant
            i <= cs@.len(),
            cs@ == s@,
            forall|j: int| 0 <= j < i ==> cs@[j] != ' ',
        decreases cs@.len() - i,
    {
        if cs[i] == ' ' {
            return true;
        }
        i += 1;
    }
    false
}

/// Build `"C:\Path With Spaces\app.exe" --arg` style command lines.
pub fn format_exe_launch_command(exe_path: &str, args: &[&str]) -> (r: String)
    ensures
        r@ == launch_command(exe_path@, str_views(args@)),
{
    proof {
        reveal_strlit("\"");
        reveal_strlit(" ");
    }
    assert(" "@ =~= seq![' ']);
    assert("\""@ =~= seq!['"']);
    let mut exe_part = String::new();
    if has_space(exe_path) {
        exe_part.append("\"");
        exe_part.append(exe_path);
        exe_part.append("\"");
    } else {
        exe_part.append(exe_path);
    }
    assert(exe_part@ =~= quoted_exe(exe_path@));
    if args.len() == 0 {
        exe_part
    } else {
        exe_part.append(" ");
        let rest = join_strs(args, " ");
        exe_part.append(rest.as_str());
        assert(exe_part@ =~= launch_command(exe_path@, str_views(args@)));
        exe_part
    }
}

/// Why the Run key could not be updated.
#[derive(Clone, Copy, Debug, PartialEq, Eq, Structural)]
pub enum StartupError {
    /// The path of the running executable is not known.
    CurrentExeUnavailable,
    /// A registry call failed with this Win32 error.
    Registry(u32),
    /// The Run value is missing or empty.
    ValueMissing,
}

/// The command written to the Run key for an executable.
pub open spec fn startup_command_spec(exe: Seq<char>) -> Seq<char> {
    launch_command(exe, seq![startup_flag()])
}

/// Command line written to the Run key (quoted when the path contains spaces).
pub fn startup_command(current_exe: Option<&str>) -> (r: Result<String, StartupError>)
    ensures
        current_exe is None ==> r == Err::<String, StartupError>(StartupError::CurrentExeUnavailable),
        current_exe matches Some(exe) ==> (r matches Ok(c) && c@ == startup_command_spec(exe@)),
{
    match current_exe {
        None => Err(StartupError::CurrentExeUnavailable),
        Some(exe) => {
            let args: [&str; 1] = [STARTUP_ARG];
            proof {
                reveal_strlit("--startup");
                assert(args@.len() == 1);
                assert(args@[0]@ =~= startup_flag());
                assert(str_views(args@) =~= seq![startup_flag()]);
            }
            Ok(format_exe_launch_command(exe, &args))
        },
    }
}

// ---------------------------------------------------------------------------
// The REG_SZ value
// ---------------------------------------------------------------------------

/// Little-endian bytes of UTF-16 units.
pub open spec fn units_to_le_bytes(units: Seq<u16>) -> Seq<u8>
    decreases units.len(),
{
    if units.len() == 0 {
        seq![]
    } else {
        units_to_le_bytes(units.drop_last()) + seq![
            (units.last() % 256) as u8,
            (units.last() / 256) as u8,
        ]
    }
}

/// The bytes of a `REG_SZ` value holding `text`: its UTF-16 units and a NUL, little-endian.
pub open spec fn reg_sz_bytes(text: Seq<char>) -> Seq<u8> {
    units_to_le_bytes(wide_null_spec(text))
}

/// The data written for a `REG_SZ` value.
pub fn encode_reg_sz(text: &str) -> (r: Vec<u8>)
    ensures
        r@ == reg_sz_bytes(text@),
{
    let units = wide_null(text);
    let mut out: Vec<u8> = Vec::new();
    let mut i: usize = 0;
    while i < units.len()
        invariant
            i <= units@.len(),
            out@ == units_to_le_bytes(units@.take(i as int)),
        decreases units@.len() - i,
    {
        let u = units[i];
        out.push((u % 256) as u8);
        out.push((u / 256) as u8);
        proof {
            assert(units@.take(i + 1).drop_last() =~= units@.take(i as int));
            assert(out@ =~= units_to_le_bytes(units@.take(i + 1)));
        }
        i += 1;
    }
    assert(units@.take(units@.len() as int) =~= units@);
    out
}

/// The UTF-16 units in the first `2 * count` bytes, little-endian.
pub open spec fn le_units_of(bytes: Seq<u8>, count: nat) -> Seq<u16> {
    Seq::new(count, |k: int| (bytes[2 * k] as int + bytes[2 * k + 1] as int * 256) as u16)
}

/// The text of a `REG_SZ` value read into `buffer` with `byte_len` bytes
/// returned: the units before the terminating NUL, decoded lossily.
pub open spec fn reg_sz_text(buffer: Seq<u8>, byte_len: nat) -> Seq<char> {
    let units = if byte_len / 2 >= 1 {
        (byte_len / 2 - 1) as nat
    } else {
        0nat
    };
    utf16_decode(le_units_of(buffer, units))
}

/// Decode a `REG_SZ` value read into `buffer`.
pub fn decode_reg_sz(buffer: &[u8], byte_len: u32) -> (r: String)
    requires
        byte_len as int <= buffer@.len(),
    ensures
        r@ == reg_sz_text(buffer@, byte_len as nat),
{
    let count: usize = ((byte_len / 2) as usize).saturating_sub(1);
    let mut units: Vec<u16> = Vec::new();
    let mut k: usize = 0;
    let blen = buffer.len();
    while k < count
        invariant
            k <= count,
            blen == buffer@.len(),
            2 * count + 2 <= buffer@.len() || count == 0,
            units@ == le_units_of(buffer@, k as nat),
        decreases count - k,
    {
        let lo = buffer[2 * k] as u16;
        let hi = buffer[2 * k + 1] as u16;
        units.push(lo + hi * 256);
        k += 1;
        assert(units@ =~= le_units_of(buffer@, k as nat));
    }
    utf16_to_string(units.as_slice())
}

proof fn lemma_units_le_bytes(units: Seq<u16>)
    ensures
        units_to_le_bytes(units).len() == 2 * units.len(),
        forall|k: int|
            0 <= k < units.len() ==> (units_to_le_bytes(units)[2 * k] as int + units_to_le_bytes(
                units,
            )[2 * k + 1] as int * 256) as u16 == #[trigger] units[k],
    decreases units.len(),
{
    if units.len() > 0 {
        let d = units.drop_last();
        lemma_units_le_bytes(d);
        let b = units_to_le_bytes(units);
        assert forall|k: int| 0 <= k < units.len() implies (b[2 * k] as int + b[2 * k + 1] as int
            * 256) as u16 == #[trigger] units[k] by {
            if k < units.len() - 1 {
                assert(d[k] == units[k]);
            }
        }
    }
}

/// Reading back the value written for `text` gives `text`.
pub proof fn lemma_reg_sz_roundtrip(text: Seq<char>)
    ensures
        reg_sz_text(reg_sz_bytes(text), reg_sz_bytes(text).len()) == text,
{
    let units = wide_null_spec(text);
    lemma_units_le_bytes(units);
    let b = reg_sz_bytes(text);
    let n = utf16_encode(text).len();
    assert(b.len() == 2 * (n + 1));
    assert forall|k: int| 0 <= k < n implies #[trigger] le_units_of(b, n)[k] == utf16_encode(text)[k] by {
        assert(units[k] == utf16_encode(text)[k]);
    }
    assert(le_units_of(b, n) =~= utf16_encode(text));
    lemma_utf16_roundtrip(text);
}

/// What the Run key is to be changed into.
#[derive(Clone, Debug, PartialEq, Eq)]
pub enum RunKeyUpdate {
    /// Write this `REG_SZ` data under the program's value name.
    Write(Vec<u8>),
    /// Delete the program's value.
    Delete,
}

/// The Run key change that turns autostart on (the startup command) or off.
pub fn set_enabled(enabled: bool, current_exe: Option<&str>) -> (r: Result<RunKeyUpdate, StartupError>)
    ensures
        !enabled ==> r == Ok::<RunKeyUpdate, StartupError>(RunKeyUpdate::Delete),
        enabled && current_exe is None ==> r == Err::<RunKeyUpdate, StartupError>(
            StartupError::CurrentExeUnavailable,
        ),
        enabled && current_exe is Some ==> (r matches Ok(RunKeyUpdate::Write(data)) && data@
            == reg_sz_bytes(startup_command_spec(current_exe->0@))),
{
    if enabled {
        match startup_command(current_exe) {
            Ok(command) => Ok(RunKeyUpdate::Write(encode_reg_sz(command.as_str()))),
            Err(e) => Err(e),
        }
    } else {
        Ok(RunKeyUpdate::Delete)
    }
}

/// Bring the Run key in line with the `run_at_startup` setting.
pub fn sync(run_at_startup: bool, current_exe: Option<&str>) -> (r: Result<RunKeyUpdate, StartupError>)
    ensures
        !run_at_startup ==> r == Ok::<RunKeyUpdate, StartupError>(RunKeyUpdate::Delete),
        run_at_startup && current_exe is None ==> r == Err::<RunKeyUpdate, StartupError>(
            StartupError::CurrentExeUnavailable,
        ),
        run_at_startup && current_exe is Some ==> (r matches Ok(RunKeyUpdate::Write(data))
            && data@ == reg_sz_bytes(startup_command_spec(current_exe->0@))),
{
    set_enabled(run_at_startup, current_exe)
}

/// The Run value counts as present when the size query succeeded and
/// reported at least one UTF-16 unit.
pub fn run_value_present(status_ok: bool, byte_len: u32) -> (r: bool)
    ensures
        r == (status_ok && byte_len >= 2),
{
    status_ok && byte_len >= 2
}

/// The outcome of deleting the Run value: deleting a value that is not there is success.
pub fn delete_outcome(status: u32) -> (r: Result<(), StartupError>)
    ensures
        (status == 0 || status == ERROR_FILE_NOT_FOUND) ==> r is Ok,
        !(status == 0 || status == ERROR_FILE_NOT_FOUND) ==> r == Err::<(), StartupError>(
            StartupError::Registry(status),
        ),
{
    if status == 0 || status == ERROR_FILE_NOT_FOUND {
        Ok(())
    } else {
        Err(StartupError::Registry(status))
    }
}

/// A Win32 status as a result: success for `ERROR_SUCCESS`.
pub fn win32_ok(status: u32) -> (r: Result<(), StartupError>)
    ensures
        status == 0 ==> r is Ok,
        status != 0 ==> r == Err::<(), StartupError>(StartupError::Registry(status)),
{
    if status == 0 {
        Ok(())
    } else {
        Err(StartupError::Registry(status))
    }
}

/// `ShellExecuteW` reports success with a value above this.
pub const SHELL_EXECUTE_SUCCESS_ABOVE: isize = 32;

/// At start the program relaunches itself elevated unless its process token
/// says it already is. `token_elevated` is the token's `TokenIsElevated`
/// flag, `None` when the token could not be opened or read (then the
/// relaunch is tried too).
pub fn needs_elevated_relaunch(token_elevated: Option<u32>) -> (r: bool)
    ensures
        r == !(token_elevated matches Some(v) && v != 0),
{
    match token_elevated {
        Some(v) => v == 0,
        None => true,
    }
}

/// After asking Windows to start the elevated copy: this copy exits when
/// it started; when it did not (the user declined the elevation prompt) the
/// program runs on without administrator rights.
pub fn exit_after_elevated_relaunch(shell_execute_result: isize) -> (r: bool)
    ensures
        r == (shell_execute_result > SHELL_EXECUTE_SUCCESS_ABOVE),
{
    shell_execute_result > SHELL_EXECUTE_SUCCESS_ABOVE
}

} // verus!
