//! Starting with the system: the command line under the user's `Run` key, and how the
//! key is brought in line with the configuration.
//!
//! The configuration decides; the key only follows it. A value counts as ours if it
//! starts this very executable silently, so one that an older or moved copy left
//! behind is written anew.

use crate::text::{
    blank, decimal, decimal_of, eq_ignore_ascii_case, law_ascii_case_is_ignored,
    law_trimmed_is_the_middle, lemma_trimmed_fixed, same_ignoring_ascii_case, same_letters, trim,
    trimmed, white_space,
};
use crate::utf16::{
    bytes_of, bytes_to_units, char_units, decode, decoded, encoded, law_bytes_roundtrip,
    law_text_roundtrip, to_wide_units, units_of, units_to_bytes,
};
use vstd::prelude::*;

verus! {

/// The `Run` key below `HKEY_CURRENT_USER`.
pub const RUN_KEY_PATH: &'static str = "Software\\Microsoft\\Windows\\CurrentVersion\\Run";

/// The name of our value under the key.
pub const RUN_VALUE_NAME: &'static str = "TLToolBox";

/// The argument by which the program knows that the system started it.
pub const SILENT_ARG: &'static str = "--silent";

/// The largest value that is read; a larger one counts as absent.
pub const MAX_RUN_VALUE_BYTES: u32 = 4096;

/// The code of success.
pub const ERROR_SUCCESS: u32 = 0;

/// The code of a value that does not exist.
pub const ERROR_FILE_NOT_FOUND: u32 = 2;

/// The type of a text value.
pub const REG_SZ: u32 = 1;

/// Why the key could not be read or changed.
#[derive(Debug, PartialEq, Eq)]
pub enum AutostartError {
    /// There is no such key on this platform.
    UnsupportedPlatform,
    /// The path of this executable is unknown, for this reason.
    CurrentExeUnavailable { source: String },
    /// A registry operation failed.
    Registry { operation: &'static str, code: u32 },
}

/// What a change of the key returns.
pub type AutostartResult = Result<(), AutostartError>;

impl AutostartError {
    /// What the user is told.
    pub open spec fn text(self) -> Seq<char> {
        match self {
            AutostartError::UnsupportedPlatform => "开机自启仅支持 Windows（注册表 Run 键）"@,
            AutostartError::CurrentExeUnavailable { source } => "无法定位当前可执行文件路径: "@
                + source@,
            AutostartError::Registry { operation, code } => "注册表操作失败: "@ + operation@
                + "（Win32 错误码 "@ + decimal(code as nat) + "）"@,
        }
    }

    /// What the user is told.
    pub fn to_string(&self) -> (r: String)
        ensures
            r@ == self.text(),
    {
        match self {
            AutostartError::UnsupportedPlatform => {
                "开机自启仅支持 Windows（注册表 Run 键）".to_owned()
            },
            AutostartError::CurrentExeUnavailable { source } => {
                let mut r = "无法定位当前可执行文件路径: ".to_owned();
                r.append(source.as_str());
                r
            },
            AutostartError::Registry { operation, code } => {
                let mut r = "注册表操作失败: ".to_owned();
                r.append(operation);
                r.append("（Win32 错误码 ");
                r.append(decimal_of(*code as u128).as_str());
                r.append("）");
                r
            },
        }
    }
}

// ---------------------------------------------------------------------------
// The command line
// ---------------------------------------------------------------------------

/// Whether a path has a space or a tab, at which a command line would be split.
pub open spec fn has_separator(path: Seq<char>) -> bool {
    exists|i: int| 0 <= i < path.len() && (#[trigger] path[i] == ' ' || path[i] == '\t')
}

/// A path as one argument of a command line: without white space around it, in
/// quotes where it is empty or would be split.
pub open spec fn quoted(exe: Seq<char>) -> Seq<char> {
    let path = trimmed(exe);
    if path.len() == 0 || has_separator(path) {
        "\""@ + path + "\""@
    } else {
        path
    }
}

/// A path as one argument of a command line.
pub fn quote_exe_path(exe: &str) -> (r: String)
    ensures
        r@ == quoted(exe@),
{
    let path = trim(exe);
    let mut split = path.as_str().is_empty();
    for c in it: path.as_str().chars()
        invariant
            it.seq() == path@,
            split == (path@.len() == 0 || exists|i: int|
                0 <= i < it.index() && (#[trigger] path@[i] == ' ' || path@[i] == '\t')),
    {
        assert(path@[it.index() as int] == c);
        if c == ' ' || c == '\t' {
            split = true;
        }
    }
    if split {
        let mut r = "\"".to_owned();
        r.append(path.as_str());
        r.append("\"");
        r
    } else {
        path
    }
}

/// The command line that starts `exe` silently.
pub open spec fn run_value(exe: Seq<char>) -> Seq<char> {
    quoted(exe) + " "@ + SILENT_ARG@
}

/// The command line that starts `exe_path` silently.
pub fn build_run_value(exe_path: &str) -> (r: String)
    ensures
        r@ == run_value(exe_path@),
{
    let mut r = quote_exe_path(exe_path);
    r.append(" ");
    r.append(SILENT_ARG);
    r
}

/// Whether a stored value starts `exe` silently; white space around it and the case
/// of ASCII letters do not matter.
pub open spec fn starts_exe(stored: Seq<char>, exe: Seq<char>) -> bool {
    same_ignoring_ascii_case(trimmed(stored), run_value(exe))
}

/// Whether a stored value starts `exe_path` silently.
pub fn value_matches_exe(stored: &str, exe_path: &str) -> (r: bool)
    ensures
        r == starts_exe(stored@, exe_path@),
{
    eq_ignore_ascii_case(trim(stored).as_str(), build_run_value(exe_path).as_str())
}

// ---------------------------------------------------------------------------
// Reading and changing the key
// ---------------------------------------------------------------------------

/// The result of an operation with this code.
pub open spec fn operation_result(operation: &'static str, code: u32) -> AutostartResult {
    if code == ERROR_SUCCESS {
        Ok(())
    } else {
        Err(AutostartError::Registry { operation, code })
    }
}

/// Settles opening the key.
pub fn after_open(code: u32) -> (r: AutostartResult)
    ensures
        r == operation_result("RegOpenKeyExW", code),
{
    if code != ERROR_SUCCESS {
        return Err(AutostartError::Registry { operation: "RegOpenKeyExW", code });
    }
    Ok(())
}

/// What the probe for type and size of the value comes to.
pub open spec fn probed(code: u32, value_type: u32, size: u32) -> Result<
    Option<usize>,
    AutostartError,
> {
    if code == ERROR_FILE_NOT_FOUND {
        Ok(None)
    } else if code != ERROR_SUCCESS {
        Err(AutostartError::Registry { operation: "RegQueryValueExW(探测)", code })
    } else if value_type != REG_SZ || size > MAX_RUN_VALUE_BYTES {
        Ok(None)
    } else {
        Ok(Some(size as usize))
    }
}

/// Settles the probe for type and size of the value: the number of bytes to read, or
/// nothing where there is no value, or one that is no text or too large.
pub fn after_probe(code: u32, value_type: u32, size: u32) -> (r: Result<
    Option<usize>,
    AutostartError,
>)
    ensures
        r == probed(code, value_type, size),
{
    if code == ERROR_FILE_NOT_FOUND {
        return Ok(None);
    }
    if code != ERROR_SUCCESS {
        return Err(AutostartError::Registry { operation: "RegQueryValueExW(探测)", code });
    }
    if value_type != REG_SZ {
        return Ok(None);
    }
    if size > MAX_RUN_VALUE_BYTES {
        return Ok(None);
    }
    Ok(Some(size as usize))
}

/// `units` without the zeros at their end.
pub open spec fn without_final_nuls(units: Seq<u16>) -> Seq<u16>
    decreases units.len(),
{
    if units.len() > 0 && units.last() == 0 {
        without_final_nuls(units.drop_last())
    } else {
        units
    }
}

/// The text of a value of which `size` bytes of `buffer` were filled.
pub open spec fn stored_text(buffer: Seq<u8>, size: u32) -> Seq<char> {
    let filled = if size < buffer.len() {
        buffer.take(size as int)
    } else {
        buffer
    };
    decoded(without_final_nuls(units_of(filled)))
}

/// Settles reading the value: its text, or nothing where that is empty.
pub fn after_read(code: u32, buffer: Vec<u8>, size: u32) -> (r: Result<
    Option<String>,
    AutostartError,
>)
    ensures
        match r {
            Err(error) => code != ERROR_SUCCESS && error == (AutostartError::Registry {
                operation: "RegQueryValueExW(读取)",
                code,
            }),
            Ok(text) => code == ERROR_SUCCESS && match text {
                Some(t) => t@.len() > 0 && t@ == stored_text(buffer@, size),
                None => stored_text(buffer@, size).len() == 0,
            },
        },
{
    if code != ERROR_SUCCESS {
        return Err(AutostartError::Registry { operation: "RegQueryValueExW(读取)", code });
    }
    let mut filled = buffer;
    if (size as u64) < (filled.len() as u64) {
        filled.truncate(size as usize);
        assert(filled@ =~= buffer@.take(size as int));
    }
    let mut units = bytes_to_units(filled.as_slice());
    let ghost all = units@;
    while units.len() > 0 && units[units.len() - 1] == 0
        invariant
            without_final_nuls(all) == without_final_nuls(units@),
        decreases units@.len(),
    {
        let ghost before = units@;
        units.pop();
        assert(units@ =~= before.drop_last());
    }
    let text = decode(units.as_slice());
    if text.as_str().is_empty() {
        return Ok(None);
    }
    Ok(Some(text))
}

/// What the system answered while the value was read. A call that was not made has left
/// its part as it was.
pub struct RunKeyRead {
    pub open_code: u32,
    pub probe_code: u32,
    pub value_type: u32,
    pub probe_size: u32,
    pub read_code: u32,
    pub buffer: Vec<u8>,
    pub read_size: u32,
}

/// Which call failed, in the order in which they are made, if one did.
pub open spec fn run_key_failure(read: RunKeyRead) -> Option<AutostartError> {
    if read.open_code != ERROR_SUCCESS {
        Some(AutostartError::Registry { operation: "RegOpenKeyExW", code: read.open_code })
    } else if read.probe_code != ERROR_SUCCESS && read.probe_code != ERROR_FILE_NOT_FOUND {
        Some(
            AutostartError::Registry {
                operation: "RegQueryValueExW(探测)",
                code: read.probe_code,
            },
        )
    } else if has_value(read) && read.read_code != ERROR_SUCCESS {
        Some(
            AutostartError::Registry { operation: "RegQueryValueExW(读取)", code: read.read_code },
        )
    } else {
        None
    }
}

/// Whether the probe found a text that is not too large.
pub open spec fn has_value(read: RunKeyRead) -> bool {
    read.probe_code == ERROR_SUCCESS && read.value_type == REG_SZ && read.probe_size
        <= MAX_RUN_VALUE_BYTES
}

/// The text of the value, or nothing where there is none, or one that is no text, too
/// large or empty.
pub fn read_run_value(read: RunKeyRead) -> (r: Result<Option<String>, AutostartError>)
    ensures
        match run_key_failure(read) {
            Some(error) => r == Err::<Option<String>, AutostartError>(error),
            None => r is Ok && match r->Ok_0 {
                Some(text) => has_value(read) && text@.len() > 0 && text@ == stored_text(
                    read.buffer@,
                    read.read_size,
                ),
                None => has_value(read) ==> stored_text(read.buffer@, read.read_size).len() == 0,
            },
        },
{
    match after_open(read.open_code) {
        Err(error) => return Err(error),
        Ok(_) => {},
    }
    match after_probe(read.probe_code, read.value_type, read.probe_size) {
        Err(error) => Err(error),
        Ok(None) => Ok(None),
        Ok(Some(_)) => after_read(read.read_code, read.buffer, read.read_size),
    }
}

/// Whether the program starts with the system: the value is there and starts this
/// very executable.
pub open spec fn enabled(stored: Option<Seq<char>>, exe: Option<Seq<char>>) -> bool {
    stored is Some && exe is Some && starts_exe(stored->0, exe->0)
}

/// Whether the program starts with the system. A value that cannot be read counts as
/// absent.
pub fn enabled_by(
    stored: &Result<Option<String>, AutostartError>,
    exe_path: Option<&str>,
) -> (r: bool)
    ensures
        r == enabled(
            (match *stored {
                Ok(Some(text)) => Some(text@),
                _ => None,
            }),
            (match exe_path {
                Some(path) => Some(path@),
                None => None,
            }),
        ),
{
    match (stored, exe_path) {
        (Ok(Some(text)), Some(path)) => value_matches_exe(text.as_str(), path),
        _ => false,
    }
}

/// How the key is to be changed.
#[derive(Debug, PartialEq, Eq)]
pub enum RunKeyChange {
    /// Write these bytes as a text value.
    Write(Vec<u8>),
    /// Delete the value.
    Delete,
}

/// The bytes of a text value.
pub open spec fn value_bytes(text: Seq<char>) -> Seq<u8> {
    bytes_of(encoded(text).push(0))
}

/// How the key is to be changed to start the program with the system or not, given
/// the path of this executable or why it is unknown.
pub fn set_autostart_impl(enable: bool, exe_path: Result<String, String>) -> (r: Result<
    RunKeyChange,
    AutostartError,
>)
    ensures
        if !enable {
            r == Ok::<RunKeyChange, AutostartError>(RunKeyChange::Delete)
        } else {
            match exe_path {
                Ok(path) => r matches Ok(RunKeyChange::Write(bytes)) && bytes@ == value_bytes(
                    run_value(path@),
                ),
                Err(source) => r == Err::<RunKeyChange, AutostartError>(
                    AutostartError::CurrentExeUnavailable { source },
                ),
            }
        },
{
    if !enable {
        return Ok(RunKeyChange::Delete);
    }
    match exe_path {
        Ok(path) => {
            let value = build_run_value(path.as_str());
            let units = to_wide_units(value.as_str());
            Ok(RunKeyChange::Write(units_to_bytes(units.as_slice())))
        },
        Err(source) => Err(AutostartError::CurrentExeUnavailable { source }),
    }
}

/// Settles writing the value.
pub fn after_write(code: u32) -> (r: AutostartResult)
    ensures
        r == operation_result("RegSetValueExW", code),
{
    if code != ERROR_SUCCESS {
        return Err(AutostartError::Registry { operation: "RegSetValueExW", code });
    }
    Ok(())
}

/// What deleting the value comes to.
pub open spec fn deleted(code: u32) -> AutostartResult {
    if code == ERROR_FILE_NOT_FOUND {
        Ok(())
    } else {
        operation_result("RegDeleteValueW", code)
    }
}

/// Settles deleting the value. One that was not there is as good as deleted.
pub fn after_delete(code: u32) -> (r: AutostartResult)
    ensures
        r == deleted(code),
{
    if code != ERROR_SUCCESS && code != ERROR_FILE_NOT_FOUND {
        return Err(AutostartError::Registry { operation: "RegDeleteValueW", code });
    }
    Ok(())
}

/// The text under the key, if it is there and can be read.
pub open spec fn text_under(stored: Result<Option<String>, AutostartError>) -> Option<Seq<char>> {
    match stored {
        Ok(Some(text)) => Some(text@),
        _ => None,
    }
}

/// Whether the key has to be changed to follow the configuration: it is to start this very
/// executable, or to hold nothing, not even a value that starts another one.
pub open spec fn change_due(
    stored: Option<Seq<char>>,
    exe: Option<Seq<char>>,
    enable: bool,
) -> bool {
    if enable {
        !enabled(stored, exe)
    } else {
        stored is Some
    }
}

/// Whether the key has to be changed to follow the configuration. A value that cannot be
/// read counts as absent.
pub fn needs_change(
    stored: &Result<Option<String>, AutostartError>,
    exe_path: Option<&str>,
    enable: bool,
) -> (r: bool)
    ensures
        r == change_due(
            text_under(*stored),
            (match exe_path {
                Some(path) => Some(path@),
                None => None,
            }),
            enable,
        ),
{
    if enable {
        return !enabled_by(stored, exe_path);
    }
    match stored {
        Ok(Some(_)) => true,
        _ => false,
    }
}

/// Whether `change` is how the key is to be changed for this executable.
pub open spec fn brings_in_line(
    change: Option<RunKeyChange>,
    stored: Option<Seq<char>>,
    exe: Seq<char>,
    enable: bool,
) -> bool {
    if !change_due(stored, Some(exe), enable) {
        change is None
    } else if enable {
        change matches Some(RunKeyChange::Write(bytes)) && bytes@ == value_bytes(run_value(exe))
    } else {
        change == Some(RunKeyChange::Delete)
    }
}

/// How the key is to be changed to follow the configuration, if at all, given what is
/// under it and the path of this executable or why it is unknown.
pub fn plan_synchronization(
    stored: &Result<Option<String>, AutostartError>,
    exe_path: Result<String, String>,
    enable: bool,
) -> (r: Result<Option<RunKeyChange>, AutostartError>)
    ensures
        match exe_path {
            Ok(path) => r is Ok && brings_in_line(r->Ok_0, text_under(*stored), path@, enable),
            Err(source) => if enable {
                r == Err::<Option<RunKeyChange>, AutostartError>(
                    AutostartError::CurrentExeUnavailable { source },
                )
            } else {
                r == Ok::<Option<RunKeyChange>, AutostartError>(
                    if text_under(*stored) is Some {
                        Some(RunKeyChange::Delete)
                    } else {
                        None
                    },
                )
            },
        },
{
    let due = match &exe_path {
        Ok(path) => needs_change(stored, Some(path.as_str()), enable),
        Err(_) => needs_change(stored, None, enable),
    };
    if !due {
        return Ok(None);
    }
    match set_autostart_impl(enable, exe_path) {
        Ok(change) => Ok(Some(change)),
        Err(error) => Err(error),
    }
}

/// Whether the program starts with the system; it never does without Windows.
pub fn is_autostart_enabled() -> (r: bool)
    ensures
        !r,
{
    false
}

/// Starts the program with the system or not. Without Windows this is refused.
pub fn set_autostart(enable: bool) -> (r: AutostartResult)
    ensures
        r == Err::<(), AutostartError>(AutostartError::UnsupportedPlatform),
{
    let _ = enable;
    Err(AutostartError::UnsupportedPlatform)
}

/// Brings the key in line with the configuration. Without Windows there is nothing to
/// switch off, and switching on is refused.
pub fn synchronize_autostart(enable: bool) -> (r: AutostartResult)
    ensures
        r == (if enable {
            Err::<(), AutostartError>(AutostartError::UnsupportedPlatform)
        } else {
            Ok(())
        }),
{
    if needs_change(&Ok(None), None, enable) {
        return set_autostart(enable);
    }
    Ok(())
}

// ---------------------------------------------------------------------------
// Laws
// ---------------------------------------------------------------------------

/// The value under the key after it was brought in line with the configuration.
pub open spec fn synchronized(stored: Option<Seq<char>>, exe: Seq<char>, enable: bool) -> Option<
    Seq<char>,
> {
    if !enable {
        None
    } else if enabled(stored, Some(exe)) {
        stored
    } else {
        Some(run_value(exe))
    }
}

/// The text under the key after a change.
pub open spec fn text_after(stored: Option<Seq<char>>, change: Option<RunKeyChange>) -> Option<
    Seq<char>,
> {
    match change {
        None => stored,
        Some(RunKeyChange::Write(bytes)) => Some(stored_text(bytes@, bytes@.len() as u32)),
        Some(RunKeyChange::Delete) => None,
    }
}

/// The planned change brings the key in line with the configuration.
pub proof fn law_plan_synchronizes(
    change: Option<RunKeyChange>,
    stored: Option<Seq<char>>,
    exe: Seq<char>,
    enable: bool,
)
    requires
        brings_in_line(change, stored, exe, enable),
        value_bytes(run_value(exe)).len() <= u32::MAX,
    ensures
        text_after(stored, change) == synchronized(stored, exe, enable),
{
    if change_due(stored, Some(exe), enable) && enable {
        reveal_strlit("--silent");
        assert(run_value(exe).last() == 't');
        law_value_is_read_back(run_value(exe));
    }
}

/// The command line that is built for an executable counts as starting it.
pub proof fn law_built_value_matches(exe: Seq<char>)
    ensures
        starts_exe(run_value(exe), exe),
{
    lemma_run_value_is_trimmed(exe);
}

/// After the key was brought in line the program starts with the system if and only
/// if the configuration says so, nothing is left under the key otherwise, and doing it
/// again changes nothing.
pub proof fn law_synchronized(stored: Option<Seq<char>>, exe: Seq<char>, enable: bool)
    ensures
        enabled(synchronized(stored, exe, enable), Some(exe)) == enable,
        !enable ==> synchronized(stored, exe, enable) is None,
        synchronized(synchronized(stored, exe, enable), exe, enable) == synchronized(
            stored,
            exe,
            enable,
        ),
{
    law_built_value_matches(exe);
}

/// A value is read back as it was written, where it is not empty and does not end in a
/// zero character.
pub proof fn law_value_is_read_back(text: Seq<char>)
    requires
        text.len() > 0,
        text.last() != '\0',
        value_bytes(text).len() <= u32::MAX,
    ensures
        stored_text(value_bytes(text), value_bytes(text).len() as u32) == text,
{
    let units = encoded(text);
    let bytes = value_bytes(text);
    law_bytes_roundtrip(units.push(0));
    assert(units =~= encoded(text.drop_last()) + char_units(text.last()));
    lemma_last_unit(text.last());
    assert(units.last() == char_units(text.last()).last());
    assert(units.push(0).drop_last() =~= units);
    assert(without_final_nuls(units.push(0)) == without_final_nuls(units));
    law_text_roundtrip(text);
    assert(bytes.take(bytes.len() as int) =~= bytes);
}

/// Only the zero character ends in a zero unit.
proof fn lemma_last_unit(c: char)
    requires
        c != '\0',
    ensures
        char_units(c).last() != 0,
{
}

/// Switching on is seen when the key is read again, as long as the value is not too
/// large to be read.
pub proof fn law_switching_on_is_seen(exe: Seq<char>)
    requires
        value_bytes(run_value(exe)).len() <= MAX_RUN_VALUE_BYTES,
    ensures
        ({
            let bytes = value_bytes(run_value(exe));
            enabled(Some(stored_text(bytes, bytes.len() as u32)), Some(exe))
        }),
{
    reveal_strlit("--silent");
    law_built_value_matches(exe);
    assert(run_value(exe).last() == 't');
    law_value_is_read_back(run_value(exe));
}

proof fn lemma_run_value_is_trimmed(exe: Seq<char>)
    ensures
        trimmed(run_value(exe)) == run_value(exe),
{
    reveal_strlit("--silent");
    reveal_strlit("\"");
    reveal_strlit(" ");
    let path = trimmed(exe);
    crate::text::lemma_trimmed_ends(exe);
    let value = run_value(exe);
    assert(value.last() == 't');
    if path.len() == 0 || has_separator(path) {
        assert(value[0] == '"');
    } else {
        assert(value[0] == path[0]);
    }
    lemma_trimmed_fixed(value);
}

/// The command line is the path as it is, or in quotes where it has a space or a tab or is
/// empty, and the argument for a silent start behind it; white space around the path does
/// not belong to it.
pub proof fn law_command_line(left: Seq<char>, path: Seq<char>, right: Seq<char>)
    requires
        blank(left),
        blank(right),
        path.len() > 0 ==> !white_space(path[0]) && !white_space(path.last()),
    ensures
        path.len() > 0 && !path.contains(' ') && !path.contains('\t') ==> run_value(
            left + path + right,
        ) == path + " --silent"@,
        path.len() == 0 || path.contains(' ') || path.contains('\t') ==> run_value(
            left + path + right,
        ) == "\""@ + path + "\" --silent"@,
{
    law_trimmed_is_the_middle(left, path, right);
    reveal_strlit(" ");
    reveal_strlit("--silent");
    reveal_strlit(" --silent");
    reveal_strlit("\"");
    reveal_strlit("\" --silent");
    assert(" "@ + "--silent"@ =~= " --silent"@);
    assert("\""@ + " --silent"@ =~= "\" --silent"@);
    if path.contains(' ') {
        let i = choose|i: int| 0 <= i < path.len() && path[i] == ' ';
        assert(path[i] == ' ');
    }
    if path.contains('\t') {
        let i = choose|i: int| 0 <= i < path.len() && path[i] == '\t';
        assert(path[i] == '\t');
    }
    if path.len() == 0 || path.contains(' ') || path.contains('\t') {
        assert(run_value(left + path + right) =~= "\""@ + path + "\" --silent"@);
    } else {
        assert(run_value(left + path + right) =~= path + " --silent"@);
    }
}

/// A value under the key counts as ours if and only if it has the letters of the command
/// line for this very executable, whatever their case and the white space around. One that
/// starts another executable, or this one in another way, does not count.
pub proof fn law_only_our_value_counts(
    left: Seq<char>,
    value: Seq<char>,
    right: Seq<char>,
    exe: Seq<char>,
)
    requires
        blank(left),
        blank(right),
        value.len() > 0 ==> !white_space(value[0]) && !white_space(value.last()),
    ensures
        starts_exe(left + value + right, exe) <==> same_letters(value, run_value(exe)),
        enabled(Some(left + value + right), Some(exe)) <==> same_letters(value, run_value(exe)),
        !enabled(None, Some(exe)),
        !enabled(Some(left + value + right), None),
{
    law_trimmed_is_the_middle(left, value, right);
    law_ascii_case_is_ignored(value, run_value(exe));
}

/// The planned change makes the program start with the system if and only if that is
/// wanted; where it is not wanted nothing is left under the key; and what is in line
/// already is not touched.
pub proof fn law_planned_change_makes_it_so(
    change: Option<RunKeyChange>,
    stored: Option<Seq<char>>,
    exe: Seq<char>,
    enable: bool,
)
    requires
        brings_in_line(change, stored, exe, enable),
        value_bytes(run_value(exe)).len() <= u32::MAX,
    ensures
        enabled(text_after(stored, change), Some(exe)) == enable,
        !enable ==> text_after(stored, change) is None,
        enable && stored is Some && starts_exe(stored->0, exe) ==> change is None,
        !enable && stored is None ==> change is None,
        change is None ==> text_after(stored, change) == stored,
        change == Some(RunKeyChange::Delete) ==> text_after(stored, change) is None && !enable,
{
    law_plan_synchronizes(change, stored, exe, enable);
    law_synchronized(stored, exe, enable);
}

/// A value is read where it is there, is a text and has at most 4096 bytes; a key without
/// it is no failure, and every other refusal is one, with its code.
pub proof fn law_value_is_read_where_it_is_there(read: RunKeyRead)
    ensures
        has_value(read) <==> read.probe_code == 0 && read.value_type == 1 && read.probe_size
            <= 4096,
        run_key_failure(read) is None <==> read.open_code == 0 && (read.probe_code == 2
            || read.probe_code == 0 && (read.value_type != 1 || read.probe_size > 4096
            || read.read_code == 0)),
        run_key_failure(read) matches Some(AutostartError::Registry { operation, code }) ==> code
            != 0 && (code == read.open_code || code == read.probe_code || code
            == read.read_code),
        read.open_code != 0 ==> (run_key_failure(read) matches Some(
            AutostartError::Registry { operation, code },
        ) && code == read.open_code),
{
}

/// The zeros behind a text do not belong to it, and neither does what the buffer holds
/// behind the bytes that were filled.
pub proof fn law_text_without_its_zeros(units: Seq<u16>, zeros: nat, junk: Seq<u8>)
    requires
        units.len() > 0 ==> units.last() != 0,
        2 * (units.len() + zeros) <= u32::MAX,
    ensures
        without_final_nuls(units + Seq::new(zeros, |i: int| 0u16)) == units,
        stored_text(
            bytes_of(units + Seq::new(zeros, |i: int| 0u16)) + junk,
            (2 * (units.len() + zeros)) as u32,
        ) == decoded(units),
{
    lemma_final_nuls(units, zeros);
    let all = units + Seq::new(zeros, |i: int| 0u16);
    let bytes = bytes_of(all);
    let size = (2 * (units.len() + zeros)) as u32;
    assert(bytes.len() == size);
    assert((bytes + junk).take(size as int) =~= bytes);
    if junk.len() == 0 {
        assert(bytes + junk =~= bytes);
    }
    law_bytes_roundtrip(all);
}

proof fn lemma_final_nuls(units: Seq<u16>, zeros: nat)
    requires
        units.len() > 0 ==> units.last() != 0,
    ensures
        without_final_nuls(units + Seq::new(zeros, |i: int| 0u16)) == units,
    decreases zeros,
{
    let all = units + Seq::new(zeros, |i: int| 0u16);
    if zeros == 0 {
        assert(all =~= units);
    } else {
        let fewer = (zeros - 1) as nat;
        assert(all.drop_last() =~= units + Seq::new(fewer, |i: int| 0u16));
        assert(all.last() == 0);
        lemma_final_nuls(units, fewer);
    }
}

/// An operation succeeds with the code zero alone, and fails with the code that it has.
pub proof fn law_operation_fails_with_its_code(operation: &'static str, code: u32)
    ensures
        operation_result(operation, code) is Ok <==> code == 0,
        code != 0 ==> operation_result(operation, code) == Err::<(), AutostartError>(
            AutostartError::Registry { operation, code },
        ),
{
}

/// Every text of up to 4096 bytes is read, with all its bytes; a larger one, another type
/// and a missing value count as none, and every other code is a failure.
pub proof fn law_texts_up_to_the_limit_are_read(code: u32, value_type: u32, size: u32)
    ensures
        size <= 4096 ==> probed(0, 1, size) == Ok::<Option<usize>, AutostartError>(
            Some(size as usize),
        ),
        size > 4096 ==> probed(0, 1, size) == Ok::<Option<usize>, AutostartError>(None),
        value_type != 1 ==> probed(0, value_type, size) == Ok::<Option<usize>, AutostartError>(
            None,
        ),
        probed(2, value_type, size) == Ok::<Option<usize>, AutostartError>(None),
        probed(code, value_type, size) is Err <==> code != 0 && code != 2,
        probed(code, value_type, size) matches Err(AutostartError::Registry { operation, code: c })
            ==> c == code,
{
}

/// A value is gone where it was deleted or was not there; every other code is a failure.
pub proof fn law_missing_value_is_as_good_as_deleted(code: u32)
    ensures
        deleted(code) is Ok <==> code == 0 || code == 2,
        deleted(code) matches Err(AutostartError::Registry { operation, code: c }) ==> c == code,
{
}

/// Only a value that was read counts: neither one that is not there nor one that could not
/// be read.
pub proof fn law_unreadable_value_counts_as_absent(text: String, error: AutostartError)
    ensures
        text_under(Ok(Some(text))) == Some(text@),
        text_under(Ok(None)) is None,
        text_under(Err(error)) is None,
{
}

} // verus!
