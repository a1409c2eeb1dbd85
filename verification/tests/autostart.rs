use tltoolbox::autostart::{
    after_delete, after_open, after_probe, after_read, after_write, build_run_value, enabled_by,
    is_autostart_enabled, needs_change, plan_synchronization, quote_exe_path, read_run_value, set_autostart,
    set_autostart_impl, synchronize_autostart, value_matches_exe, AutostartError, RunKeyChange,
    RunKeyRead,
};
use tltoolbox::utf16::{to_wide_units, units_to_bytes};

#[test]
fn path_without_spaces_is_not_quoted() {
    assert_eq!(
        quote_exe_path(r"C:\Tools\tltoolbox.exe"),
        r"C:\Tools\tltoolbox.exe"
    );
    assert_eq!(
        quote_exe_path(r"C:\ProgramFiles\tltoolbox.exe"),
        r"C:\ProgramFiles\tltoolbox.exe"
    );
}

#[test]
fn path_with_spaces_is_fully_quoted() {
    assert_eq!(
        quote_exe_path(r"C:\Program Files\TLToolBox\tltoolbox.exe"),
        r#""C:\Program Files\TLToolBox\tltoolbox.exe""#
    );
    assert_eq!(quote_exe_path("C:\\a\tb\\x.exe"), "\"C:\\a\tb\\x.exe\"");
}

#[test]
fn empty_or_blank_path_is_quoted_to_stay_single_argument() {
    assert_eq!(quote_exe_path("   "), r#""""#);
}

#[test]
fn run_value_appends_silent_arg_after_quoted_path() {
    assert_eq!(
        build_run_value(r"C:\Program Files\TLToolBox\tltoolbox.exe"),
        r#""C:\Program Files\TLToolBox\tltoolbox.exe" --silent"#
    );
    assert_eq!(
        build_run_value(r"C:\Tools\tltoolbox.exe"),
        r"C:\Tools\tltoolbox.exe --silent"
    );
}

#[test]
fn stored_value_matching_exe_is_enabled() {
    let exe_path = r"C:\Program Files\TLToolBox\tltoolbox.exe";
    let stored = build_run_value(exe_path);
    assert!(value_matches_exe(&stored, exe_path));
}

#[test]
fn comparison_is_case_insensitive_and_trims_whitespace() {
    let exe_path = r"C:\Program Files\TLToolBox\tltoolbox.exe";
    let stored = r#"  "C:\PROGRAM FILES\TLTOOLBOX\TLTOOLBOX.EXE" --SILENT  "#;
    assert!(
        value_matches_exe(stored, exe_path),
        "大小写与首尾空白应被容忍"
    );
}

#[test]
fn stale_or_alien_value_counts_as_disabled() {
    let exe_path = r"C:\Program Files\TLToolBox\tltoolbox.exe";
    assert!(!value_matches_exe(
        r#""D:\Old\TLToolBox\tltoolbox.exe" --silent"#,
        exe_path
    ));
    assert!(!value_matches_exe(r#"C:\Windows\notepad.exe"#, exe_path));
    assert!(!value_matches_exe(
        r#""C:\Program Files\TLToolBox\tltoolbox.exe""#,
        exe_path
    ));
}

#[test]
fn non_windows_platform_is_never_enabled() {
    assert!(!is_autostart_enabled());
    let err = set_autostart(true).expect_err("非 Windows 平台应拒绝写入");
    assert!(err.to_string().contains("仅支持 Windows"));
}

#[test]
fn synchronizing_refuses_only_to_switch_on() {
    assert_eq!(synchronize_autostart(false), Ok(()));
    assert_eq!(
        synchronize_autostart(true),
        Err(AutostartError::UnsupportedPlatform)
    );
}

#[test]
fn key_follows_the_configuration() {
    let exe = "C:\\Tools\\tltoolbox.exe";
    let own = Ok(Some(build_run_value(exe)));
    let old = Ok(Some(build_run_value("C:\\Old\\tltoolbox.exe")));
    let known = || Ok(exe.to_string());
    let unknown = || Err("gone".to_string());
    let write = set_autostart_impl(true, known()).unwrap();

    assert!(needs_change(&Ok(None), Some(exe), true));
    assert!(needs_change(&own, Some(exe), false));
    assert!(!needs_change(&own, Some(exe), true));
    assert!(needs_change(&old, Some(exe), false));
    assert!(!needs_change(&Ok(None), None, false));

    assert_eq!(plan_synchronization(&own, known(), true), Ok(None));
    assert_eq!(plan_synchronization(&old, known(), true), Ok(Some(write)));
    assert_eq!(
        plan_synchronization(&old, known(), false),
        Ok(Some(RunKeyChange::Delete))
    );
    assert_eq!(
        plan_synchronization(&old, unknown(), false),
        Ok(Some(RunKeyChange::Delete))
    );
    assert_eq!(plan_synchronization(&Ok(None), known(), false), Ok(None));
    assert_eq!(
        plan_synchronization(&own, unknown(), true),
        Err(AutostartError::CurrentExeUnavailable { source: "gone".to_string() })
    );
}

#[test]
fn error_texts_name_operation_and_code() {
    assert_eq!(
        AutostartError::Registry { operation: "RegSetValueExW", code: 5 }.to_string(),
        "注册表操作失败: RegSetValueExW（Win32 错误码 5）"
    );
    assert_eq!(
        AutostartError::CurrentExeUnavailable { source: "x".to_string() }.to_string(),
        "无法定位当前可执行文件路径: x"
    );
    assert_eq!(
        AutostartError::UnsupportedPlatform.to_string(),
        "开机自启仅支持 Windows（注册表 Run 键）"
    );
}

#[test]
fn probe_rejects_missing_foreign_and_oversized_values() {
    assert_eq!(after_probe(2, 0, 0), Ok(None));
    assert_eq!(
        after_probe(5, 1, 10),
        Err(AutostartError::Registry { operation: "RegQueryValueExW(探测)", code: 5 })
    );
    assert_eq!(after_probe(0, 4, 4), Ok(None));
    assert_eq!(after_probe(0, 1, 4097), Ok(None));
    assert_eq!(after_probe(0, 1, 4096), Ok(Some(4096)));
}

#[test]
fn written_value_is_read_back_and_counts_as_enabled() {
    let exe = r"C:\Program Files\工具箱 😀\tltoolbox.exe".to_string();
    let change = set_autostart_impl(true, Ok(exe.clone())).unwrap();
    let bytes = match change {
        RunKeyChange::Write(bytes) => bytes,
        RunKeyChange::Delete => panic!("应写入"),
    };
    assert_eq!(&bytes[bytes.len() - 2..], &[0u8, 0u8]);
    let size = bytes.len() as u32;
    let stored = after_read(0, bytes, size);
    assert_eq!(stored, Ok(Some(build_run_value(&exe))));
    assert!(enabled_by(&stored, Some(&exe)));
    assert!(!enabled_by(&stored, Some(r"C:\other.exe")));
    assert!(!enabled_by(&stored, None));
    assert!(!enabled_by(&Ok(None), Some(&exe)));
    assert!(!enabled_by(
        &Err(AutostartError::UnsupportedPlatform),
        Some(&exe)
    ));
}

#[test]
fn read_drops_trailing_nuls_and_empty_text() {
    let mut bytes = units_to_bytes(&to_wide_units("ab"));
    bytes.extend_from_slice(&[0, 0, 0, 0, 7]);
    let size = bytes.len() as u32;
    assert_eq!(after_read(0, bytes.clone(), size), Ok(Some("ab".to_string())));
    assert_eq!(after_read(0, bytes.clone(), 2), Ok(Some("a".to_string())));
    assert_eq!(after_read(0, bytes.clone(), 100), Ok(Some("ab".to_string())));
    assert_eq!(after_read(0, vec![0, 0, 0, 0], 4), Ok(None));
    assert_eq!(
        after_read(234, bytes, 2),
        Err(AutostartError::Registry { operation: "RegQueryValueExW(读取)", code: 234 })
    );
}

#[test]
fn switching_off_deletes_and_tolerates_a_missing_value() {
    assert_eq!(
        set_autostart_impl(false, Err("unused".to_string())),
        Ok(RunKeyChange::Delete)
    );
    assert_eq!(
        set_autostart_impl(true, Err("lost".to_string())),
        Err(AutostartError::CurrentExeUnavailable { source: "lost".to_string() })
    );
    assert_eq!(after_delete(0), Ok(()));
    assert_eq!(after_delete(2), Ok(()));
    assert_eq!(
        after_delete(5),
        Err(AutostartError::Registry { operation: "RegDeleteValueW", code: 5 })
    );
    assert_eq!(after_open(0), Ok(()));
    assert_eq!(
        after_open(3),
        Err(AutostartError::Registry { operation: "RegOpenKeyExW", code: 3 })
    );
    assert_eq!(
        after_write(8),
        Err(AutostartError::Registry { operation: "RegSetValueExW", code: 8 })
    );
}

#[test]
fn value_is_read_in_three_calls() {
    let text = "C:\\x.exe --silent";
    let bytes = units_to_bytes(&to_wide_units(text));
    let size = bytes.len() as u32;
    let read = |open_code, probe_code, value_type, probe_size, read_code| RunKeyRead {
        open_code,
        probe_code,
        value_type,
        probe_size,
        read_code,
        buffer: bytes.clone(),
        read_size: size,
    };
    let failed = |operation, code| Err(AutostartError::Registry { operation, code });
    assert_eq!(read_run_value(read(0, 0, 1, size, 0)), Ok(Some(text.to_string())));
    assert_eq!(read_run_value(read(5, 7, 1, size, 9)), failed("RegOpenKeyExW", 5));
    assert_eq!(
        read_run_value(read(0, 7, 1, size, 9)),
        failed("RegQueryValueExW(探测)", 7)
    );
    assert_eq!(
        read_run_value(read(0, 0, 1, size, 9)),
        failed("RegQueryValueExW(读取)", 9)
    );
    assert_eq!(read_run_value(read(0, 2, 1, size, 9)), Ok(None));
    assert_eq!(read_run_value(read(0, 0, 4, size, 9)), Ok(None));
    assert_eq!(read_run_value(read(0, 0, 1, 4097, 9)), Ok(None));
}
