use std::collections::HashMap;
use std::path::Path;
use tltoolbox::config::{
    resolve_app_path, tmp_file_name, AppConfig, ConfigError, ConfigFields, ConfigManager,
    IconCoordinate,
    IconLayoutProfile, IconMap, ReadOutcome, SaveStage, DEFAULT_CONFIG_PATH,
    DEFAULT_TERMINAL_LOG_DIR,
};
use tltoolbox::logging::{
    degraded_notice, directory_failure, file_failure, log_directory, log_file_name, log_outputs,
    LogOutputs, DEFAULT_LOG_DIR, MAX_LOG_FILES,
};
use tltoolbox::paths::anchor;

const EXE_DIR: &str = "/opt/tltoolbox/bin";

#[test]
fn default_config_has_expected_values() {
    let cfg = AppConfig::default();
    assert_eq!(cfg.auto_start_modules, vec!["popup_blocker".to_string()]);
    assert!(
        !cfg.auto_start_windows,
        "开机自启默认应为关闭（显式开启才写注册表）"
    );
    assert!(
        cfg.minimize_to_tray,
        "关闭按钮最小化到托盘默认应开启（桌面常驻定位）"
    );
    assert!(cfg.module_custom_params.is_empty());
    let expected: Vec<String> = ["广告", "Flash Helper Service", "Update Notice", "推广弹窗"]
        .into_iter()
        .map(String::from)
        .collect();
    assert_eq!(
        cfg.popup_blacklist, expected,
        "黑名单默认值应保留原有关键词"
    );
    assert_eq!(
        cfg.enabled_shells,
        vec![
            "powershell".to_string(),
            "cmd".to_string(),
            "bash".to_string()
        ],
        "默认启用 Shell 名单应为 powershell / cmd / bash"
    );
    assert_eq!(cfg.terminal_log_dir, None);
}

#[test]
fn terminal_log_dir_default_falls_back_to_exe_adjacent_logs() {
    let cfg = AppConfig::default();
    assert_eq!(cfg.terminal_log_dir, None, "前置条件：默认无显式目录");
    let effective = cfg.effective_terminal_log_dir(Some(EXE_DIR));
    assert!(
        Path::new(&effective).is_absolute(),
        "回退目录应为绝对路径（exe 锚定），实际: {effective}"
    );
    assert!(
        Path::new(&effective).ends_with(Path::new(DEFAULT_TERMINAL_LOG_DIR)),
        "回退目录应以 logs/terminals 收尾，实际: {effective}"
    );
    assert_eq!(effective, "/opt/tltoolbox/bin/logs/terminals");
}

#[test]
fn resolve_app_path_keeps_explicit_absolute_path() {
    let abs = "/tmp/tltoolbox-explicit-absolute.toml";
    assert_eq!(
        resolve_app_path(abs, Some(EXE_DIR)),
        abs,
        "绝对路径应原样返回而不做 exe 目录拼接"
    );
}

#[test]
fn resolve_app_path_anchors_relative_subpath_to_exe_dir() {
    let resolved = resolve_app_path(DEFAULT_CONFIG_PATH, Some(EXE_DIR));
    assert!(Path::new(&resolved).is_absolute());
    assert!(Path::new(&resolved).ends_with(Path::new(DEFAULT_CONFIG_PATH)));
    assert_eq!(
        Path::new(&resolved).parent(),
        Some(Path::new(EXE_DIR).join("config").as_path())
    );
}

#[test]
fn resolve_app_path_without_exe_dir_keeps_the_path() {
    assert_eq!(resolve_app_path("data/x", None), "data/x");
    assert_eq!(anchor("a", true, Some("b".to_string())), "a");
    assert_eq!(anchor("a", false, Some("b".to_string())), "b");
    assert_eq!(anchor("a", false, None), "a");
}

#[test]
fn default_config_manager_anchors_to_exe_dir() {
    let mgr = ConfigManager::beside_exe(Some(EXE_DIR));
    assert!(Path::new(mgr.path()).is_absolute());
    assert!(Path::new(mgr.path()).ends_with(Path::new(DEFAULT_CONFIG_PATH)));
    assert_eq!(ConfigManager::new("x.toml").path(), "x.toml");
}

#[test]
fn explicit_terminal_log_dir_resolves_absolute_and_relative() {
    let mut cfg = AppConfig::default();
    cfg.terminal_log_dir = Some("/tmp/tltoolbox-terminal-logs".to_string());
    assert_eq!(
        cfg.effective_terminal_log_dir(Some(EXE_DIR)),
        "/tmp/tltoolbox-terminal-logs",
        "显式绝对路径应原样返回"
    );
    cfg.terminal_log_dir = Some("data/terminal-logs".to_string());
    let effective = cfg.effective_terminal_log_dir(Some(EXE_DIR));
    assert!(Path::new(&effective).is_absolute());
    assert!(Path::new(&effective).ends_with(Path::new("data").join("terminal-logs")));
    assert_eq!(cfg.effective_terminal_log_dir(None), "data/terminal-logs");
}

#[test]
fn resolve_log_directory_anchors_to_exe_dir() {
    let dir = log_directory(Some(EXE_DIR));
    assert_eq!(Path::new(&dir), Path::new(EXE_DIR).join(DEFAULT_LOG_DIR));
    assert_eq!(MAX_LOG_FILES, 15);
}

#[test]
fn missing_file_bootstraps_the_default() {
    let mgr = ConfigManager::new("c.toml");
    let outcome = mgr.load(ReadOutcome::Missing);
    assert!(outcome.save);
    assert_eq!(outcome.config, Ok(AppConfig::default()));
}

#[test]
fn malformed_content_is_reported_and_not_overwritten() {
    let mgr = ConfigManager::new("c.toml");
    let outcome = mgr.load(ReadOutcome::Content(Err("bad".to_string())));
    assert!(!outcome.save);
    let error = outcome.config.unwrap_err();
    assert_eq!(
        error,
        ConfigError::Parse {
            path: "c.toml".to_string(),
            source: "bad".to_string()
        }
    );
    assert_eq!(error.to_string(), "配置文件 'c.toml' 解析失败: bad");
}

#[test]
fn readable_content_is_taken_and_other_failures_are_reported() {
    let mgr = ConfigManager::new("c.toml");
    let mut cfg = AppConfig::default();
    cfg.auto_start_windows = true;
    cfg.module_custom_params = HashMap::from([("popup_blocker".to_string(), "x".to_string())]);
    let outcome = mgr.load(ReadOutcome::Content(Ok(cfg)));
    assert!(!outcome.save);
    assert!(outcome.config.unwrap().auto_start_windows);
    let failed = mgr.load(ReadOutcome::Failed("denied".to_string()));
    assert!(!failed.save);
    assert_eq!(
        failed.config.unwrap_err().to_string(),
        "配置文件 'c.toml' 访问失败: denied"
    );
}

#[test]
fn save_goes_through_a_temporary_file() {
    let mgr = ConfigManager::new("c.toml");
    assert_eq!(mgr.begin_save(Ok(()), true), Ok(SaveStage::CreateDir));
    assert_eq!(mgr.begin_save(Ok(()), false), Ok(SaveStage::WriteTemp));
    assert_eq!(
        mgr.begin_save(Err("key".to_string()), true).unwrap_err().to_string(),
        "配置序列化失败（目标 'c.toml'）: key"
    );
    assert_eq!(SaveStage::CreateDir.advance(true), SaveStage::WriteTemp);
    assert_eq!(SaveStage::CreateDir.advance(false), SaveStage::Failed);
    assert_eq!(SaveStage::WriteTemp.advance(true), SaveStage::Replace);
    assert_eq!(SaveStage::WriteTemp.advance(false), SaveStage::Failed);
    assert_eq!(SaveStage::Replace.advance(true), SaveStage::Saved);
    assert_eq!(SaveStage::Replace.advance(false), SaveStage::DiscardTemp);
    assert_eq!(SaveStage::DiscardTemp.advance(true), SaveStage::Failed);
    assert_eq!(SaveStage::DiscardTemp.advance(false), SaveStage::Failed);
    assert_eq!(SaveStage::Saved.advance(false), SaveStage::Saved);
    assert_eq!(SaveStage::Failed.advance(true), SaveStage::Failed);
    assert_eq!(tmp_file_name("tltoolbox.toml"), "tltoolbox.toml.tmp");
}

#[test]
fn save_errors_name_what_failed() {
    let mgr = ConfigManager::new("d/c.toml");
    let io = |path: &str| ConfigError::Io {
        path: path.to_string(),
        source: "e".to_string(),
    };
    let error =
        |stage: SaveStage| mgr.save_error(stage, "d", "d/c.toml.tmp", "e".to_string());
    assert_eq!(error(SaveStage::CreateDir), io("d"));
    assert_eq!(error(SaveStage::WriteTemp), io("d/c.toml.tmp"));
    assert_eq!(error(SaveStage::Replace), io("d/c.toml"));
}

#[test]
fn icon_map_keeps_one_position_per_name() {
    let mut map = IconMap::new();
    assert_eq!(map.len(), 0);
    map.insert("此电脑".to_string(), IconCoordinate { x: 1, y: 2 });
    map.insert("回收站".to_string(), IconCoordinate { x: 3, y: 4 });
    map.insert("此电脑".to_string(), IconCoordinate { x: 5, y: 6 });
    assert_eq!(map.len(), 2);
    assert_eq!(map.get("此电脑"), Some(IconCoordinate { x: 5, y: 6 }));
    assert_eq!(map.get("回收站"), Some(IconCoordinate { x: 3, y: 4 }));
    assert_eq!(map.get("x"), None);
    let profile = IconLayoutProfile {
        id: "p".to_string(),
        name: "n".to_string(),
        topology_fingerprint: "f".to_string(),
        icon_positions: map,
    };
    assert_eq!(profile.clone(), profile);
    assert_eq!(profile.icon_positions.entries().len(), 2);
}

#[test]
fn icon_maps_are_equal_whatever_the_order_of_insertion() {
    let at = |x: i32| IconCoordinate { x, y: -x };
    let names = ["回收站", "a", "", "b", "ab", "此电脑"];
    let mut forwards = IconMap::new();
    for (i, name) in names.iter().enumerate() {
        forwards.insert(name.to_string(), at(i as i32));
    }
    let mut backwards = IconMap::new();
    for (i, name) in names.iter().enumerate().rev() {
        backwards.insert(name.to_string(), at(7));
        backwards.insert(name.to_string(), at(i as i32));
    }
    assert_eq!(forwards, backwards);
    assert_eq!(forwards.clone(), backwards);
    let listed: Vec<&str> = backwards.entries().iter().map(|entry| entry.name.as_str()).collect();
    assert_eq!(listed, vec!["", "a", "ab", "b", "回收站", "此电脑"]);
    backwards.insert("ab".to_string(), at(9));
    assert_ne!(forwards, backwards);
    forwards.insert("ab".to_string(), at(9));
    assert_eq!(forwards, backwards);
    forwards.insert("c".to_string(), at(9));
    assert_ne!(forwards, backwards);
    assert_ne!(backwards, forwards);
}

#[test]
fn temporary_file_lies_beside_the_file() {
    let tmp = |path: &str| ConfigManager::new(path).tmp_path();
    assert_eq!(tmp("/opt/x/config/tltoolbox.toml"), "/opt/x/config/tltoolbox.toml.tmp");
    assert_eq!(tmp("tltoolbox.toml"), "tltoolbox.toml.tmp");
    assert_eq!(tmp("/tltoolbox.toml"), "/tltoolbox.toml.tmp");
    assert_eq!(tmp("d/.."), "d/../.tmp");
    let manager = ConfigManager::beside_exe(Some(EXE_DIR));
    assert_eq!(
        Path::new(&manager.tmp_path()).parent(),
        Path::new(manager.path()).parent()
    );
}

#[test]
fn bare_names_go_behind_a_verbatim_directory() {
    let dir = "\\\\?\\C:\\Tools";
    let path = log_directory(Some(dir));
    assert_eq!(Path::new(&path), Path::new(dir).join("logs"));
    assert_eq!(path.len(), dir.len() + 1 + "logs".len());
    assert!(path.starts_with(dir) && path.ends_with("logs"));
}

#[test]
fn configuration_is_cloned_in_every_field() {
    let mut config = AppConfig::default();
    config.auto_start_modules.push("keep_awake".to_string());
    config.popup_blacklist.clear();
    config.auto_start_windows = true;
    config.minimize_to_tray = false;
    config.terminal_log_dir = Some("t".to_string());
    config.enabled_shells.push("zsh".to_string());
    config
        .module_custom_params
        .insert("k".to_string(), "v".to_string());
    assert_eq!(config.clone(), config);
    assert_ne!(config.clone(), AppConfig::default());
}

fn no_fields() -> ConfigFields {
    ConfigFields {
        auto_start_modules: None,
        popup_blacklist: None,
        auto_start_windows: None,
        minimize_to_tray: None,
        terminal_log_dir: None,
        enabled_shells: None,
        module_custom_params: None,
    }
}

#[test]
fn missing_fields_have_their_defaults() {
    assert_eq!(no_fields().complete(), AppConfig::default());
    let fields = ConfigFields {
        auto_start_modules: Some(vec!["x".to_string()]),
        auto_start_windows: Some(true),
        ..no_fields()
    };
    let config = fields.complete();
    assert_eq!(config.auto_start_modules, vec!["x".to_string()]);
    assert!(config.auto_start_windows);
    assert_eq!(config.popup_blacklist, AppConfig::default().popup_blacklist);
    assert_eq!(config.enabled_shells, AppConfig::default().enabled_shells);
    assert!(config.minimize_to_tray);
    assert_eq!(config.terminal_log_dir, None);
}

#[test]
fn written_fields_are_read_back() {
    let changed = || AppConfig {
        auto_start_modules: vec!["popup_blocker".to_string(), "fake_module".to_string()],
        popup_blacklist: vec!["弹窗测试关键词".to_string(), "Popup Test Ad".to_string()],
        auto_start_windows: true,
        minimize_to_tray: false,
        terminal_log_dir: Some("terminal-log-roundtrip".to_string()),
        enabled_shells: vec!["powershell".to_string(), "wt".to_string()],
        module_custom_params: HashMap::from([(
            "popup_blocker".to_string(),
            "aggressive".to_string(),
        )]),
    };
    assert_eq!(ConfigFields::written(changed()).complete(), changed());
    assert_eq!(
        ConfigFields::written(AppConfig::default()).complete(),
        AppConfig::default()
    );
    assert_eq!(ConfigFields::written(AppConfig::default()).terminal_log_dir, None);
}

#[test]
fn log_files_are_named_by_day() {
    assert_eq!(log_file_name("2026-09-04"), "tltoolbox.2026-09-04.log");
    assert_eq!(
        log_outputs(false, true),
        LogOutputs {
            file: false,
            console: true
        }
    );
    assert_eq!(directory_failure("/x", "e"), "无法创建日志目录 '/x': e");
    assert_eq!(
        file_failure("/x", "e"),
        "无法打开日志文件 'tltoolbox.YYYY-MM-DD.log'（目录: /x）: e"
    );
    assert_eq!(
        degraded_notice("/x", true, "e"),
        "[tltoolbox] 日志目录初始化失败（/x），本次运行降级为仅控制台、无日志文件输出: e"
    );
    assert_eq!(
        degraded_notice("/x", false, "e"),
        "[tltoolbox] 日志目录初始化失败（/x），本次运行无日志文件输出: e"
    );
}
