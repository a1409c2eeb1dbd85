use tltoolbox::modules::popup_blocker::{
    decide_window, hook_handshake, is_window_creation, CaptureRecord, PopupBlockerModule, RuleSet, RuleStore,
    ScreenshotState, WindowAction, EVENT_OBJECT_CREATE, MAX_CAPTURE_RECORDS,
};
use tltoolbox::modules::pump::{JoinOutcome, PumpHandshake};
use tltoolbox::modules::ToolModule;

fn rules(list: &[&str]) -> Vec<String> {
    list.iter().map(|s| s.to_string()).collect()
}

#[test]
fn popup_blocker_lifecycle_start_stop_is_idempotent_and_converges() {
    let mut module = PopupBlockerModule::new();
    assert!(!module.is_running());
    for cycle in 1..=3 {
        module.start().expect("启动应成功");
        assert!(module.is_running(), "第 {cycle} 轮启动后应处于运行态");
        module.start().expect("重复启动应幂等成功");
        assert!(module.is_running());
        module.stop().expect("停止应成功");
        assert!(!module.is_running(), "第 {cycle} 轮停止后应退出运行态");
        module.stop().expect("重复停止应幂等成功");
        assert!(!module.is_running());
    }
}

#[test]
fn rule_set_matches_substring_case_insensitively() {
    let rules = RuleSet::compile(&rules(&[
        "广告",
        "Flash Helper Service",
        "Update Notice",
        "推广弹窗",
    ]));
    assert!(rules.matches("今日推广弹窗已拦截", "SomeClass"));
    assert!(rules.matches("普通标题", "广告专用窗口类"));
    assert!(rules.matches("FLASH HELPER SERVICE 正在运行", "#32770"));
    assert!(rules.matches("请查看 update notice", "Chrome_WidgetWin_1"));
    assert!(!rules.matches("Steam 下载中", "Chrome_WidgetWin_1"));
    assert!(!rules.matches("", ""));
}

#[test]
fn empty_rule_set_blocks_nothing() {
    let rules = RuleSet::default();
    assert!(rules.is_empty());
    assert!(!rules.matches("广告", ""));
    assert!(!rules.matches("", "Flash Helper Service"));
    assert!(!rules.matches("", ""));
}

#[test]
fn rule_set_compile_normalizes_trims_and_dedups() {
    let rules = RuleSet::compile(&rules(&[
        "  广告  ",
        "广告",
        "",
        "   ",
        "Flash Helper Service",
        "flash helper service",
    ]));
    assert_eq!(
        rules.raw_keywords(),
        vec!["广告".to_string(), "Flash Helper Service".to_string()],
        "应保留首现形态并按序去重"
    );
    assert!(!rules.is_empty());
}

#[test]
fn rule_store_set_swaps_snapshot_immediately() {
    let mut store = RuleStore::new(&rules(&["广告"]));
    let before = store.snapshot();
    assert!(before.matches("xx广告xx", ""));
    assert!(!before.matches("推广弹窗", ""));

    store.set(&rules(&["推广弹窗", "Update Notice"]));
    let after = store.snapshot();
    assert!(after.matches("请查看 Update Notice", ""));
    assert!(after.matches("推广弹窗", ""));
    assert!(!after.matches("xx广告xx", ""), "删除的关键词应立即失效");
    assert!(before.matches("xx广告xx", ""));

    store.set(&[]);
    assert!(store.snapshot().is_empty());
    assert!(!store.snapshot().matches("Update Notice", ""));
}

#[test]
fn update_rules_takes_effect_while_running_without_restart() {
    let mut module = PopupBlockerModule::with_rules(&rules(&["广告"]));
    assert_eq!(module.current_rules(), vec!["广告".to_string()]);
    module.start().expect("启动应成功");
    assert!(module.is_running());
    module.update_rules(&rules(&[
        "  Flash Helper Service  ",
        "推广弹窗",
        "广告",
        "广告",
    ]));
    assert!(module.is_running(), "热更新不得影响泵线程运行状态");
    assert_eq!(
        module.current_rules(),
        vec![
            "Flash Helper Service".to_string(),
            "推广弹窗".to_string(),
            "广告".to_string(),
        ]
    );
    let snapshot = module.rules();
    assert!(snapshot.matches("FLASH HELPER SERVICE", ""));
    assert!(snapshot.matches("xx推广弹窗xx", ""));
    assert!(!snapshot.matches("普通窗口内容", "Edit"), "无关窗口不得误伤");
    assert!(!snapshot.matches("", ""));
    module.stop().expect("停止应成功");
    assert!(!module.is_running());
}

fn sample_record(name: &str) -> CaptureRecord {
    CaptureRecord {
        file_name: name.to_string(),
        title: format!("标题-{name}"),
        class_name: "SampleClass".to_string(),
        captured_at: "2026-09-04 12:00:00".to_string(),
        path: format!("/tmp/{name}"),
    }
}

#[test]
fn screenshot_state_snapshot_is_newest_first() {
    let mut state = ScreenshotState::new("/tmp".to_string());
    assert!(state.snapshot().is_empty(), "初始留痕应为空");
    state.record(sample_record("a.png"));
    state.record(sample_record("b.png"));
    state.record(sample_record("c.png"));
    let snapshot = state.snapshot();
    assert_eq!(snapshot.len(), 3);
    assert_eq!(snapshot[0].file_name, "c.png", "最新记录应在最前");
    assert_eq!(snapshot[2].file_name, "a.png", "最早记录应在最后");
}

#[test]
fn screenshot_state_records_are_capped_at_max() {
    let mut state = ScreenshotState::new("/tmp".to_string());
    for i in 0..(MAX_CAPTURE_RECORDS + 10) {
        state.record(sample_record(&format!("{i}.png")));
    }
    let snapshot = state.snapshot();
    assert_eq!(
        snapshot.len(),
        MAX_CAPTURE_RECORDS,
        "留痕记录应被截断至上限"
    );
    assert_eq!(snapshot[0].file_name, "59.png");
    assert_eq!(snapshot[49].file_name, "10.png");
}

#[test]
fn capture_version_counts_records() {
    let mut state = ScreenshotState::new("/tmp".to_string());
    assert_eq!(state.version(), 0, "初始版本号应为 0");
    state.record(sample_record("a.png"));
    assert_eq!(state.version(), 1);
}

#[test]
fn capture_names_count_up() {
    let mut state = ScreenshotState::new("/tmp".to_string());
    assert_eq!(
        state.next_file_name("20260904_120000"),
        "popup_20260904_120000_000000.png"
    );
    assert_eq!(
        state.next_file_name("20260904_120000"),
        "popup_20260904_120000_000001.png"
    );
    assert_eq!(state.version(), 0);
    assert_eq!(state.dir(), "/tmp");
}

#[test]
fn screenshot_dir_contract_reflects_constructor() {
    let mut enabled = PopupBlockerModule::with_rules_and_screenshot_dir(
        &rules(&["广告"]),
        Some("C:/shots".to_string()),
    );
    assert_eq!(enabled.screenshot_dir(), Some("C:/shots".to_string()));
    assert_eq!(enabled.current_rules(), vec!["广告".to_string()]);
    assert!(enabled.captures().is_empty(), "尚未拦截时留痕应为空");
    assert_eq!(enabled.captures_version(), Some(0));
    enabled
        .screenshots_mut()
        .unwrap()
        .record(sample_record("a.png"));
    assert_eq!(enabled.captures().len(), 1);
    assert_eq!(enabled.captures_version(), Some(1));

    let mut disabled = PopupBlockerModule::new();
    assert_eq!(disabled.screenshot_dir(), None, "未启用时目录应为 None");
    assert!(disabled.captures().is_empty());
    assert_eq!(disabled.captures_version(), None);
    assert!(disabled.screenshots_mut().is_none());
}

#[test]
fn only_created_windows_count() {
    assert!(is_window_creation(EVENT_OBJECT_CREATE, 1, 0, 0));
    assert!(!is_window_creation(0x8001, 1, 0, 0));
    assert!(!is_window_creation(EVENT_OBJECT_CREATE, 0, 0, 0));
    assert!(!is_window_creation(EVENT_OBJECT_CREATE, 1, -4, 0));
    assert!(!is_window_creation(EVENT_OBJECT_CREATE, 1, 0, 2));
}

#[test]
fn matching_windows_are_closed_with_or_without_capture() {
    let set = RuleSet::compile(&rules(&["ad"]));
    assert_eq!(decide_window(&set, "An AD", "x", true), WindowAction::CaptureAndClose);
    assert_eq!(decide_window(&set, "x", "Ads", false), WindowAction::Close);
    assert_eq!(decide_window(&set, "x", "y", true), WindowAction::Ignore);
    assert!(set.matches_lowered("bad", ""));
    assert!(!set.matches_lowered("BAD", ""));
}

#[test]
fn compiling_keywords_again_changes_nothing() {
    let first = RuleSet::compile(&rules(&[" A ", "b", "B", "", "ÄÖ", "äö"]));
    let again = RuleSet::compile(&first.raw_keywords());
    assert_eq!(first, again);
    assert_eq!(first.raw_keywords(), rules(&["A", "b", "ÄÖ"]));
}

#[test]
fn pump_failures_are_reported_and_leave_the_module_stopped() {
    let mut module = PopupBlockerModule::new();
    assert_eq!(
        module.settle_start(PumpHandshake::Failed("no desktop".to_string())),
        Err("no desktop".to_string())
    );
    assert_eq!(
        module.settle_start(PumpHandshake::Interrupted),
        Err("弹窗拦截模块启动握手被中断".to_string())
    );
    assert!(!module.is_running());
    assert_eq!(module.settle_start(PumpHandshake::Ready(77)), Ok(()));
    assert_eq!(module.pump().thread_id(), Some(77));
    assert_eq!(module.settle_start(PumpHandshake::Ready(78)), Ok(()));
    assert_eq!(module.pump().thread_id(), Some(77));
    assert_eq!(
        module.settle_stop(JoinOutcome::Panicked("boom".to_string())),
        Err("弹窗拦截泵线程异常终止: boom".to_string())
    );
    assert!(!module.is_running());
    module.settle_start(PumpHandshake::Ready(1)).unwrap();
    assert_eq!(
        module.settle_stop(JoinOutcome::WaitFailed("gone".to_string())),
        Err("弹窗拦截 Join 阻塞任务异常终止: gone".to_string())
    );
    module.settle_start(PumpHandshake::Ready(1)).unwrap();
    assert_eq!(module.settle_stop(JoinOutcome::TimedOut), Ok(()));
    assert!(!module.is_running());
    assert_eq!(module.settle_stop(JoinOutcome::Panicked("late".to_string())), Ok(()));
    assert_eq!(module.id(), "popup_blocker");
    assert_eq!(module.display_name(), "桌面弹窗拦截");
    assert_eq!(
        module.description(),
        "通过 Win32 原生事件钩子毫秒级拦截广告弹窗与流氓进程窗口"
    );
}

#[test]
fn missing_hook_is_reported() {
    assert_eq!(hook_handshake(1, 5), PumpHandshake::Ready(5));
    assert_eq!(
        hook_handshake(0, 5),
        PumpHandshake::Failed(
            "SetWinEventHook 安装失败：句柄为空（可能缺少必要权限或处于无桌面会话）".to_string()
        )
    );
}

#[test]
fn screenshot_state_version_channel_wakes_subscriber() {
    let mut state = ScreenshotState::new("/tmp".to_string());
    let mut rx = state.subscribe();
    assert_eq!(*rx.borrow_and_update(), 0, "初始版本号应为 0");
    assert_eq!(rx.has_changed().ok(), Some(false));
    state.record(sample_record("a.png"));
    assert_eq!(rx.has_changed().ok(), Some(true), "发送端自增后订阅者应被唤醒");
    assert_eq!(*rx.borrow_and_update(), 1);
    let late = state.subscribe();
    assert_eq!(*late.borrow(), 1);
}

#[test]
fn captures_without_subscribers_still_count() {
    let mut module = PopupBlockerModule::with_rules_and_screenshot_dir(
        &rules(&[]),
        Some("/tmp".to_string()),
    );
    module.screenshots_mut().unwrap().record(sample_record("a.png"));
    module.screenshots_mut().unwrap().record(sample_record("b.png"));
    assert_eq!(*module.captures_watch().borrow(), 2);
    let plain = PopupBlockerModule::new();
    assert!(plain.captures_watch().has_changed().is_err());
    assert_eq!(*plain.captures_watch().borrow(), 0);
}

#[test]
fn jobs_are_recorded_only_where_a_picture_was_taken() {
    let mut state = ScreenshotState::new("/tmp/pictures".to_string());
    let first = state.next_file_name("20260102_030405");
    let second = state.next_file_name("20260102_030405");
    assert_ne!(first, second);
    let path = state.picture_path(&first);
    assert_eq!(path, "/tmp/pictures/popup_20260102_030405_000000.png");
    let settle = |state: &mut ScreenshotState, name: &str, captured: bool| {
        state.settle_capture(
            name.to_string(),
            "title".to_string(),
            "class".to_string(),
            "2026-01-02 03:04:05".to_string(),
            captured,
        );
    };
    settle(&mut state, &second, false);
    assert!(state.snapshot().is_empty());
    assert_eq!(state.version(), 0);
    settle(&mut state, &first, true);
    assert_eq!(state.version(), 1);
    assert_eq!(
        state.snapshot(),
        vec![CaptureRecord {
            file_name: first,
            title: "title".to_string(),
            class_name: "class".to_string(),
            captured_at: "2026-01-02 03:04:05".to_string(),
            path,
        }]
    );
    for i in 0..60 {
        settle(&mut state, &format!("{i}"), true);
    }
    assert_eq!(state.snapshot().len(), 50);
    assert_eq!(state.snapshot()[0].file_name, "59");
    assert_eq!(state.snapshot()[49].file_name, "10");
}
