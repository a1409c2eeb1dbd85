use std::time::Duration;
use tltoolbox::modules::clipboard_purifier::{
    clipboard_retry_backoff, has_format, listener_handshake, replacement_bytes, replacement_units,
    should_purge, text_units, ClipboardPurifierModule, EchoGuard, ListenerSetup, PumpAction,
    PurgeEvent, PurgeStep, OPEN_CLIPBOARD_MAX_ATTEMPTS, WM_CLIPBOARDUPDATE, WM_QUIT,
};
use tltoolbox::modules::pump::{panic_text, JoinOutcome, PumpHandshake};
use tltoolbox::modules::ToolModule;

#[test]
fn clipboard_purifier_metadata_identity_matches_registry_contract() {
    let module = ClipboardPurifierModule::new();
    assert_eq!(module.id(), "clipboard_purifier");
    assert_eq!(module.display_name(), "剪贴板纯文本净化");
    assert_eq!(
        module.description(),
        "监听系统剪贴板，自动剥离 HTML 与富文本格式，仅保留纯文本"
    );
    assert!(!module.is_running(), "新模块应处于停止态");
}

#[test]
fn clipboard_purifier_lifecycle_start_stop_is_idempotent_and_converges() {
    let mut module = ClipboardPurifierModule::new();
    assert!(!module.is_running());
    for cycle in 1..=3 {
        module.start().expect("启动应成功");
        assert!(module.is_running(), "第 {cycle} 轮启动后应处于运行态");
        module.start().expect("重复启动应幂等成功");
        assert!(module.is_running(), "重复启动不得破坏运行态");
        module.stop().expect("停止应成功");
        assert!(!module.is_running(), "第 {cycle} 轮停止后应退出运行态");
        module.stop().expect("重复停止应幂等成功");
        assert!(!module.is_running(), "重复停止不得破坏停止态");
    }
}

#[test]
fn clipboard_purifier_state_transitions_follow_start_stop_semantics() {
    let mut module = ClipboardPurifierModule::new();
    module.stop().expect("停止态下重复停止应幂等成功");
    assert!(!module.is_running());
    module.start().expect("首次启动应成功");
    assert!(module.is_running());
    module.stop().expect("停止应成功");
    assert!(!module.is_running());
    module.start().expect("再次启动应成功");
    assert!(module.is_running());
    module.stop().expect("收尾停止应成功");
    assert!(!module.is_running());
}

#[test]
fn repeated_start_stop_cycles_converge() {
    let mut module = ClipboardPurifierModule::default();
    for cycle in 0..50 {
        module.start().unwrap();
        assert!(module.is_running(), "第 {cycle} 轮启动后应为运行态");
        module.stop().unwrap();
        assert!(!module.is_running(), "第 {cycle} 轮停止后应为停止态");
    }
}

#[test]
fn should_purge_requires_text_plus_rich_format() {
    assert!(
        should_purge(true, true, false),
        "CF_UNICODETEXT + CF_HTML 应净化"
    );
    assert!(
        should_purge(true, false, true),
        "CF_UNICODETEXT + RTF 应净化"
    );
    assert!(should_purge(true, true, true), "全部格式齐备应净化");
    assert!(!should_purge(true, false, false), "仅纯文本不得净化");
    assert!(!should_purge(false, true, false), "仅 HTML 无文本不得净化");
    assert!(!should_purge(false, false, true), "仅 RTF 无文本不得净化");
    assert!(!should_purge(false, false, false), "空剪贴板不得净化");
}

#[test]
fn echo_guard_skips_exactly_the_next_update_after_arming() {
    let mut guard = EchoGuard::new();
    assert!(!guard.on_clipboard_update());
    assert!(!guard.on_clipboard_update());
    guard.arm_after_rewrite();
    assert!(guard.armed);
    assert!(
        guard.on_clipboard_update(),
        "布防后的下一条更新应被当作回声跳过"
    );
    assert!(!guard.armed, "回声被消费后标记应解除");
    guard.arm_after_rewrite();
    assert!(guard.on_clipboard_update());
    assert!(!guard.on_clipboard_update(), "连续更新只应跳过一条");
}

#[test]
fn echo_guard_arms_only_after_actual_rewrite() {
    let mut guard = EchoGuard::new();
    assert!(!guard.on_clipboard_update());
    assert!(!guard.armed, "无写回则不得布防");
    assert!(!guard.on_clipboard_update());
    guard.settle(false);
    assert!(!guard.armed);
    guard.settle(true);
    assert!(guard.armed);
}

#[test]
fn open_clipboard_retry_backoff_follows_sequence_then_exhausts() {
    let backoff = |index: usize| clipboard_retry_backoff(index).map(Duration::from_millis);
    assert_eq!(
        backoff(0),
        Some(Duration::from_millis(15)),
        "第 1 次重试退避 15ms"
    );
    assert_eq!(backoff(1), Some(Duration::from_millis(30)));
    assert_eq!(backoff(2), Some(Duration::from_millis(60)));
    assert_eq!(backoff(3), Some(Duration::from_millis(120)));
    assert_eq!(backoff(4), None, "重试序列耗尽（第 5 次尝试后）不再退避");
    assert_eq!(backoff(usize::MAX), None);
}

#[test]
fn text_ends_at_the_first_zero() {
    assert_eq!(text_units(&[65, 66, 0, 67]), vec![65, 66]);
    assert_eq!(text_units(&[65, 66]), vec![65, 66]);
    assert_eq!(text_units(&[0, 65]), Vec::<u16>::new());
    assert_eq!(text_units(&[]), Vec::<u16>::new());
    assert_eq!(replacement_bytes(2), Some(6));
    assert_eq!(replacement_bytes(usize::MAX), None);
    assert_eq!(replacement_bytes(usize::MAX / 2), None);
    assert!(has_format(1, true));
    assert!(!has_format(0, true));
    assert!(!has_format(1, false));
}

fn advance(events: &[PurgeEvent]) -> PurgeStep {
    let mut step = PurgeStep::first();
    for event in events {
        step = step.advance(event);
    }
    step
}

fn rich() -> PurgeEvent {
    PurgeEvent::Formats {
        text: true,
        html: true,
        rich_text: false,
    }
}

#[test]
fn reduction_replaces_the_content_and_closes() {
    let events = vec![
        PurgeEvent::Opened(true),
        rich(),
        PurgeEvent::Text(Some(vec![72, 105, 0, 9])),
        PurgeEvent::Allocated(true),
        PurgeEvent::Filled(true),
        PurgeEvent::Emptied(true),
        PurgeEvent::Stored(true),
        PurgeEvent::Closed,
    ];
    assert_eq!(advance(&events[..3]), PurgeStep::Allocate { bytes: 6 });
    assert_eq!(replacement_units(&[72, 105, 0, 9]), vec![72, 105, 0]);
    assert_eq!(advance(&events[..5]), PurgeStep::Empty);
    assert_eq!(advance(&events[..7]), PurgeStep::Close { rewritten: true });
    assert_eq!(advance(&events), PurgeStep::Done { rewritten: true });
}

#[test]
fn reduction_gives_up_after_bounded_attempts() {
    let mut step = PurgeStep::first();
    let mut waited = 0;
    let mut attempts = 0;
    loop {
        step = match step {
            PurgeStep::Open { .. } => {
                attempts += 1;
                step.advance(&PurgeEvent::Opened(false))
            }
            PurgeStep::Wait { attempt } => {
                waited += clipboard_retry_backoff(attempt).unwrap();
                step.advance(&PurgeEvent::Waited)
            }
            _ => break,
        };
    }
    assert_eq!(step, PurgeStep::Done { rewritten: false });
    assert_eq!(attempts, OPEN_CLIPBOARD_MAX_ATTEMPTS);
    assert_eq!(waited, 225);
}

#[test]
fn reduction_leaves_plain_or_empty_content_alone() {
    let plain = PurgeEvent::Formats {
        text: true,
        html: false,
        rich_text: false,
    };
    let close = PurgeStep::Close { rewritten: false };
    assert_eq!(advance(&[PurgeEvent::Opened(true), plain]), close);
    assert_eq!(
        advance(&[PurgeEvent::Opened(true), rich(), PurgeEvent::Text(Some(vec![0, 1]))]),
        close
    );
    assert_eq!(
        advance(&[PurgeEvent::Opened(true), rich(), PurgeEvent::Text(None)]),
        close
    );
}

#[test]
fn failed_reduction_frees_its_block_before_closing() {
    for (step, event) in [
        (PurgeStep::Fill, PurgeEvent::Filled(false)),
        (PurgeStep::Empty, PurgeEvent::Emptied(false)),
        (PurgeStep::Store, PurgeEvent::Stored(false)),
    ] {
        assert_eq!(step.advance(&event), PurgeStep::Release);
    }
    let close = PurgeStep::Close { rewritten: false };
    assert_eq!(PurgeStep::Release.advance(&PurgeEvent::Released), close);
    assert_eq!(
        PurgeStep::Allocate { bytes: 4 }.advance(&PurgeEvent::Allocated(false)),
        close
    );
    assert_eq!(close.advance(&PurgeEvent::Opened(true)), close);
}

#[test]
fn clipboard_pump_reports_in_its_own_words() {
    let mut module = ClipboardPurifierModule::new();
    assert_eq!(
        module.settle_start(PumpHandshake::Interrupted),
        Err("剪贴板净化模块启动握手被中断".to_string())
    );
    module.settle_start(PumpHandshake::Ready(5)).unwrap();
    assert_eq!(module.pump().thread_id(), Some(5));
    assert_eq!(
        module.settle_stop(JoinOutcome::Panicked("p".to_string())),
        Err("剪贴板净化泵线程异常终止: p".to_string())
    );
    module.settle_start(PumpHandshake::Ready(6)).unwrap();
    assert_eq!(
        module.settle_stop(JoinOutcome::WaitFailed("w".to_string())),
        Err("剪贴板净化 Join 阻塞任务异常终止: w".to_string())
    );
}

#[test]
fn replacement_keeps_the_text() {
    let view = [72, 105, 0, 9, 9];
    let block = replacement_units(&view);
    assert_eq!(block, vec![72, 105, 0]);
    assert_eq!(text_units(&block), text_units(&view));
    assert_eq!(replacement_units(&block), block);
    assert_eq!(replacement_bytes(text_units(&view).len()), Some(block.len() * 2));
}

#[test]
fn messages_lead_to_reductions_but_for_echoes() {
    let mut guard = EchoGuard::new();
    assert_eq!(guard.on_message(WM_CLIPBOARDUPDATE), PumpAction::Reduce);
    guard.settle(true);
    assert_eq!(guard.on_message(0x400), PumpAction::Skip);
    assert!(guard.armed);
    assert_eq!(guard.on_message(WM_CLIPBOARDUPDATE), PumpAction::Skip);
    assert_eq!(guard.on_message(WM_CLIPBOARDUPDATE), PumpAction::Reduce);
    assert_eq!(guard.on_message(WM_QUIT), PumpAction::Quit);
}

#[test]
fn listener_reports_how_it_came_up() {
    assert_eq!(
        listener_handshake(ListenerSetup::Listening(9)),
        PumpHandshake::Ready(9)
    );
    assert_eq!(
        listener_handshake(ListenerSetup::NoWindow("e".to_string())),
        PumpHandshake::Failed(
            "CreateWindowExW 创建纯消息窗口失败（可能处于无桌面会话）: e".to_string()
        )
    );
    assert_eq!(
        listener_handshake(ListenerSetup::NotListening("e".to_string())),
        PumpHandshake::Failed("AddClipboardFormatListener 注册剪贴板监听失败: e".to_string())
    );
    assert_eq!(panic_text(Some("x".to_string())), "x");
    assert_eq!(panic_text(None), "未知 panic 载荷");
}
