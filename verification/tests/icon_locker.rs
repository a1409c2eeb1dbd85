use std::time::Duration;
use tltoolbox::bus::{AppEvent, EventBus};
use tltoolbox::config::{IconCoordinate, IconLayoutProfile, IconMap, IconPosition};
use tltoolbox::modules::icon_locker::daemon::{
    current_topology_fingerprint, extent, monitor_of, settle_window, topology_fingerprint,
    watch_action, MonitorRect, WatchAction, WindowCreated, DEBOUNCE_TIMER_ID, DISPLAY_DEBOUNCE_MS, STOP_JOIN_TIMEOUT_MS,
    WM_CLOSE, WM_DESTROY, WM_DISPLAYCHANGE, WM_TIMER,
};
use tltoolbox::modules::icon_locker::explorer::{
    apartment_of, capture_layout, com_failure, layout_of, plan_placements, restore_layout,
    Apartment, DesktopLayout, ExplorerError, RPC_E_CHANGED_MODE,
};
use tltoolbox::modules::icon_locker::{
    profile_matches_topology, AutoRestore, IconLockerModule,
};
use tltoolbox::modules::ToolModule;

fn sample_profile(id: &str, name: &str) -> IconLayoutProfile {
    let mut icon_positions = IconMap::new();
    icon_positions.insert("此电脑".to_string(), IconCoordinate { x: 10, y: 20 });
    IconLayoutProfile {
        id: id.into(),
        name: name.into(),
        topology_fingerprint: "P:0,0,2560x1440".into(),
        icon_positions,
    }
}

fn three_monitors() -> [MonitorRect; 3] {
    [
        MonitorRect {
            primary: false,
            left: -1920,
            top: 0,
            width: 1920,
            height: 1080,
        },
        MonitorRect {
            primary: true,
            left: 0,
            top: 0,
            width: 2560,
            height: 1440,
        },
        MonitorRect {
            primary: false,
            left: 2560,
            top: 0,
            width: 1920,
            height: 1080,
        },
    ]
}

#[test]
fn primary_and_geometry_order_is_stable() {
    let mut monitors = three_monitors();
    assert_eq!(
        topology_fingerprint(&mut monitors),
        "P:0,0,2560x1440|S:-1920,0,1920x1080|S:2560,0,1920x1080"
    );
}

#[test]
fn fingerprint_does_not_depend_on_the_order() {
    let expected = topology_fingerprint(&mut three_monitors());
    let mut rotated = three_monitors();
    rotated.rotate_left(1);
    assert_eq!(topology_fingerprint(&mut rotated), expected);
    rotated.reverse();
    assert_eq!(topology_fingerprint(&mut rotated), expected);
    assert!(rotated[0].primary);
    let mut other = three_monitors();
    other[2].height = 1081;
    assert_ne!(topology_fingerprint(&mut other), expected);
    assert_eq!(topology_fingerprint(&mut []), "");
    assert_eq!(current_topology_fingerprint(), "");
}

#[test]
fn monitors_never_have_negative_extent() {
    assert_eq!(extent(-5, 7), 12);
    assert_eq!(extent(7, -5), 0);
    assert_eq!(extent(i32::MIN, i32::MAX), u32::MAX);
    assert_eq!(
        monitor_of(true, -10, 5, 20, 3),
        MonitorRect {
            primary: true,
            left: -10,
            top: 5,
            width: 30,
            height: 0
        }
    );
}

#[test]
fn debounce_window_is_exactly_1500ms() {
    assert_eq!(
        Duration::from_millis(DISPLAY_DEBOUNCE_MS),
        Duration::from_millis(1500)
    );
}

#[test]
fn stop_join_timeout_is_bounded() {
    let timeout = Duration::from_millis(STOP_JOIN_TIMEOUT_MS);
    assert!(
        timeout <= Duration::from_secs(5),
        "停机 join 上限必须足够短，否则 async 上下文的 stop() 仍会长时间阻塞收尾"
    );
    assert!(!timeout.is_zero(), "上限不得为 0（否则永不等待）");
}

#[test]
fn window_messages_lead_to_their_actions() {
    assert_eq!(
        watch_action(WM_DISPLAYCHANGE, 0),
        WatchAction::ArmTimer { after_ms: 1500 }
    );
    assert_eq!(watch_action(WM_TIMER, DEBOUNCE_TIMER_ID), WatchAction::Report);
    assert_eq!(watch_action(WM_TIMER, 1), WatchAction::Default);
    assert_eq!(watch_action(WM_CLOSE, 0), WatchAction::DestroyWindow);
    assert_eq!(watch_action(WM_DESTROY, 0), WatchAction::Quit);
    assert_eq!(watch_action(0x0F, 0), WatchAction::Default);
}

#[test]
fn coordinates_compare_exactly() {
    let a = IconCoordinate { x: 10, y: 20 };
    assert_eq!(a, IconCoordinate { x: 10, y: 20 });
    assert_ne!(a, IconCoordinate { x: 10, y: 21 });
}

#[test]
fn profile_lifecycle_is_keyed_by_id() {
    let mut module = IconLockerModule::new(vec![sample_profile("a", "A")]);
    assert!(module.remove_profile("a"));
    assert!(!module.remove_profile("a"));
}

#[test]
fn auto_restore_defaults_on_and_settable() {
    let mut module = IconLockerModule::new(Vec::new());
    assert!(module.auto_restore(), "自动还原默认应开启");
    module.set_auto_restore(false);
    assert!(!module.auto_restore());
    assert!(!IconLockerModule::new(Vec::new())
        .with_auto_restore(false)
        .auto_restore());
}

#[test]
fn pick_auto_restore_prefers_active_then_newest() {
    let mut module = IconLockerModule::new(vec![
        sample_profile("old", "旧方案"),
        sample_profile("new", "新方案"),
    ]);
    assert_eq!(
        module.pick_auto_restore_profile().map(|p| p.id),
        Some("new".into()),
        "无活动方案时回退到最新保存"
    );
    module.activate("old");
    assert_eq!(
        module.pick_auto_restore_profile().map(|p| p.id),
        Some("old".into()),
        "优先还原最近活动方案"
    );
    module.activate("gone");
    assert_eq!(
        module.pick_auto_restore_profile().map(|p| p.id),
        Some("new".into())
    );
}

#[test]
fn restore_without_profile_is_a_clear_error() {
    let mut module = IconLockerModule::new(Vec::new());
    let err = module
        .restore_active()
        .expect_err("无方案时应报错而非静默成功");
    assert!(err.contains("尚无已保存的布局方案"));
}

#[test]
fn topology_fingerprint_must_match_exactly() {
    let saved = "P:0,0,2560x1440|S:-1920,0,1920x1080";
    assert!(
        profile_matches_topology(saved, saved),
        "拓扑一致（如外接屏重新插回）应允许还原"
    );
    assert!(
        !profile_matches_topology(saved, "P:0,0,1920x1080"),
        "拓扑不一致（换了显示器 / 改了分辨率）必须跳过还原"
    );
    assert!(
        !profile_matches_topology("", "P:0,0,1920x1080"),
        "空指纹视为来源不明，不得应用"
    );
    assert!(!profile_matches_topology("", ""), "双方皆空同样视为不匹配");
    assert!(!profile_matches_topology(
        "P:0,0,2560x1440",
        "p:0,0,2560x1440"
    ));
}

#[test]
fn restore_active_skips_on_topology_mismatch() {
    let bus = EventBus::new(4);
    let mut rx = bus.subscribe();
    let mut profile = sample_profile("mismatched", "外接屏方案");
    profile.topology_fingerprint = "S:99999,99999,1x1".into();
    let mut module = IconLockerModule::new(vec![profile]).with_bus(Some(bus));
    module.activate("mismatched");
    let outcome = module.restore_active();
    assert!(
        outcome.is_ok(),
        "拓扑不匹配应跳过而非报错，实际: {outcome:?}"
    );
    assert_eq!(
        rx.try_recv(),
        Ok(AppEvent::ToastRequested(
            "显示器拓扑与方案「外接屏方案」不一致，未自动还原（方案对应 其他显示器布局）".to_string()
        ))
    );
}

#[test]
fn layout_is_restored_only_on_its_own_monitors() {
    let mut blank = sample_profile("b", "空");
    blank.topology_fingerprint = String::new();
    let mut module = IconLockerModule::new(vec![sample_profile("a", "甲"), blank]);
    match module.plan_auto_restore("P:0,0,2560x1440") {
        AutoRestore::OtherMonitors { toast } => assert_eq!(
            toast,
            AppEvent::ToastRequested(
                "显示器拓扑与方案「空」不一致，未自动还原（方案对应 的拓扑信息缺失）".to_string()
            )
        ),
        _ => panic!("空指纹不得还原"),
    }
    module.activate("a");
    match module.plan_auto_restore("P:0,0,2560x1440") {
        AutoRestore::Restore { profile } => assert_eq!(profile, sample_profile("a", "甲")),
        _ => panic!("同一拓扑应还原"),
    }
    assert!(matches!(
        IconLockerModule::new(Vec::new()).plan_auto_restore("x"),
        AutoRestore::NoProfile
    ));
}

#[test]
fn saved_layout_becomes_active_and_removal_clears_it() {
    let mut module = IconLockerModule::new(vec![sample_profile("x", "X")]);
    let items = vec![IconPosition {
        name: "a".to_string(),
        at: IconCoordinate { x: 1, y: 2 },
    }];
    let saved = module.save_profile("新".to_string(), 1234, "F".to_string(), layout_of(&items));
    assert_eq!(saved.id, "profile-1234");
    assert_eq!(saved.icon_positions.get("a"), Some(IconCoordinate { x: 1, y: 2 }));
    assert_eq!(module.profiles().len(), 2);
    assert_eq!(module.pick_auto_restore_profile(), Some(saved.clone()));
    assert_eq!(module.find_profile("profile-1234"), Ok(saved));
    assert!(module.remove_profile("profile-1234"));
    assert_eq!(
        module.pick_auto_restore_profile().map(|p| p.id),
        Some("x".to_string())
    );
    assert_eq!(
        module.find_profile("profile-1234"),
        Err("未找到布局方案: profile-1234".to_string())
    );
}

#[test]
fn portable_icon_operations_are_refused() {
    let mut module = IconLockerModule::new(vec![sample_profile("x", "X")]);
    assert_eq!(
        module.capture_profile("n".to_string(), 1),
        Err("桌面图标布局仅支持 Windows".to_string())
    );
    assert_eq!(
        module.restore_profile("x"),
        Err("桌面图标布局仅支持 Windows".to_string())
    );
    assert_eq!(
        module.restore_profile("y"),
        Err("未找到布局方案: y".to_string())
    );
    assert_eq!(capture_layout(), Err(ExplorerError::Unsupported));
    let layout = DesktopLayout { positions: IconMap::new() };
    assert_eq!(restore_layout(&layout), Err(ExplorerError::Unsupported));
    assert_eq!(DesktopLayout::default(), layout);
    assert_eq!(layout.clone(), layout);
}

#[test]
fn restoring_puts_every_known_icon_back() {
    let item = |name: &str, x: i32| IconPosition {
        name: name.to_string(),
        at: IconCoordinate { x, y: -x },
    };
    let layout = layout_of(&[item("a", 1), item("b", 2), item("a", 3)]);
    let names = vec!["c".to_string(), "b".to_string(), "a".to_string()];
    assert_eq!(
        plan_placements(&layout, &names),
        vec![
            (1, IconCoordinate { x: 2, y: -2 }),
            (2, IconCoordinate { x: 3, y: -3 })
        ]
    );
}

#[test]
fn shell_failures_carry_step_and_code() {
    let error = com_failure("FindWindowSW(SWC_DESKTOP)", 0x8000_4005, "failed");
    assert_eq!(
        error.to_string(),
        "Shell COM 操作失败: FindWindowSW(SWC_DESKTOP)(HRESULT=0x80004005): failed"
    );
    assert_eq!(
        com_failure("s", 0xAB, "m"),
        ExplorerError::Com("s(HRESULT=0x000000AB): m".to_string())
    );
    assert_eq!(ExplorerError::Unsupported.to_string(), "桌面图标布局仅支持 Windows");
    assert_eq!(apartment_of(0), Apartment::Owned);
    assert_eq!(apartment_of(1), Apartment::Owned);
    assert_eq!(apartment_of(0x8001_0106u32 as i32), Apartment::Borrowed);
    assert_eq!(apartment_of(RPC_E_CHANGED_MODE), Apartment::Borrowed);
    assert_eq!(apartment_of(-1), Apartment::Failed);
}

#[test]
fn icon_locker_acts_on_changes_only_while_running_and_allowed() {
    let mut module = IconLockerModule::new(Vec::new());
    assert_eq!(module.id(), "icon_locker");
    assert_eq!(module.display_name(), "桌面图标布局锁");
    assert_eq!(module.description(), "保存并自动还原多显示器桌面图标布局");
    assert!(!module.acts_on_change());
    assert_eq!(
        module.settle_start(Err("x".to_string())),
        Err("显示器守护线程启动失败: x".to_string())
    );
    assert!(!module.is_running());
    module.start().unwrap();
    module.start().unwrap();
    assert!(module.acts_on_change());
    assert_eq!(module.settle_start(Err("x".to_string())), Ok(()));
    module.set_auto_restore(false);
    assert!(!module.acts_on_change());
    module.stop().unwrap();
    module.stop().unwrap();
    assert!(!module.is_running());
    assert_eq!(
        IconLockerModule::restore_failure_toast(),
        AppEvent::ToastRequested(
            "图标布局自动还原失败：若图标被系统弹回，请排查桌面右键「自动排列图标」".to_string()
        )
    );
}

#[test]
fn missing_window_is_a_failure() {
    assert_eq!(
        settle_window(WindowCreated::Handle {
            hwnd: 7,
            last_error: 0
        }),
        Ok(7)
    );
    assert_eq!(
        settle_window(WindowCreated::Handle {
            hwnd: 0,
            last_error: 1400
        }),
        Err("CreateWindowExW 返回空窗口句柄（Win32 错误码 1400）".to_string())
    );
    assert_eq!(
        settle_window(WindowCreated::Refused("x".to_string())),
        Err("CreateWindowExW 失败: x".to_string())
    );
    assert_eq!(
        settle_window(WindowCreated::ThreadEnded),
        Err("显示器守护线程在回报初始化结果前退出（通道关闭）".to_string())
    );
}

#[test]
fn captured_layout_is_saved_and_failures_are_told() {
    let mut module = IconLockerModule::new(Vec::new());
    let failed = Err(com_failure("GetItemPosition", 1, "m"));
    assert_eq!(
        module.settle_capture("n".to_string(), 1, "F".to_string(), failed),
        Err("Shell COM 操作失败: GetItemPosition(HRESULT=0x00000001): m".to_string())
    );
    assert!(module.profiles().is_empty());
    let layout = DesktopLayout {
        positions: IconMap::new(),
    };
    let saved = module
        .settle_capture("n".to_string(), -5, "F".to_string(), Ok(layout))
        .unwrap();
    assert_eq!(saved.id, "profile--5");
    assert_eq!(module.profiles(), vec![saved]);
    assert_eq!(
        module.settle_restore("other", Err(ExplorerError::Unsupported)),
        Err("桌面图标布局仅支持 Windows".to_string())
    );
    assert_eq!(module.settle_restore("profile--5", Ok(())), Ok(()));
    assert_eq!(
        module.pick_auto_restore_profile().map(|p| p.id),
        Some("profile--5".to_string())
    );
}
