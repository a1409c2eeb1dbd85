use tltoolbox::modules::keep_awake::{KeepAwakeModule, AWAKE_FLAGS, RESTORE_FLAGS};
use tltoolbox::modules::ToolModule;

#[test]
fn keep_awake_metadata_identity_matches_registry_contract() {
    let module = KeepAwakeModule::new();
    assert_eq!(module.id(), "keep_awake");
    assert_eq!(module.display_name(), "系统防休眠");
    assert_eq!(
        module.description(),
        "阻止显示器关闭与系统自动睡眠，保持后台任务持续运行"
    );
    assert!(!module.is_running(), "新模块应处于停止态");
}

#[test]
fn keep_awake_lifecycle_start_stop_is_idempotent_and_converges() {
    let mut module = KeepAwakeModule::default();
    assert!(!module.is_running());
    for cycle in 1..=3 {
        module.start().expect("启动应成功");
        assert!(module.is_running(), "第 {cycle} 轮启动后应处于运行态");
        module.start().expect("重复启动应幂等成功");
        assert!(module.is_running(), "重复启动不得破坏运行态");
        module.stop().expect("停止应成功");
        assert!(!module.is_running(), "第 {cycle} 轮停止后应退出运行态");
        module.stop().expect("重复停止应幂等成功");
        assert!(!module.is_running(), "重复停止不得破坏停止态");
    }
}

#[test]
fn keep_awake_state_transitions_follow_start_stop_semantics() {
    let mut module = KeepAwakeModule::new();
    module.stop().expect("停止态下重复停止应幂等成功");
    assert!(!module.is_running());
    module.start().expect("首次启动应成功");
    assert!(module.is_running());
    module.stop().expect("停止应成功");
    assert!(!module.is_running());
    module.start().expect("再次启动应成功");
    assert!(module.is_running());
    module.stop().expect("收尾停止应成功");
    assert!(!module.is_running());
}

#[test]
fn refused_requests_leave_the_module_as_it_is() {
    let mut module = KeepAwakeModule::new();
    assert_eq!(module.requested_state(true), Some(AWAKE_FLAGS));
    assert_eq!(module.requested_state(false), None);
    assert_eq!(
        module.settle_start(0),
        Err("SetThreadExecutionState 注入防休眠标志失败（返回空前态）".to_string())
    );
    assert!(!module.is_running());
    assert_eq!(module.settle_start(0x8000_0000), Ok(()));
    assert_eq!(module.requested_state(true), None);
    assert_eq!(module.requested_state(false), Some(RESTORE_FLAGS));
    assert_eq!(module.settle_start(0), Ok(()));
    assert_eq!(
        module.settle_stop(0),
        Err("SetThreadExecutionState 还原默认休眠策略失败（返回空前态）".to_string())
    );
    assert!(module.is_running());
    assert_eq!(module.settle_stop(1), Ok(()));
    assert_eq!(module.settle_stop(0), Ok(()));
    assert!(!module.is_running());
    assert_eq!(AWAKE_FLAGS, 0x8000_0000 | 1 | 2);
}
