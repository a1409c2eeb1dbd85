use std::sync::atomic::{AtomicBool, AtomicUsize, Ordering};
use std::sync::Arc;
use tltoolbox::bus::{AppEvent, EventBus};
use tltoolbox::manager::{meta_of, settle_toggle, toggle_module, ModuleManager};
use tltoolbox::modules::keep_awake::KeepAwakeModule;
use tltoolbox::modules::{ModuleError, ToolModule};
use tokio::sync::broadcast::error::TryRecvError;

#[derive(Default)]
struct MockInner {
    running: AtomicBool,
    fail_next_start: AtomicBool,
    start_calls: AtomicUsize,
    stop_calls: AtomicUsize,
}

#[derive(Clone)]
struct MockModule {
    id: &'static str,
    inner: Arc<MockInner>,
}

impl MockModule {
    fn new(id: &'static str) -> Self {
        MockModule {
            id,
            inner: Arc::new(MockInner::default()),
        }
    }

    fn running_now(&self) -> bool {
        self.inner.running.load(Ordering::SeqCst)
    }
}

impl ToolModule for MockModule {
    fn id(&self) -> &'static str {
        self.id
    }

    fn display_name(&self) -> &'static str {
        "测试桩模块"
    }

    fn description(&self) -> &'static str {
        "manager 单元测试用最小模块实现"
    }

    fn is_running(&self) -> bool {
        self.running_now()
    }

    fn start(&mut self) -> Result<(), ModuleError> {
        if self.running_now() {
            return Ok(());
        }
        self.inner.start_calls.fetch_add(1, Ordering::SeqCst);
        if self.inner.fail_next_start.swap(false, Ordering::SeqCst) {
            return Err("测试注入的启动失败".into());
        }
        self.inner.running.store(true, Ordering::SeqCst);
        Ok(())
    }

    fn stop(&mut self) -> Result<(), ModuleError> {
        if !self.running_now() {
            return Ok(());
        }
        self.inner.stop_calls.fetch_add(1, Ordering::SeqCst);
        self.inner.running.store(false, Ordering::SeqCst);
        Ok(())
    }
}

fn fixture() -> (EventBus, ModuleManager<MockModule>, MockModule) {
    let bus = EventBus::new(16);
    let mut mgr = ModuleManager::new(bus.clone());
    let raw = MockModule::new("mock");
    mgr.register(raw.clone());
    (bus, mgr, raw)
}

fn status(running: bool) -> AppEvent {
    AppEvent::ModuleStatusChanged {
        id: "mock".to_string(),
        is_running: running,
    }
}

#[test]
fn register_and_metadata_list() {
    let bus = EventBus::new(16);
    let mut mgr = ModuleManager::new(bus);
    mgr.register(MockModule::new("mock_a"));
    mgr.register(MockModule::new("mock_b"));
    let metas = mgr.get_metadata_list();
    assert_eq!(metas.len(), 2);
    assert!(metas.iter().all(|m| !m.running));
    assert!(metas.windows(2).all(|w| w[0].id <= w[1].id));
    assert!(mgr.get_module("mock_a").is_some());
    assert!(mgr.get_module("ghost").is_none());
}

#[test]
fn toggle_enable_broadcasts_true_and_transitions() {
    let (bus, mut mgr, raw) = fixture();
    let mut rx = bus.subscribe();
    assert!(!raw.is_running());
    let changed = mgr.toggle("mock", true).expect("启动应成功");
    assert!(changed, "首次启动应实际触发变迁");
    assert!(raw.is_running());
    assert_eq!(rx.try_recv(), Ok(status(true)));
}

#[test]
fn toggle_disable_broadcasts_false_and_transitions() {
    let (bus, mut mgr, raw) = fixture();
    let mut rx = bus.subscribe();
    mgr.toggle("mock", true).unwrap();
    let _ = rx.try_recv().unwrap();
    let changed = mgr.toggle("mock", false).expect("停止应成功");
    assert!(changed);
    assert!(!raw.is_running());
    assert_eq!(rx.try_recv(), Ok(status(false)));
}

#[test]
fn toggle_noop_is_idempotent_but_still_syncs_bus() {
    let (bus, mut mgr, raw) = fixture();
    let mut rx = bus.subscribe();
    mgr.toggle("mock", true).unwrap();
    let _ = rx.try_recv().unwrap();
    let changed = mgr.toggle("mock", true).expect("幂等请求应成功");
    assert!(!changed, "状态未变不应报告 changed");
    assert_eq!(raw.inner.start_calls.load(Ordering::SeqCst), 1);
    assert_eq!(rx.try_recv(), Ok(status(true)));
}

#[test]
fn toggle_unknown_module_errors_without_broadcast() {
    let (bus, mut mgr, _raw) = fixture();
    let mut rx = bus.subscribe();
    let err = mgr.toggle("ghost", true).expect_err("未知模块应报错");
    assert!(err.contains("ghost"), "错误信息应包含模块 ID: {err}");
    assert_eq!(err, "未注册的模块: ghost");
    assert_eq!(rx.try_recv(), Err(TryRecvError::Empty));
}

#[test]
fn start_failure_broadcasts_false_then_errors() {
    let (bus, mut mgr, raw) = fixture();
    let mut rx = bus.subscribe();
    raw.inner.fail_next_start.store(true, Ordering::SeqCst);
    let err = mgr.toggle("mock", true).expect_err("注入的失败应上抛");
    assert!(err.contains("注入"), "错误信息: {err}");
    assert!(!raw.is_running(), "失败后应保持停止态");
    assert_eq!(rx.try_recv(), Ok(status(false)));
}

#[test]
fn repeated_toggles_start_and_stop_once() {
    let (_bus, mut mgr, raw) = fixture();
    for _ in 0..4 {
        mgr.toggle("mock", true).unwrap();
    }
    assert_eq!(raw.inner.start_calls.load(Ordering::SeqCst), 1);
    for _ in 0..4 {
        mgr.toggle("mock", false).unwrap();
    }
    assert_eq!(raw.inner.stop_calls.load(Ordering::SeqCst), 1);
    assert!(!raw.is_running());
}

#[test]
fn registering_the_same_id_replaces_and_keeps_order() {
    let bus = EventBus::new(4);
    let mut mgr = ModuleManager::new(bus);
    for id in ["m", "b", "z", "a", "ab", "é"] {
        mgr.register(MockModule::new(id));
    }
    let second = MockModule::new("b");
    second.inner.running.store(true, Ordering::SeqCst);
    mgr.register(second);
    let metas = mgr.get_metadata_list();
    let ids: Vec<&str> = metas.iter().map(|m| m.id).collect();
    assert_eq!(ids, vec!["a", "ab", "b", "m", "z", "é"]);
    assert!(mgr.get_module("b").unwrap().is_running());
    assert!(!mgr.get_module("a").unwrap().is_running());
}

#[test]
fn settled_request_comes_with_its_event() {
    let (_bus, mut mgr, _raw) = fixture();
    assert_eq!(mgr.settle("mock", true), (Ok(true), Some(status(true))));
    assert_eq!(mgr.settle("mock", true), (Ok(false), Some(status(true))));
    assert_eq!(
        mgr.settle("ghost", true),
        (Err("未注册的模块: ghost".to_string()), None)
    );
}

#[test]
fn single_module_is_switched_without_the_registry() {
    let mut module = KeepAwakeModule::new();
    let (result, event) = toggle_module(&mut module, true);
    assert_eq!(result, Ok(true));
    assert_eq!(
        event,
        AppEvent::ModuleStatusChanged {
            id: "keep_awake".to_string(),
            is_running: true
        }
    );
    let meta = meta_of(&module);
    assert_eq!(meta.display_name, "系统防休眠");
    assert!(meta.running);
    assert_eq!(settle_toggle(true, Err("e".to_string())), Err("e".to_string()));
    assert_eq!(settle_toggle(false, Ok(())), Ok(false));
}
