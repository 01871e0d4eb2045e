use oats_framework::actions::{Action, ActionContext, ActionResult};
use oats_framework::error::OatsError;
use oats_framework::health::TestHealthSystem;
use oats_framework::objects::Object;
use oats_framework::systems::{Priority, SimpleSystem, System, SystemManager, SystemStats};
use oats_framework::traits::{Trait, TraitData};

#[test]
fn test_priority_ordering() {
    assert!(Priority::Critical > Priority::High);
    assert!(Priority::High > Priority::Normal);
    assert!(Priority::Normal > Priority::Low);
}

#[test]
fn test_system_stats() {
    let stats = SystemStats::default();
    assert_eq!(stats.objects_processed, 0);
    assert_eq!(stats.actions_executed, 0);
    assert_eq!(stats.errors, 0);
}

#[test]
fn test_simple_system_stats_mut() {
    let mut system: SimpleSystem<AlwaysFailAction> =
        SimpleSystem::new("s".to_string(), "d".to_string());
    system.stats_mut().objects_processed = 5;
    assert_eq!(system.stats().objects_processed, 5);
    system.reset_stats();
    assert_eq!(system.stats().objects_processed, 0);
}

#[test]
fn test_system_stats_update_and_reset() {
    let mut stats = SystemStats::default();
    stats.objects_processed = 4;
    stats.update_processing_time(10);
    stats.update_processing_time(30);
    assert_eq!(stats.total_processing_time_ms, 40);
    assert_eq!(stats.peak_processing_time_ms, 30);
    assert_eq!(stats.avg_processing_time_ms, 10);

    stats.reset();
    assert_eq!(stats.objects_processed, 0);
    assert_eq!(stats.total_processing_time_ms, 0);
    assert_eq!(stats.peak_processing_time_ms, 0);
    assert_eq!(stats.last_processed, None);
}

/// An action that always reports a flagged failure without erroring.
struct AlwaysFailAction;

impl Action for AlwaysFailAction {
    fn name(&self) -> &str {
        "always_fail"
    }

    fn description(&self) -> &str {
        "returns one failure result per invocation"
    }

    fn execute(&self, _context: ActionContext) -> Result<ActionResult, OatsError> {
        Ok(ActionResult::failure("flagged failure".to_string()))
    }
}

#[test]
fn test_failure_results_do_not_count_as_errors() {
    let mut system: SimpleSystem<AlwaysFailAction> =
        SimpleSystem::new("failer".to_string(), "always fails".to_string());
    system.add_action(AlwaysFailAction);

    let mut manager: SystemManager<SimpleSystem<AlwaysFailAction>> = SystemManager::new();
    manager.add_system(system);
    manager.register_object(Object::new("a".to_string(), "t".to_string()));
    manager.register_object(Object::new("b".to_string(), "t".to_string()));
    manager.register_object(Object::new("c".to_string(), "t".to_string()));

    let results = manager.process_all(Priority::Normal).expect("a pass never errors");
    assert_eq!(results.len(), 3);
    assert!(results.iter().all(|r| r.is_failure()));

    let stats_map = manager.get_all_stats();
    let stats = stats_map.get("failer").expect("system registered");
    assert_eq!(stats.objects_processed, 3);
    assert_eq!(stats.errors, 0);
    assert_eq!(stats.actions_executed, 3);
}

/// A system that reports its own name in one result per `process` call,
/// so a test can observe dispatch order.
struct TagSystem {
    name: String,
    priority: Priority,
}

impl System for TagSystem {
    fn name(&self) -> &str {
        self.name.as_str()
    }

    fn description(&self) -> &str {
        "tags results with its name"
    }

    fn initialize(&mut self) -> Result<(), OatsError> {
        Ok(())
    }

    fn shutdown(&mut self) -> Result<(), OatsError> {
        Ok(())
    }

    fn process(
        &mut self,
        _objects: Vec<Object>,
        _priority: Priority,
    ) -> Result<Vec<ActionResult>, OatsError> {
        let mut result = ActionResult::success();
        result.add_message(self.name.clone());
        Ok(vec![result])
    }

    fn priority(&self) -> Priority {
        self.priority
    }

    fn is_ready(&self) -> bool {
        true
    }

    fn get_stats(&self) -> SystemStats {
        SystemStats::default()
    }
}

#[test]
fn test_process_all_runs_by_descending_priority() {
    let mut manager: SystemManager<TagSystem> = SystemManager::new();
    manager.add_system(TagSystem { name: "low".to_string(), priority: Priority::Low });
    manager.add_system(TagSystem { name: "critical".to_string(), priority: Priority::Critical });
    manager.add_system(TagSystem { name: "normal".to_string(), priority: Priority::Normal });

    let results = manager.process_all(Priority::Normal).expect("a pass never errors");
    let order: Vec<&str> = results.iter().map(|r| r.messages[0].as_str()).collect();
    assert_eq!(order, vec!["critical", "normal", "low"]);
}

#[test]
fn test_execution_order_is_stable_for_equal_priorities() {
    let mut manager: SystemManager<TagSystem> = SystemManager::new();
    manager.add_system(TagSystem { name: "first".to_string(), priority: Priority::Normal });
    manager.add_system(TagSystem { name: "second".to_string(), priority: Priority::Normal });
    manager.add_system(TagSystem { name: "urgent".to_string(), priority: Priority::Critical });

    let order = manager.execution_order();
    assert_eq!(order, vec![2, 0, 1]);
}

#[test]
fn test_process_with_system_unknown_name() {
    let mut manager: SystemManager<TagSystem> = SystemManager::new();
    let err = manager
        .process_with_system("ghost", Vec::new(), Priority::Normal)
        .expect_err("no such system");
    match err {
        OatsError::SystemError { message } => {
            assert_eq!(message, "System 'ghost' not found");
        }
        other => panic!("unexpected error: {:?}", other),
    }
}

/// A system that refuses to process.
struct NeverReadySystem;

impl System for NeverReadySystem {
    fn name(&self) -> &str {
        "sleeper"
    }

    fn description(&self) -> &str {
        "never ready"
    }

    fn initialize(&mut self) -> Result<(), OatsError> {
        Ok(())
    }

    fn shutdown(&mut self) -> Result<(), OatsError> {
        Err(OatsError::invalid_state("already stopped".to_string()))
    }

    fn process(
        &mut self,
        _objects: Vec<Object>,
        _priority: Priority,
    ) -> Result<Vec<ActionResult>, OatsError> {
        Ok(Vec::new())
    }

    fn priority(&self) -> Priority {
        Priority::Normal
    }

    fn is_ready(&self) -> bool {
        false
    }

    fn get_stats(&self) -> SystemStats {
        SystemStats::default()
    }
}

#[test]
fn test_process_with_system_not_ready() {
    let mut manager: SystemManager<NeverReadySystem> = SystemManager::new();
    manager.add_system(NeverReadySystem);
    let err = manager
        .process_with_system("sleeper", Vec::new(), Priority::Normal)
        .expect_err("the system is not ready");
    match err {
        OatsError::SystemError { message } => assert_eq!(message, "System is not ready"),
        other => panic!("unexpected error: {:?}", other),
    }
}

/// A system that counts its `process` calls but is never ready.
struct NotReadyCounting {
    stats: SystemStats,
}

impl System for NotReadyCounting {
    fn name(&self) -> &str {
        "dormant"
    }

    fn description(&self) -> &str {
        "counts calls but never accepts one"
    }

    fn initialize(&mut self) -> Result<(), OatsError> {
        Ok(())
    }

    fn shutdown(&mut self) -> Result<(), OatsError> {
        Ok(())
    }

    fn process(
        &mut self,
        objects: Vec<Object>,
        _priority: Priority,
    ) -> Result<Vec<ActionResult>, OatsError> {
        self.stats.objects_processed += objects.len() as u64;
        Ok(Vec::new())
    }

    fn priority(&self) -> Priority {
        Priority::Normal
    }

    fn is_ready(&self) -> bool {
        false
    }

    fn get_stats(&self) -> SystemStats {
        self.stats
    }
}

#[test]
fn test_process_all_skips_not_ready_systems_untouched() {
    let mut manager: SystemManager<NotReadyCounting> = SystemManager::new();
    manager.add_system(NotReadyCounting { stats: SystemStats::default() });
    manager.register_object(Object::new("a".to_string(), "t".to_string()));
    manager.register_object(Object::new("b".to_string(), "t".to_string()));

    let results = manager.process_all(Priority::Normal).expect("a pass never errors");
    assert!(results.is_empty());
    let stats = manager.get_system("dormant").expect("registered").get_stats();
    assert_eq!(stats.objects_processed, 0);
    assert_eq!(stats.last_processed, None);
}

/// A system that either reports its name in one result or errors,
/// depending on how the instance was built.
struct MixedSystem {
    name: String,
    priority: Priority,
    fail: bool,
}

impl System for MixedSystem {
    fn name(&self) -> &str {
        self.name.as_str()
    }

    fn description(&self) -> &str {
        "tags results or errors, per instance"
    }

    fn initialize(&mut self) -> Result<(), OatsError> {
        Ok(())
    }

    fn shutdown(&mut self) -> Result<(), OatsError> {
        Ok(())
    }

    fn process(
        &mut self,
        _objects: Vec<Object>,
        _priority: Priority,
    ) -> Result<Vec<ActionResult>, OatsError> {
        if self.fail {
            Err(OatsError::action_failed("boom".to_string()))
        } else {
            let mut result = ActionResult::success();
            result.add_message(self.name.clone());
            Ok(vec![result])
        }
    }

    fn priority(&self) -> Priority {
        self.priority
    }

    fn is_ready(&self) -> bool {
        true
    }

    fn get_stats(&self) -> SystemStats {
        SystemStats::default()
    }
}

#[test]
fn test_erring_system_yields_one_synthesized_failure_and_pass_continues() {
    let mut manager: SystemManager<MixedSystem> = SystemManager::new();
    manager.add_system(MixedSystem {
        name: "broken".to_string(),
        priority: Priority::Critical,
        fail: true,
    });
    manager.add_system(MixedSystem {
        name: "steady".to_string(),
        priority: Priority::Normal,
        fail: false,
    });

    let results = manager.process_all(Priority::Normal).expect("a pass never errors");
    assert_eq!(results.len(), 2);
    assert!(results[0].is_failure());
    assert_eq!(results[0].messages[0], "System error: Action failed: boom");
    assert!(results[1].is_success());
    assert_eq!(results[1].messages[0], "steady");
}

#[test]
fn test_shutdown_all_names_offending_system() {
    let mut manager: SystemManager<NeverReadySystem> = SystemManager::new();
    manager.add_system(NeverReadySystem);
    assert!(manager.initialize_all().is_ok());
    let err = manager.shutdown_all().expect_err("shutdown fails");
    match err {
        OatsError::SystemError { message } => {
            assert_eq!(
                message,
                "Failed to shutdown system 'sleeper': Invalid state: already stopped"
            );
        }
        other => panic!("unexpected error: {:?}", other),
    }
}

#[test]
fn test_manager_registry_operations() {
    let mut manager: SystemManager<TagSystem> = SystemManager::new();
    let obj = Object::new("thing".to_string(), "t".to_string());
    let id = obj.id();
    manager.register_object(obj);
    assert_eq!(manager.object_count(), 1);

    let copy = manager.get_object(id).expect("registered");
    assert_eq!(copy.id(), id);
    assert_eq!(copy.name(), "thing");
    assert!(manager.get_object(id.wrapping_add(1)).is_none());

    let all = manager.get_all_objects();
    assert_eq!(all.len(), 1);

    manager.clear_objects();
    assert_eq!(manager.object_count(), 0);
}

#[test]
fn test_manager_replaces_system_with_same_name() {
    let mut manager: SystemManager<TagSystem> = SystemManager::new();
    manager.add_system(TagSystem { name: "dup".to_string(), priority: Priority::Low });
    manager.add_system(TagSystem { name: "dup".to_string(), priority: Priority::Critical });
    assert_eq!(manager.system_count(), 1);
    let system = manager.get_system("dup").expect("registered");
    assert_eq!(system.priority(), Priority::Critical);
}

#[test]
fn test_health_system_process() {
    let mut system = TestHealthSystem::new();
    let mut player = Object::new("test_player".to_string(), "character".to_string());
    player.add_trait(Trait::new("health".to_string(), TraitData::Number(100)));
    let bystander = Object::new("rock".to_string(), "scenery".to_string());

    let results = system
        .process(vec![player, bystander], Priority::Normal)
        .expect("processing succeeds");
    assert_eq!(results.len(), 1);
    assert!(results[0].is_success());
    assert_eq!(results[0].trait_updates[0].data.as_number(), Some(99));
    assert_eq!(results[0].messages[0], "Incremented health from 100 to 99");

    let stats = system.get_stats();
    assert_eq!(stats.objects_processed, 2);
    assert_eq!(stats.actions_executed, 1);
    assert_eq!(stats.errors, 0);
    assert!(stats.last_processed.is_some());
}

#[test]
fn test_health_system_via_manager() {
    let mut manager: SystemManager<TestHealthSystem> = SystemManager::new();
    manager.add_system(TestHealthSystem::new());

    let test_object = Object::with_traits(
        "test_obj".to_string(),
        "test_type".to_string(),
        vec![Trait::new("health".to_string(), TraitData::Number(50))],
    );
    manager.register_object(test_object);

    let results = manager.process_all(Priority::Normal).expect("a pass never errors");
    assert!(!results.is_empty());
    assert_eq!(results[0].trait_updates[0].data.as_number(), Some(49));
}
