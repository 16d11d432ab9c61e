use ratamud::core_output::{CoreOutputManager, OutputZone};

#[test]
fn test_output_manager() {
    let mut manager = CoreOutputManager::new();
    manager.add_message("Hello".to_string());
    assert_eq!(manager.get_messages().len(), 1);
    assert_eq!(manager.get_messages()[0], "Hello");
}

#[test]
fn test_output_zones() {
    assert_eq!(OutputZone::Main.as_str(), "MAIN");
    assert_eq!(OutputZone::Log.as_str(), "LOG");
    assert_eq!(OutputZone::Status.as_str(), "STATUS");
    assert_eq!(OutputZone::Side.as_str(), "SIDE");
}

#[test]
fn output_manager_keeps_zones_apart() {
    let mut manager = CoreOutputManager::new();
    manager.add_log("booted".to_string());
    manager.set_status("ready".to_string());
    manager.set_side_content("inventory".to_string());
    manager.add_message("one".to_string());
    manager.add_message("two".to_string());
    assert_eq!(manager.get_messages(), &["one".to_string(), "two".to_string()]);
    assert_eq!(manager.get_logs(), &["booted".to_string()]);
    assert_eq!(manager.get_status(), "ready");
    assert_eq!(manager.get_side_content(), "inventory");
    manager.clear_messages();
    assert!(manager.get_messages().is_empty());
    assert_eq!(manager.get_logs().len(), 1);
    manager.clear_logs();
    assert!(manager.get_logs().is_empty());
    assert_eq!(manager.get_status(), "ready");
}
