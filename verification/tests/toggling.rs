use symlink_manager::models::{AppConfig, Profile, Source};
use symlink_manager::toggle::{
    disable_result, format_symlink_error, occupied_result, rollback_enabled_state,
    success_result, toggle_prepare,
};

fn demo_config() -> AppConfig {
    AppConfig {
        version: 1,
        profiles: vec![Profile {
            id: "p1".to_string(),
            name: "Main".to_string(),
            base_path: "/Game".to_string(),
            sources: vec![Source {
                id: "s1".to_string(),
                name: "ModA".to_string(),
                source_path: "/src/ModA".to_string(),
                target_path: None,
                enabled_items: Vec::new(),
            }],
        }],
        active_profile_id: None,
    }
}

#[test]
fn enable_adds_membership_and_reports_paths() {
    let mut config = demo_config();
    let prep = toggle_prepare(&mut config, "p1", "s1", "Textures", true).unwrap();
    assert!(!prep.was_enabled);
    assert_eq!(prep.target_path, "/Game");
    assert_eq!(prep.item_source_path, "/src/ModA/Textures");
    assert_eq!(config.profiles[0].sources[0].enabled_items, vec!["Textures".to_string()]);
}

#[test]
fn enable_is_idempotent_on_membership() {
    let mut config = demo_config();
    toggle_prepare(&mut config, "p1", "s1", "Textures", true).unwrap();
    let prep = toggle_prepare(&mut config, "p1", "s1", "Textures", true).unwrap();
    assert!(prep.was_enabled);
    assert_eq!(config.profiles[0].sources[0].enabled_items, vec!["Textures".to_string()]);
}

#[test]
fn enable_then_disable_restores_inactive_membership() {
    let mut config = demo_config();
    toggle_prepare(&mut config, "p1", "s1", "Textures", true).unwrap();
    let prep = toggle_prepare(&mut config, "p1", "s1", "Textures", false).unwrap();
    assert!(prep.was_enabled);
    assert!(config.profiles[0].sources[0].enabled_items.is_empty());
    // Nothing left at the slot: the disable's physical step is a no-op
    // reported as success.
    let result = disable_result("Textures".to_string(), None);
    assert!(result.success);
    assert_eq!(result.error, None);
    // With the link gone and the membership back out, the status is
    // `Inactive` again.
    let items = symlink_manager::enumerate::build_item_list(vec![
        symlink_manager::enumerate::DirEntryRecord {
            name: "Textures".to_string(),
            is_directory: true,
            path: "/src/ModA/Textures".to_string(),
        },
    ]);
    let obs = vec![symlink_manager::resolver::SlotObservation {
        slot: symlink_manager::resolver::SlotState::Empty,
        expected: Some("/src/ModA/Textures".to_string()),
    }];
    let resolved = symlink_manager::resolver::resolve_items(&config.profiles[0], 0, items, &obs);
    assert_eq!(resolved[0].status, symlink_manager::models::ItemStatus::Inactive);
    assert!(!resolved[0].enabled);
}

#[test]
fn blocked_enable_is_fully_compensated() {
    let mut config = demo_config();
    let before = config.profiles[0].sources[0].enabled_items.clone();
    let prep = toggle_prepare(&mut config, "p1", "s1", "Textures", true).unwrap();
    // The slot turned out to be occupied: compensate and report.
    rollback_enabled_state(&mut config, "p1", "s1", "Textures", prep.was_enabled);
    assert_eq!(config.profiles[0].sources[0].enabled_items, before);
    let result = occupied_result("Textures".to_string());
    assert!(!result.success);
    assert_eq!(result.item_name, "Textures");
    let message = result.error.unwrap();
    assert!(!message.is_empty());
    assert_eq!(message, "Target location already has a file or folder with this name");
}

#[test]
fn blocked_enable_of_already_enabled_item_keeps_membership() {
    let mut config = demo_config();
    config.profiles[0].sources[0].enabled_items.push("Textures".to_string());
    let before = config.profiles[0].sources[0].enabled_items.clone();
    let prep = toggle_prepare(&mut config, "p1", "s1", "Textures", true).unwrap();
    assert!(prep.was_enabled);
    rollback_enabled_state(&mut config, "p1", "s1", "Textures", prep.was_enabled);
    assert_eq!(config.profiles[0].sources[0].enabled_items, before);
}

#[test]
fn unknown_identities_fail_toggle() {
    let mut config = demo_config();
    let e = toggle_prepare(&mut config, "nope", "s1", "Textures", true).unwrap_err();
    assert_eq!(e, "Profile not found");
    let e = toggle_prepare(&mut config, "p1", "nope", "Textures", true).unwrap_err();
    assert_eq!(e, "Source not found");
    assert!(config.profiles[0].sources[0].enabled_items.is_empty());
}

#[test]
fn disable_keeps_declared_state_on_removal_failure() {
    let mut config = demo_config();
    toggle_prepare(&mut config, "p1", "s1", "Textures", true).unwrap();
    toggle_prepare(&mut config, "p1", "s1", "Textures", false).unwrap();
    // Physical removal failed; the declared state stays disabled.
    let result = disable_result("Textures".to_string(), Some("Access is denied".to_string()));
    assert!(!result.success);
    assert_eq!(result.error.as_deref(), Some("Access is denied"));
    assert!(config.profiles[0].sources[0].enabled_items.is_empty());
}

#[test]
fn successful_toggle_reports_success() {
    let r = success_result("Textures".to_string());
    assert!(r.success);
    assert_eq!(r.item_name, "Textures");
    assert_eq!(r.error, None);
}

#[test]
fn privilege_error_is_translated() {
    let translated = format_symlink_error(Some(1314), "os error 1314".to_string());
    assert_eq!(
        translated,
        "Permission denied: Creating symbolic links requires either:\n1. Enable Developer Mode in Windows Settings (Settings > Update & Security > For developers)\n2. Run this application as Administrator"
    );
    let passthrough = format_symlink_error(Some(5), "Access is denied".to_string());
    assert_eq!(passthrough, "Access is denied");
    let plain = format_symlink_error(None, "boom".to_string());
    assert_eq!(plain, "boom");
}
