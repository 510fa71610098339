use symlink_manager::enumerate::{build_item_list, DirEntryRecord};
use symlink_manager::models::{ItemStatus, Profile, Source};
use symlink_manager::resolver::{resolve_items, SlotObservation, SlotState};

fn source(id: &str, name: &str, source_path: &str, target: Option<&str>, enabled: &[&str]) -> Source {
    Source {
        id: id.to_string(),
        name: name.to_string(),
        source_path: source_path.to_string(),
        target_path: target.map(|t| t.to_string()),
        enabled_items: enabled.iter().map(|s| s.to_string()).collect(),
    }
}

fn profile(id: &str, name: &str, base: &str, sources: Vec<Source>) -> Profile {
    Profile { id: id.to_string(), name: name.to_string(), base_path: base.to_string(), sources }
}

fn mod_a_items() -> Vec<symlink_manager::models::Item> {
    build_item_list(vec![
        DirEntryRecord {
            name: "Textures".to_string(),
            is_directory: true,
            path: "/src/ModA/Textures".to_string(),
        },
        DirEntryRecord {
            name: "readme.txt".to_string(),
            is_directory: false,
            path: "/src/ModA/readme.txt".to_string(),
        },
    ])
}

#[test]
fn enabled_item_with_good_link_is_active() {
    let p = profile(
        "p1",
        "Main",
        "/Game",
        vec![source("s1", "ModA", "/src/ModA", None, &["Textures"])],
    );
    let observations = vec![
        SlotObservation {
            slot: SlotState::SymlinkTo { resolved: Some("/src/ModA/Textures".to_string()) },
            expected: Some("/src/ModA/Textures".to_string()),
        },
        SlotObservation { slot: SlotState::Empty, expected: Some("/src/ModA/readme.txt".to_string()) },
    ];
    let resolved = resolve_items(&p, 0, mod_a_items(), &observations);
    assert_eq!(resolved[0].name, "Textures");
    assert_eq!(resolved[0].status, ItemStatus::Active);
    assert!(resolved[0].enabled);
    assert_eq!(resolved[0].conflict_source, None);
    assert_eq!(resolved[1].name, "readme.txt");
    assert_eq!(resolved[1].status, ItemStatus::Inactive);
    assert!(!resolved[1].enabled);
}

#[test]
fn deleted_link_destination_reports_broken() {
    let p = profile(
        "p1",
        "Main",
        "/Game",
        vec![source("s1", "ModA", "/src/ModA", None, &["Textures"])],
    );
    // The physical folder behind the link was deleted externally: the link's
    // destination no longer canonicalizes.
    let observations = vec![
        SlotObservation {
            slot: SlotState::SymlinkTo { resolved: None },
            expected: Some("/src/ModA/Textures".to_string()),
        },
        SlotObservation { slot: SlotState::Empty, expected: Some("/src/ModA/readme.txt".to_string()) },
    ];
    let resolved = resolve_items(&p, 0, mod_a_items(), &observations);
    assert_eq!(resolved[0].status, ItemStatus::Broken);
    assert_eq!(resolved[1].status, ItemStatus::Inactive);
}

#[test]
fn two_sources_claiming_one_name_both_conflict() {
    let p = profile(
        "p1",
        "Main",
        "/Game",
        vec![
            source("s1", "ModA", "/src/ModA", None, &["Textures"]),
            source("s2", "ModB", "/src/ModB", None, &["Textures"]),
        ],
    );
    let obs_a = vec![SlotObservation {
        slot: SlotState::SymlinkTo { resolved: Some("/src/ModA/Textures".to_string()) },
        expected: Some("/src/ModA/Textures".to_string()),
    }];
    let items_a = build_item_list(vec![DirEntryRecord {
        name: "Textures".to_string(),
        is_directory: true,
        path: "/src/ModA/Textures".to_string(),
    }]);
    let resolved_a = resolve_items(&p, 0, items_a, &obs_a);
    assert_eq!(resolved_a[0].status, ItemStatus::Conflict);
    assert_eq!(resolved_a[0].conflict_source.as_deref(), Some("ModB"));

    let obs_b = vec![SlotObservation {
        slot: SlotState::SymlinkTo { resolved: Some("/src/ModA/Textures".to_string()) },
        expected: Some("/src/ModB/Textures".to_string()),
    }];
    let items_b = build_item_list(vec![DirEntryRecord {
        name: "Textures".to_string(),
        is_directory: true,
        path: "/src/ModB/Textures".to_string(),
    }]);
    let resolved_b = resolve_items(&p, 1, items_b, &obs_b);
    assert_eq!(resolved_b[0].status, ItemStatus::Conflict);
    assert_eq!(resolved_b[0].conflict_source.as_deref(), Some("ModA"));
}

#[test]
fn latest_claiming_source_names_the_conflict() {
    // Two other sources both claim the name; the collision map keeps the
    // entry of the later one.
    let p = profile(
        "p1",
        "Main",
        "/Game",
        vec![
            source("s1", "ModA", "/src/ModA", None, &["Textures"]),
            source("s2", "ModB", "/src/ModB", None, &["Textures"]),
            source("s3", "ModC", "/src/ModC", None, &["Textures"]),
        ],
    );
    let obs = vec![SlotObservation {
        slot: SlotState::Empty,
        expected: Some("/src/ModA/Textures".to_string()),
    }];
    let items = build_item_list(vec![DirEntryRecord {
        name: "Textures".to_string(),
        is_directory: true,
        path: "/src/ModA/Textures".to_string(),
    }]);
    let resolved = resolve_items(&p, 0, items, &obs);
    assert_eq!(resolved[0].status, ItemStatus::Conflict);
    assert_eq!(resolved[0].conflict_source.as_deref(), Some("ModC"));
}

#[test]
fn sources_with_different_targets_do_not_collide() {
    let p = profile(
        "p1",
        "Main",
        "/Game",
        vec![
            source("s1", "ModA", "/src/ModA", None, &["Textures"]),
            source("s2", "ModB", "/src/ModB", Some("/Other"), &["Textures"]),
        ],
    );
    let obs = vec![SlotObservation {
        slot: SlotState::Empty,
        expected: Some("/src/ModA/Textures".to_string()),
    }];
    let items = build_item_list(vec![DirEntryRecord {
        name: "Textures".to_string(),
        is_directory: true,
        path: "/src/ModA/Textures".to_string(),
    }]);
    let resolved = resolve_items(&p, 0, items, &obs);
    assert_eq!(resolved[0].status, ItemStatus::Inactive);
    assert_eq!(resolved[0].conflict_source, None);
}

#[test]
fn foreign_symlink_on_disabled_item_is_external_conflict() {
    let p = profile("p1", "Main", "/Game", vec![source("s1", "ModA", "/src/ModA", None, &[])]);
    let obs = vec![SlotObservation {
        slot: SlotState::SymlinkTo { resolved: Some("/somewhere/else".to_string()) },
        expected: Some("/src/ModA/Textures".to_string()),
    }];
    let items = build_item_list(vec![DirEntryRecord {
        name: "Textures".to_string(),
        is_directory: true,
        path: "/src/ModA/Textures".to_string(),
    }]);
    let resolved = resolve_items(&p, 0, items, &obs);
    assert_eq!(resolved[0].status, ItemStatus::Conflict);
    assert_eq!(resolved[0].conflict_source.as_deref(), Some("External"));
}

#[test]
fn misdirected_link_on_enabled_item_is_broken() {
    let p = profile(
        "p1",
        "Main",
        "/Game",
        vec![source("s1", "ModA", "/src/ModA", None, &["Textures"])],
    );
    let obs = vec![SlotObservation {
        slot: SlotState::SymlinkTo { resolved: Some("/somewhere/else".to_string()) },
        expected: Some("/src/ModA/Textures".to_string()),
    }];
    let items = build_item_list(vec![DirEntryRecord {
        name: "Textures".to_string(),
        is_directory: true,
        path: "/src/ModA/Textures".to_string(),
    }]);
    let resolved = resolve_items(&p, 0, items, &obs);
    assert_eq!(resolved[0].status, ItemStatus::Broken);
    assert_eq!(resolved[0].conflict_source, None);
}

#[test]
fn plain_file_at_slot_is_conflict() {
    let p = profile("p1", "Main", "/Game", vec![source("s1", "ModA", "/src/ModA", None, &[])]);
    let obs = vec![SlotObservation {
        slot: SlotState::Occupied,
        expected: Some("/src/ModA/Textures".to_string()),
    }];
    let items = build_item_list(vec![DirEntryRecord {
        name: "Textures".to_string(),
        is_directory: true,
        path: "/src/ModA/Textures".to_string(),
    }]);
    let resolved = resolve_items(&p, 0, items, &obs);
    assert_eq!(resolved[0].status, ItemStatus::Conflict);
    assert_eq!(resolved[0].conflict_source.as_deref(), Some("Existing file/folder"));
}

#[test]
fn resolution_is_deterministic() {
    let p = profile(
        "p1",
        "Main",
        "/Game",
        vec![
            source("s1", "ModA", "/src/ModA", None, &["Textures"]),
            source("s2", "ModB", "/src/ModB", None, &["Textures", "Maps"]),
        ],
    );
    let obs = vec![
        SlotObservation {
            slot: SlotState::SymlinkTo { resolved: Some("/src/ModA/Textures".to_string()) },
            expected: Some("/src/ModA/Textures".to_string()),
        },
        SlotObservation { slot: SlotState::Empty, expected: Some("/src/ModA/readme.txt".to_string()) },
    ];
    let first = resolve_items(&p, 0, mod_a_items(), &obs);
    let second = resolve_items(&p, 0, mod_a_items(), &obs);
    assert_eq!(first, second);
}

#[test]
fn stale_enabled_entries_do_not_appear() {
    // The enabled set references an item no longer present in the source
    // directory: the result simply omits it.
    let p = profile(
        "p1",
        "Main",
        "/Game",
        vec![source("s1", "ModA", "/src/ModA", None, &["Gone", "Textures"])],
    );
    let obs = vec![SlotObservation {
        slot: SlotState::Empty,
        expected: Some("/src/ModA/Textures".to_string()),
    }];
    let items = build_item_list(vec![DirEntryRecord {
        name: "Textures".to_string(),
        is_directory: true,
        path: "/src/ModA/Textures".to_string(),
    }]);
    let resolved = resolve_items(&p, 0, items, &obs);
    assert_eq!(resolved.len(), 1);
    assert_eq!(resolved[0].name, "Textures");
    // The stale entry stays in the declared set, unpruned.
    assert!(p.sources[0].enabled_items.contains(&"Gone".to_string()));
}
