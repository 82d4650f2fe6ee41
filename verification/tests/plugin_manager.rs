use hermit_core::guid::Guid;
use hermit_core::plugin_manager::{
    atomic_write_paths, merge_config, HermitPluginManager, PluginDescriptor, PluginImage,
    RegisteredPlugin, RepositoryInfo, StoredConfig,
};
use hermit_core::service_error::ServiceError;
use hermit_core::table::Table;

#[test]
fn merge_config_fills_missing_keys_and_keeps_stored() {
    let defaults = br#"{"A":1,"B":true,"C":"x"}"#;
    let stored = br#"{"A":9,"D":"extra"}"#;
    let merged: serde_json::Value =
        serde_json::from_slice(&merge_config(defaults, stored)).unwrap();
    assert_eq!(merged["A"], 9); // stored overrides default
    assert_eq!(merged["B"], true); // missing key filled from default
    assert_eq!(merged["C"], "x");
    assert_eq!(merged["D"], "extra"); // stale extra key preserved
    // Non-object stored falls back to raw stored bytes.
    assert_eq!(merge_config(defaults, b"not json"), b"not json");
}

#[test]
fn merged_config_is_exact() {
    assert_eq!(
        merge_config(br#"{"b": 1, "a": [1, 2]}"#, br#"{"c": null, "b": 2}"#),
        br#"{"a":[1,2],"b":2,"c":null}"#
    );
    // Where the defaults are no object, what is stored stays as it is.
    assert_eq!(merge_config(b"[]", br#"{"b": 2}"#), br#"{"b": 2}"#);
    assert_eq!(merge_config(b"{}", b"[1]"), b"[1]");
}

fn descriptor(id: u128, name: &str, enabled: bool) -> PluginDescriptor {
    PluginDescriptor {
        id: Guid::from_u128(id),
        name: name.to_owned(),
        version: "1.0.0".to_owned(),
        description: "test plugin".to_owned(),
        enabled,
        has_image: false,
        can_uninstall: true,
    }
}

fn manager(plugins: Vec<RegisteredPlugin>) -> HermitPluginManager {
    HermitPluginManager::new(plugins, "/srv/plugins".to_owned(), Table::new(), Vec::new())
}

#[test]
fn empty_manager_lists_nothing() {
    let mgr = HermitPluginManager::empty("/srv/plugins".to_owned());
    assert!(mgr.list_plugins().is_empty());
    assert!(mgr.get_plugin(Guid::from_u128(7)).is_none());
}

#[test]
fn lists_and_gets_registered_plugin() {
    let mgr = manager(vec![RegisteredPlugin::new(descriptor(1, "Demo", true), None)]);
    let all = mgr.list_plugins();
    assert_eq!(all.len(), 1);
    assert_eq!(all[0].name, "Demo");
    assert!(all[0].enabled);
    assert!(!all[0].can_uninstall);
    assert!(mgr.get_plugin(Guid::from_u128(1)).is_some());
}

#[test]
fn disable_persists_across_reload() {
    let id = Guid::from_u128(2);
    let mut mgr = manager(vec![RegisteredPlugin::new(descriptor(2, "Demo", true), None)]);
    mgr.set_enabled(id, false).expect("disable");
    assert_eq!(
        mgr.enabled.get(&"00000000-0000-0000-0000-000000000002".to_owned()),
        Some(&false)
    );
    // A fresh manager over the same state sees the disabled flag.
    let mgr = HermitPluginManager::new(
        vec![
            RegisteredPlugin::new(descriptor(2, "Demo", true), None),
            RegisteredPlugin::new(descriptor(3, "Other", true), None),
        ],
        "/srv/plugins".to_owned(),
        mgr.enabled,
        Vec::new(),
    );
    assert!(!mgr.get_plugin(id).expect("some").enabled);
    // No other plugin is touched.
    assert!(mgr.get_plugin(Guid::from_u128(3)).expect("some").enabled);
}

#[test]
fn enable_unknown_plugin_is_not_found() {
    let mut mgr = manager(Vec::new());
    assert!(matches!(
        mgr.set_enabled(Guid::from_u128(1), true),
        Err(ServiceError::NotFound(m)) if m == "plugin 00000000-0000-0000-0000-000000000001"
    ));
}

#[test]
fn remove_registered_plugin_is_rejected() {
    let mgr = manager(vec![RegisteredPlugin::new(descriptor(3, "Demo", true), None)]);
    assert!(matches!(mgr.remove_plugin(Guid::from_u128(3)), ServiceError::InvalidInput(_)));
    assert!(matches!(mgr.remove_plugin(Guid::from_u128(4)), ServiceError::NotFound(_)));
}

#[test]
fn config_round_trips_with_default() {
    let id = Guid::from_u128(4);
    let mgr = manager(vec![
        RegisteredPlugin::new(descriptor(4, "Demo", true), None)
            .with_default_config(br#"{"k":1}"#.to_vec()),
    ]);
    // Default until written.
    assert_eq!(
        mgr.get_plugin_configuration(id, StoredConfig::Missing).expect("cfg"),
        br#"{"k":1}"#.to_vec()
    );
    mgr.check_configuration(id, br#"{"k":2}"#).expect("set");
    assert_eq!(
        mgr.get_plugin_configuration(id, StoredConfig::Found(br#"{"k":2}"#.to_vec()))
            .expect("cfg"),
        br#"{"k":2}"#.to_vec()
    );
    // Invalid JSON rejected.
    assert!(matches!(
        mgr.check_configuration(id, b"not json"),
        Err(ServiceError::InvalidInput(m)) if m == "plugin configuration must be valid JSON"
    ));
    assert!(matches!(
        mgr.get_plugin_configuration(id, StoredConfig::Failed("denied".to_owned())),
        Err(ServiceError::Backend(m)) if m == "read plugin config: denied"
    ));
    assert!(mgr.get_plugin_configuration(Guid::from_u128(9), StoredConfig::Missing).is_err());
    assert!(mgr.check_configuration(Guid::from_u128(9), b"{}").is_err());
}

#[test]
fn repositories_persist() {
    let mut mgr = manager(Vec::new());
    assert!(mgr.get_repositories().is_empty());
    mgr.set_repositories(vec![
        RepositoryInfo {
            name: Some("Main".to_owned()),
            url: Some("https://example.test/catalog.json".to_owned()),
            enabled: true,
        },
        RepositoryInfo {
            name: None,
            url: Some("https://example.test/off.json".to_owned()),
            enabled: false,
        },
        RepositoryInfo { name: None, url: Some(String::new()), enabled: true },
        RepositoryInfo { name: None, url: None, enabled: true },
    ]);
    assert_eq!(mgr.get_repositories().len(), 4);
    assert_eq!(mgr.repositories_to_fetch(), vec!["https://example.test/catalog.json"]);
}

#[test]
fn plugin_image_returned_when_present() {
    let id = Guid::from_u128(5);
    let image = PluginImage { content_type: "image/png".to_owned(), data: vec![1, 2, 3] };
    let mgr = manager(vec![RegisteredPlugin::new(descriptor(5, "Demo", true), Some(image))]);
    let shown = mgr.plugin_image(id).expect("img");
    assert_eq!(shown.content_type, "image/png");
    assert_eq!(shown.data, vec![1, 2, 3]);
    // has_image is normalized on the descriptor.
    assert!(mgr.get_plugin(id).expect("some").has_image);
    assert!(mgr.plugin_image(Guid::from_u128(6)).is_none());
}

#[test]
fn configuration_pages_are_listed_and_served() {
    let mgr = manager(vec![
        RegisteredPlugin::new(descriptor(1, "Plain", true), None),
        RegisteredPlugin::new(descriptor(2, "Paged", true), None)
            .with_config_page("settings".to_owned(), b"<p>".to_vec()),
    ]);
    assert_eq!(mgr.find(Guid::from_u128(1)).unwrap().default_config, b"{}");
    let pages = mgr.get_configuration_pages();
    assert_eq!(pages.len(), 1);
    assert_eq!(pages[0].name, "settings");
    assert_eq!(pages[0].display_name.as_deref(), Some("Paged"));
    assert_eq!(pages[0].plugin_id, Some(Guid::from_u128(2)));
    assert!(!pages[0].enable_in_main_menu);
    assert_eq!(mgr.get_configuration_page("settings"), Some(&b"<p>".to_vec()));
    assert_eq!(mgr.get_configuration_page("other"), None);
}

#[test]
fn files_are_written_beside_themselves() {
    let mgr = manager(Vec::new());
    let path = mgr.config_path(Guid::from_u128(1));
    assert_eq!(path, "/srv/plugins/00000000-0000-0000-0000-000000000001/config.json");
    let paths = atomic_write_paths(&path).unwrap();
    assert_eq!(paths.parent, "/srv/plugins/00000000-0000-0000-0000-000000000001");
    assert_eq!(
        paths.temporary,
        "/srv/plugins/00000000-0000-0000-0000-000000000001/config.json.tmp"
    );
    assert_eq!(mgr.state_path(), "/srv/plugins/state.json");
    assert!(matches!(
        atomic_write_paths("/"),
        Err(ServiceError::Backend(m)) if m == "plugin path has no parent"
    ));
}
