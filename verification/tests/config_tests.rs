use system_monitor::config::{
    config_fields, field_for_key, fields_to_reload, plan_load, plan_reload, ReadOutcome, ReloadOutcome, sampling_config_for_profile, ConfigField, EnabledModules,
    IconColorMode, ModuleKind, QuickIntervalProfile, Sampling, SamplingConfig, TextFormatMode,
    UiConfig,
};

#[test]
fn default_enabled_modules_leave_out_the_network() {
    let m = EnabledModules::default();
    assert!(m.cpu && m.mem && m.disk && m.gpu);
    assert!(!m.net);
    assert!(!m.enabled(ModuleKind::Net));
    assert!(m.enabled(ModuleKind::Gpu));
}

#[test]
fn default_ui() {
    let ui = UiConfig::default();
    assert!(ui.show_cpu_temperature);
    assert_eq!(ui.icon_color_mode, IconColorMode::Auto);
    assert_eq!(ui.text_format_mode, TextFormatMode::Labeled);
    assert_eq!(ui.quick_interval_profile, QuickIntervalProfile::Normal);
    assert_eq!(ui.enabled_modules, EnabledModules::default());
}

#[test]
fn default_sampling() {
    let s = SamplingConfig::default();
    assert_eq!(s.cpu, Sampling { update_interval: 5000, sampling_window: 60 });
    assert_eq!(s.mem, Sampling { update_interval: 5000, sampling_window: 30 });
    assert_eq!(s.net, Sampling { update_interval: 5000, sampling_window: 30 });
    assert_eq!(s.disk, Sampling { update_interval: 5000, sampling_window: 60 });
    assert_eq!(s.gpu, Sampling { update_interval: 5000, sampling_window: 30 });
    assert_eq!(s.for_module(ModuleKind::Disk).sampling_window, 60);
}

#[test]
fn profiles_set_the_interval_of_every_module() {
    for (p, ms) in [
        (QuickIntervalProfile::Fast, 1000),
        (QuickIntervalProfile::Normal, 5000),
        (QuickIntervalProfile::Slow, 10000),
    ] {
        let s = sampling_config_for_profile(p);
        for k in [ModuleKind::Cpu, ModuleKind::Mem, ModuleKind::Net, ModuleKind::Disk, ModuleKind::Gpu] {
            assert_eq!(s.for_module(k).update_interval, ms);
            assert_eq!(
                s.for_module(k).sampling_window,
                SamplingConfig::default().for_module(k).sampling_window
            );
        }
    }
}

#[test]
fn default_sampling_is_the_normal_profile() {
    assert_eq!(
        sampling_config_for_profile(UiConfig::default().quick_interval_profile),
        SamplingConfig::default()
    );
}

#[test]
fn keys_name_entries() {
    assert_eq!(field_for_key("sampling"), Some(ConfigField::Sampling));
    assert_eq!(field_for_key("components"), Some(ConfigField::Components));
    assert_eq!(field_for_key("layout"), Some(ConfigField::Layout));
    assert_eq!(field_for_key("tooltip_enabled"), Some(ConfigField::TooltipEnabled));
    assert_eq!(field_for_key("ui"), Some(ConfigField::Ui));
    assert_eq!(field_for_key("uix"), None);
    assert_eq!(field_for_key(""), None);
    assert_eq!(field_for_key("Sampling"), None);
}

#[test]
fn keys_round_trip() {
    for f in [
        ConfigField::Sampling,
        ConfigField::Components,
        ConfigField::Layout,
        ConfigField::TooltipEnabled,
        ConfigField::Ui,
    ] {
        assert_eq!(field_for_key(f.key()), Some(f));
    }
}

#[test]
fn changed_keys_to_reload() {
    let keys = vec![
        "ui".to_string(),
        "unknown".to_string(),
        "sampling".to_string(),
        "ui".to_string(),
    ];
    assert_eq!(
        fields_to_reload(&keys),
        vec![ConfigField::Ui, ConfigField::Sampling, ConfigField::Ui]
    );
    assert_eq!(fields_to_reload(&Vec::new()), Vec::<ConfigField>::new());
}

#[test]
fn entries_load_in_order() {
    assert_eq!(
        config_fields(),
        vec![
            ConfigField::Sampling,
            ConfigField::Components,
            ConfigField::Layout,
            ConfigField::TooltipEnabled,
            ConfigField::Ui,
        ]
    );
}

#[test]
fn loading_writes_back_missing_entries_and_reports_failures() {
    let reads = vec![
        (ConfigField::Sampling, ReadOutcome::Failed),
        (ConfigField::Components, ReadOutcome::Missing),
        (ConfigField::Layout, ReadOutcome::Found),
        (ConfigField::TooltipEnabled, ReadOutcome::Missing),
        (ConfigField::Ui, ReadOutcome::Failed),
    ];
    let plan = plan_load(&reads);
    assert_eq!(plan.write_defaults, vec![ConfigField::Components, ConfigField::TooltipEnabled]);
    assert_eq!(plan.errors, vec![ConfigField::Sampling, ConfigField::Ui]);
    assert!(!plan.complete);
}

#[test]
fn loading_without_failures_is_complete() {
    let reads = vec![
        (ConfigField::Sampling, ReadOutcome::Found),
        (ConfigField::Ui, ReadOutcome::Missing),
    ];
    let plan = plan_load(&reads);
    assert_eq!(plan.write_defaults, vec![ConfigField::Ui]);
    assert!(plan.errors.is_empty());
    assert!(plan.complete);
    assert!(plan_load(&Vec::new()).complete);
}

#[test]
fn reloading_reports_changes_and_failures() {
    let reads = vec![
        (ConfigField::Ui, ReloadOutcome::Changed),
        (ConfigField::Layout, ReloadOutcome::Unchanged),
        (ConfigField::Sampling, ReloadOutcome::Failed),
        (ConfigField::Components, ReloadOutcome::Changed),
    ];
    let plan = plan_reload(&reads);
    assert_eq!(plan.changed, vec![ConfigField::Ui, ConfigField::Components]);
    assert_eq!(plan.errors, vec![ConfigField::Sampling]);
}
