use system_monitor::applet::{
    apply_setting, default_modules, popup_after_close, toggle_popup, PopupAction, initial_windows, tick_schedule, visible_modules,
    ModuleWindows, SettingChange, TickTimer,
};
use system_monitor::config::{
    sampling_config_for_profile, EnabledModules, IconColorMode, ModuleKind, QuickIntervalProfile,
    SamplingConfig, TextFormatMode, UiConfig,
};

#[test]
fn toggling_a_module_persists_without_resizing() {
    let mut ui = UiConfig::default();
    let mut sampling = SamplingConfig::default();
    let e = apply_setting(&mut ui, &mut sampling, SettingChange::ToggleModuleNet(true));
    assert!(e.persist_config);
    assert!(!e.resize_histories);
    assert!(ui.enabled_modules.net);
    assert_eq!(
        ui,
        UiConfig {
            enabled_modules: EnabledModules { net: true, ..EnabledModules::default() },
            ..UiConfig::default()
        }
    );
    assert_eq!(sampling, SamplingConfig::default());
}

#[test]
fn each_toggle_touches_its_module() {
    let changes = [
        (SettingChange::ToggleModuleCpu(false), ModuleKind::Cpu),
        (SettingChange::ToggleModuleMem(false), ModuleKind::Mem),
        (SettingChange::ToggleModuleNet(false), ModuleKind::Net),
        (SettingChange::ToggleModuleDisk(false), ModuleKind::Disk),
        (SettingChange::ToggleModuleGpu(false), ModuleKind::Gpu),
    ];
    let all = [ModuleKind::Cpu, ModuleKind::Mem, ModuleKind::Net, ModuleKind::Disk, ModuleKind::Gpu];
    for (change, kind) in changes {
        let mut ui = UiConfig::default();
        ui.enabled_modules = EnabledModules { cpu: true, mem: true, net: true, disk: true, gpu: true };
        let mut sampling = SamplingConfig::default();
        apply_setting(&mut ui, &mut sampling, change);
        for k in all {
            assert_eq!(ui.enabled_modules.enabled(k), k != kind);
        }
    }
}

#[test]
fn other_settings() {
    let mut ui = UiConfig::default();
    let mut sampling = SamplingConfig::default();
    apply_setting(&mut ui, &mut sampling, SettingChange::ToggleCpuTemperature(false));
    assert!(!ui.show_cpu_temperature);
    apply_setting(&mut ui, &mut sampling, SettingChange::SetTextFormatMode(TextFormatMode::Compact));
    assert_eq!(ui.text_format_mode, TextFormatMode::Compact);
    let e = apply_setting(&mut ui, &mut sampling, SettingChange::SetIconColorMode(IconColorMode::Black));
    assert_eq!(ui.icon_color_mode, IconColorMode::Black);
    assert!(e.persist_config && !e.resize_histories);
    assert_eq!(sampling, SamplingConfig::default());
}

#[test]
fn profile_replaces_sampling_and_resizes() {
    let mut ui = UiConfig::default();
    let mut sampling = SamplingConfig::default();
    let e = apply_setting(
        &mut ui,
        &mut sampling,
        SettingChange::SetQuickIntervalProfile(QuickIntervalProfile::Fast),
    );
    assert!(e.resize_histories && e.persist_config);
    assert_eq!(ui.quick_interval_profile, QuickIntervalProfile::Fast);
    assert_eq!(sampling, sampling_config_for_profile(QuickIntervalProfile::Fast));
    assert_eq!(sampling.cpu.update_interval, 1000);
}

#[test]
fn applying_twice_is_applying_once() {
    let change = SettingChange::SetQuickIntervalProfile(QuickIntervalProfile::Slow);
    let mut ui = UiConfig::default();
    let mut sampling = SamplingConfig::default();
    apply_setting(&mut ui, &mut sampling, change);
    let (once_ui, once_sampling) = (ui, sampling);
    apply_setting(&mut ui, &mut sampling, change);
    assert_eq!((ui, sampling), (once_ui, once_sampling));
}

#[test]
fn default_configuration_modules() {
    assert_eq!(
        default_modules(),
        vec![ModuleKind::Cpu, ModuleKind::Mem, ModuleKind::Disk, ModuleKind::Gpu]
    );
}

#[test]
fn default_timers() {
    let timers = tick_schedule(&default_modules(), EnabledModules::default(), &SamplingConfig::default());
    assert_eq!(
        timers,
        vec![
            TickTimer { module: ModuleKind::Cpu, interval_ms: 5000 },
            TickTimer { module: ModuleKind::Mem, interval_ms: 5000 },
            TickTimer { module: ModuleKind::Disk, interval_ms: 5000 },
            TickTimer { module: ModuleKind::Gpu, interval_ms: 5000 },
        ]
    );
}

#[test]
fn timers_follow_modules_and_switches() {
    let modules = vec![ModuleKind::Net, ModuleKind::Gpu, ModuleKind::Net, ModuleKind::Cpu];
    let enabled = EnabledModules { cpu: false, mem: true, net: true, disk: true, gpu: true };
    let mut sampling = sampling_config_for_profile(QuickIntervalProfile::Slow);
    sampling.gpu.update_interval = 250;
    assert_eq!(
        tick_schedule(&modules, enabled, &sampling),
        vec![
            TickTimer { module: ModuleKind::Net, interval_ms: 10000 },
            TickTimer { module: ModuleKind::Gpu, interval_ms: 250 },
        ]
    );
    assert_eq!(tick_schedule(&Vec::new(), enabled, &sampling), Vec::<TickTimer>::new());
}

#[test]
fn shown_modules_keep_their_order() {
    let modules = vec![ModuleKind::Gpu, ModuleKind::Net, ModuleKind::Cpu, ModuleKind::Net, ModuleKind::Mem];
    let enabled = EnabledModules { cpu: true, mem: false, net: true, disk: true, gpu: false };
    assert_eq!(visible_modules(&modules, enabled), vec![1, 2, 3]);
    assert_eq!(visible_modules(&default_modules(), EnabledModules::default()), vec![0, 1, 2, 3]);
}

#[test]
fn history_windows_at_start() {
    let w = initial_windows(&default_modules(), &SamplingConfig::default());
    assert_eq!(w, ModuleWindows { cpu: 60, mem: 30, net: 0, disk: 60, gpu: 30 });
    let w = initial_windows(&vec![ModuleKind::Net], &SamplingConfig::default());
    assert_eq!(w, ModuleWindows { cpu: 0, mem: 0, net: 30, disk: 0, gpu: 0 });
}

#[test]
fn closing_the_popup_window() {
    assert_eq!(popup_after_close(Some(7), 7), None);
    assert_eq!(popup_after_close(Some(7), 8), Some(7));
    assert_eq!(popup_after_close(None, 8), None);
}

#[test]
fn toggling_the_popup() {
    let mut popup = Some(3);
    assert_eq!(toggle_popup(&mut popup), PopupAction::Destroy(3));
    assert_eq!(popup, None);
    assert_eq!(toggle_popup(&mut popup), PopupAction::Create);
    assert_eq!(popup, None);
}
