//! The decisions of the applet's update loop: applying settings, which
//! timers run, which panels are shown, the history sizes at start, and
//! whether the settings popup is opened, closed or kept.
use vstd::prelude::*;
use crate::config::{
    profile_interval, sampling_config_for_profile, uniform_sampling, EnabledModules,
    IconColorMode, ModuleKind, QuickIntervalProfile, SamplingConfig, TextFormatMode, UiConfig,
};

verus! {

/// A change the user makes in the settings popup.
#[derive(Clone, Copy, Debug, PartialEq, Eq, Structural)]
pub enum SettingChange {
    ToggleModuleCpu(bool),
    ToggleModuleMem(bool),
    ToggleModuleNet(bool),
    ToggleModuleDisk(bool),
    ToggleModuleGpu(bool),
    ToggleCpuTemperature(bool),
    SetTextFormatMode(TextFormatMode),
    SetIconColorMode(IconColorMode),
    SetQuickIntervalProfile(QuickIntervalProfile),
}

/// What the applet does after applying a change besides changing its settings.
#[derive(Clone, Copy, Debug, PartialEq, Eq, Structural)]
pub struct UpdateEffects {
    /// the histories are to be resized to the sampling windows
    pub resize_histories: bool,
    /// the configuration is to be written back
    pub persist_config: bool,
}

/// The user interface settings after a change.
pub open spec fn ui_after(ui: UiConfig, change: SettingChange) -> UiConfig {
    let m = ui.enabled_modules;
    match change {
        SettingChange::ToggleModuleCpu(v) => UiConfig {
            enabled_modules: EnabledModules { cpu: v, ..m },
            ..ui
        },
        SettingChange::ToggleModuleMem(v) => UiConfig {
            enabled_modules: EnabledModules { mem: v, ..m },
            ..ui
        },
        SettingChange::ToggleModuleNet(v) => UiConfig {
            enabled_modules: EnabledModules { net: v, ..m },
            ..ui
        },
        SettingChange::ToggleModuleDisk(v) => UiConfig {
            enabled_modules: EnabledModules { disk: v, ..m },
            ..ui
        },
        SettingChange::ToggleModuleGpu(v) => UiConfig {
            enabled_modules: EnabledModules { gpu: v, ..m },
            ..ui
        },
        SettingChange::ToggleCpuTemperature(v) => UiConfig { show_cpu_temperature: v, ..ui },
        SettingChange::SetTextFormatMode(v) => UiConfig { text_format_mode: v, ..ui },
        SettingChange::SetIconColorMode(v) => UiConfig { icon_color_mode: v, ..ui },
        SettingChange::SetQuickIntervalProfile(v) => UiConfig { quick_interval_profile: v, ..ui },
    }
}

/// The sampling after a change: a profile brings its own sampling, nothing
/// else touches it.
pub open spec fn sampling_after(sampling: SamplingConfig, change: SettingChange) -> SamplingConfig {
    match change {
        SettingChange::SetQuickIntervalProfile(p) => uniform_sampling(profile_interval(p)),
        _ => sampling,
    }
}

/// Applies a change from the settings popup. Every change is persisted; a
/// new interval profile also replaces the sampling and resizes the histories.
pub fn apply_setting(ui: &mut UiConfig, sampling: &mut SamplingConfig, change: SettingChange) -> (e:
    UpdateEffects)
    ensures
        *final(ui) == ui_after(*old(ui), change),
        *final(sampling) == sampling_after(*old(sampling), change),
        (change matches SettingChange::SetTextFormatMode(v) ==> final(ui).text_format_mode == v),
        (change matches SettingChange::SetIconColorMode(v) ==> final(ui).icon_color_mode == v),
        (change matches SettingChange::ToggleCpuTemperature(v) ==> final(ui).show_cpu_temperature == v),
        (change matches SettingChange::SetQuickIntervalProfile(v) ==> final(ui).quick_interval_profile == v),
        (change matches SettingChange::ToggleModuleGpu(v) ==> final(ui).enabled_modules.gpu == v),
        e.persist_config,
        e.resize_histories <==> change is SetQuickIntervalProfile,
{
    match change {
        SettingChange::ToggleModuleCpu(v) => {
            ui.enabled_modules.cpu = v;
        },
        SettingChange::ToggleModuleMem(v) => {
            ui.enabled_modules.mem = v;
        },
        SettingChange::ToggleModuleNet(v) => {
            ui.enabled_modules.net = v;
        },
        SettingChange::ToggleModuleDisk(v) => {
            ui.enabled_modules.disk = v;
        },
        SettingChange::ToggleModuleGpu(v) => {
            ui.enabled_modules.gpu = v;
        },
        SettingChange::ToggleCpuTemperature(v) => {
            ui.show_cpu_temperature = v;
        },
        SettingChange::SetTextFormatMode(v) => {
            ui.text_format_mode = v;
        },
        SettingChange::SetIconColorMode(v) => {
            ui.icon_color_mode = v;
        },
        SettingChange::SetQuickIntervalProfile(v) => {
            ui.quick_interval_profile = v;
            *sampling = sampling_config_for_profile(v);
            return UpdateEffects { resize_histories: true, persist_config: true };
        },
    }
    UpdateEffects { resize_histories: false, persist_config: true }
}


/// The change that switches a module on or off.
pub open spec fn toggle_module(kind: ModuleKind, on: bool) -> SettingChange {
    match kind {
        ModuleKind::Cpu => SettingChange::ToggleModuleCpu(on),
        ModuleKind::Mem => SettingChange::ToggleModuleMem(on),
        ModuleKind::Net => SettingChange::ToggleModuleNet(on),
        ModuleKind::Disk => SettingChange::ToggleModuleDisk(on),
        ModuleKind::Gpu => SettingChange::ToggleModuleGpu(on),
    }
}

/// Applying a change a second time changes nothing more.
pub proof fn lemma_setting_idempotent(ui: UiConfig, sampling: SamplingConfig, change: SettingChange)
    ensures
        ui_after(ui_after(ui, change), change) == ui_after(ui, change),
        sampling_after(sampling_after(sampling, change), change) == sampling_after(sampling, change),
{
}

/// Switching a module on or off touches that module only: the other
/// modules, the other settings and the sampling stay as they were.
pub proof fn lemma_toggle_touches_one_module(
    ui: UiConfig,
    sampling: SamplingConfig,
    kind: ModuleKind,
    on: bool,
    other: ModuleKind,
)
    ensures
        ui_after(ui, toggle_module(kind, on)).enabled_modules.spec_enabled(kind) == on,
        other != kind ==> ui_after(ui, toggle_module(kind, on)).enabled_modules.spec_enabled(other)
            == ui.enabled_modules.spec_enabled(other),
        ui_after(ui, toggle_module(kind, on)).show_cpu_temperature == ui.show_cpu_temperature,
        ui_after(ui, toggle_module(kind, on)).icon_color_mode == ui.icon_color_mode,
        ui_after(ui, toggle_module(kind, on)).text_format_mode == ui.text_format_mode,
        ui_after(ui, toggle_module(kind, on)).quick_interval_profile == ui.quick_interval_profile,
        sampling_after(sampling, toggle_module(kind, on)) == sampling,
{
}

/// Each setter records the value chosen and changes nothing else, the
/// sampling included.
pub proof fn lemma_setters_record(
    ui: UiConfig,
    sampling: SamplingConfig,
    text: TextFormatMode,
    icons: IconColorMode,
    temperature: bool,
)
    ensures
        ui_after(ui, SettingChange::SetTextFormatMode(text)) == (UiConfig { text_format_mode: text, ..ui }),
        ui_after(ui, SettingChange::SetIconColorMode(icons)) == (UiConfig { icon_color_mode: icons, ..ui }),
        ui_after(ui, SettingChange::ToggleCpuTemperature(temperature)) == (UiConfig {
            show_cpu_temperature: temperature,
            ..ui
        }),
        sampling_after(sampling, SettingChange::SetTextFormatMode(text)) == sampling,
        sampling_after(sampling, SettingChange::SetIconColorMode(icons)) == sampling,
        sampling_after(sampling, SettingChange::ToggleCpuTemperature(temperature)) == sampling,
{
}

/// A history starts at its module's sampling window when the configuration
/// has a panel of that kind, and empty otherwise.
pub proof fn lemma_initial_windows(modules: Seq<ModuleKind>, sampling: SamplingConfig, kind: ModuleKind)
    ensures
        modules.contains(kind) ==> initial_window(modules, sampling, kind) == sampling.spec_for_module(
            kind,
        ).sampling_window,
        !modules.contains(kind) ==> initial_window(modules, sampling, kind) == 0,
{
}

/// Choosing an interval profile records it and makes every module sample at
/// its interval; nothing else of the user interface changes.
pub proof fn lemma_profile_change(ui: UiConfig, sampling: SamplingConfig, p: QuickIntervalProfile, kind: ModuleKind)
    ensures
        ui_after(ui, SettingChange::SetQuickIntervalProfile(p)) == (UiConfig { quick_interval_profile: p, ..ui }),
        sampling_after(sampling, SettingChange::SetQuickIntervalProfile(p)).spec_for_module(kind).update_interval
            == profile_interval(p),
{
}

/// The modules of the default configuration, in their order: CPU, memory,
/// disks and GPU (the network is left out).
pub fn default_modules() -> (v: Vec<ModuleKind>)
    ensures
        v@ == seq![ModuleKind::Cpu, ModuleKind::Mem, ModuleKind::Disk, ModuleKind::Gpu],
{
    let mut v = Vec::new();
    v.push(ModuleKind::Cpu);
    v.push(ModuleKind::Mem);
    v.push(ModuleKind::Disk);
    v.push(ModuleKind::Gpu);
    assert(v@ =~= seq![ModuleKind::Cpu, ModuleKind::Mem, ModuleKind::Disk, ModuleKind::Gpu]);
    v
}

/// Which kinds occur among the configured modules.
fn presence(modules: &Vec<ModuleKind>) -> (p: EnabledModules)
    ensures
        forall|k: ModuleKind| #[trigger] p.spec_enabled(k) == modules@.contains(k),
{
    let mut p = EnabledModules { cpu: false, mem: false, net: false, disk: false, gpu: false };
    let mut i: usize = 0;
    while i < modules.len()
        invariant
            i <= modules@.len(),
            forall|k: ModuleKind| #[trigger] p.spec_enabled(k) == modules@.take(i as int).contains(k),
        decreases modules@.len() - i,
    {
        let k = modules[i];
        let ghost before = p;
        match k {
            ModuleKind::Cpu => p.cpu = true,
            ModuleKind::Mem => p.mem = true,
            ModuleKind::Net => p.net = true,
            ModuleKind::Disk => p.disk = true,
            ModuleKind::Gpu => p.gpu = true,
        }
        proof {
            let prev = modules@.take(i as int);
            let next = modules@.take(i + 1);
            assert(next =~= prev.push(k));
            assert forall|j: ModuleKind| #[trigger] p.spec_enabled(j) == next.contains(j) by {
                if j == k {
                    assert(next[i as int] == k);
                } else {
                    assert(p.spec_enabled(j) == before.spec_enabled(j));
                    if next.contains(j) {
                        let n = choose|n: int| 0 <= n < next.len() && #[trigger] next[n] == j;
                        assert(prev[n] == j);
                    }
                    if prev.contains(j) {
                        let n = choose|n: int| 0 <= n < prev.len() && #[trigger] prev[n] == j;
                        assert(next[n] == j);
                    }
                }
            }
        }
        i = i + 1;
    }
    assert(modules@.take(modules@.len() as int) =~= modules@);
    p
}

/// The history sizes of each module.
#[derive(Clone, Copy, Debug, PartialEq, Eq, Structural)]
pub struct ModuleWindows {
    pub cpu: usize,
    pub mem: usize,
    pub net: usize,
    pub disk: usize,
    pub gpu: usize,
}

/// The window of one module at start: its sampling window when the
/// configuration has a panel of that kind, else nothing.
pub open spec fn initial_window(modules: Seq<ModuleKind>, sampling: SamplingConfig, kind: ModuleKind) -> usize {
    if modules.contains(kind) {
        sampling.spec_for_module(kind).sampling_window
    } else {
        0
    }
}

/// The sizes the histories start with.
pub fn initial_windows(modules: &Vec<ModuleKind>, sampling: &SamplingConfig) -> (w: ModuleWindows)
    ensures
        w.cpu == initial_window(modules@, *sampling, ModuleKind::Cpu),
        w.mem == initial_window(modules@, *sampling, ModuleKind::Mem),
        w.net == initial_window(modules@, *sampling, ModuleKind::Net),
        w.disk == initial_window(modules@, *sampling, ModuleKind::Disk),
        w.gpu == initial_window(modules@, *sampling, ModuleKind::Gpu),
{
    let p = presence(modules);
    proof {
        assert(p.spec_enabled(ModuleKind::Cpu) == modules@.contains(ModuleKind::Cpu));
        assert(p.spec_enabled(ModuleKind::Mem) == modules@.contains(ModuleKind::Mem));
        assert(p.spec_enabled(ModuleKind::Net) == modules@.contains(ModuleKind::Net));
        assert(p.spec_enabled(ModuleKind::Disk) == modules@.contains(ModuleKind::Disk));
        assert(p.spec_enabled(ModuleKind::Gpu) == modules@.contains(ModuleKind::Gpu));
    }
    ModuleWindows {
        cpu: if p.cpu { sampling.cpu.sampling_window } else { 0 },
        mem: if p.mem { sampling.mem.sampling_window } else { 0 },
        net: if p.net { sampling.net.sampling_window } else { 0 },
        disk: if p.disk { sampling.disk.sampling_window } else { 0 },
        gpu: if p.gpu { sampling.gpu.sampling_window } else { 0 },
    }
}

/// A periodic refresh of one module.
#[derive(Clone, Copy, Debug, PartialEq, Eq, Structural)]
pub struct TickTimer {
    pub module: ModuleKind,
    pub interval_ms: u64,
}

/// Whether the module of a kind is refreshed: it is switched on and the
/// configuration has a panel of that kind.
pub open spec fn wants_ticks(modules: Seq<ModuleKind>, enabled: EnabledModules, kind: ModuleKind) -> bool {
    enabled.spec_enabled(kind) && modules.contains(kind)
}

/// The timer of a kind when it is wanted, else nothing.
pub open spec fn timer_if_wanted(
    modules: Seq<ModuleKind>,
    enabled: EnabledModules,
    sampling: SamplingConfig,
    kind: ModuleKind,
) -> Seq<TickTimer> {
    if wants_ticks(modules, enabled, kind) {
        seq![TickTimer { module: kind, interval_ms: sampling.spec_for_module(kind).update_interval }]
    } else {
        Seq::empty()
    }
}

/// The kinds of module in the order their timers are set up.
pub open spec fn all_kinds() -> Seq<ModuleKind> {
    seq![ModuleKind::Cpu, ModuleKind::Mem, ModuleKind::Net, ModuleKind::Disk, ModuleKind::Gpu]
}

/// The timers of the wanted kinds among `kinds`, in the order of `kinds`.
pub open spec fn timers_for(
    kinds: Seq<ModuleKind>,
    modules: Seq<ModuleKind>,
    enabled: EnabledModules,
    sampling: SamplingConfig,
) -> Seq<TickTimer>
    decreases kinds.len(),
{
    if kinds.len() == 0 {
        Seq::empty()
    } else {
        timers_for(kinds.drop_last(), modules, enabled, sampling) + timer_if_wanted(
            modules,
            enabled,
            sampling,
            kinds.last(),
        )
    }
}

/// The timers the applet runs: one per wanted module, at its update
/// interval, in the order CPU, memory, network, disks, GPU.
pub open spec fn tick_schedule_view(
    modules: Seq<ModuleKind>,
    enabled: EnabledModules,
    sampling: SamplingConfig,
) -> Seq<TickTimer> {
    timers_for(all_kinds(), modules, enabled, sampling)
}

/// The timers the applet subscribes to.
pub fn tick_schedule(modules: &Vec<ModuleKind>, enabled: EnabledModules, sampling: &SamplingConfig) -> (v:
    Vec<TickTimer>)
    ensures
        v@ == tick_schedule_view(modules@, enabled, *sampling),
        forall|i: int| 0 <= i < v@.len() ==> enabled.spec_enabled(#[trigger] v@[i].module)
            && modules@.contains(v@[i].module),
{
    let p = presence(modules);
    let ghost m = modules@;
    let mut v: Vec<TickTimer> = Vec::new();
    let ghost s = *sampling;
    if enabled.cpu && p.cpu {
        v.push(TickTimer { module: ModuleKind::Cpu, interval_ms: sampling.cpu.update_interval });
    }
    assert(p.spec_enabled(ModuleKind::Cpu) == m.contains(ModuleKind::Cpu));
    assert(v@ =~= timer_if_wanted(m, enabled, s, ModuleKind::Cpu));
    let ghost v1 = v@;
    if enabled.mem && p.mem {
        v.push(TickTimer { module: ModuleKind::Mem, interval_ms: sampling.mem.update_interval });
    }
    assert(p.spec_enabled(ModuleKind::Mem) == m.contains(ModuleKind::Mem));
    assert(v@ =~= v1 + timer_if_wanted(m, enabled, s, ModuleKind::Mem));
    let ghost v2 = v@;
    if enabled.net && p.net {
        v.push(TickTimer { module: ModuleKind::Net, interval_ms: sampling.net.update_interval });
    }
    assert(p.spec_enabled(ModuleKind::Net) == m.contains(ModuleKind::Net));
    assert(v@ =~= v2 + timer_if_wanted(m, enabled, s, ModuleKind::Net));
    let ghost v3 = v@;
    if enabled.disk && p.disk {
        v.push(TickTimer { module: ModuleKind::Disk, interval_ms: sampling.disk.update_interval });
    }
    assert(p.spec_enabled(ModuleKind::Disk) == m.contains(ModuleKind::Disk));
    assert(v@ =~= v3 + timer_if_wanted(m, enabled, s, ModuleKind::Disk));
    let ghost v4 = v@;
    if enabled.gpu && p.gpu {
        v.push(TickTimer { module: ModuleKind::Gpu, interval_ms: sampling.gpu.update_interval });
    }
    assert(p.spec_enabled(ModuleKind::Gpu) == m.contains(ModuleKind::Gpu));
    assert(v@ =~= v4 + timer_if_wanted(m, enabled, s, ModuleKind::Gpu));
    proof {
        let k = all_kinds();
        assert(k.drop_last().drop_last().drop_last().drop_last().drop_last() =~= Seq::<ModuleKind>::empty());
        assert(k.drop_last().drop_last().drop_last().drop_last() =~= seq![ModuleKind::Cpu]);
        assert(k.drop_last().drop_last().drop_last() =~= seq![ModuleKind::Cpu, ModuleKind::Mem]);
        assert(k.drop_last().drop_last() =~= seq![ModuleKind::Cpu, ModuleKind::Mem, ModuleKind::Net]);
        assert(k.drop_last() =~= seq![ModuleKind::Cpu, ModuleKind::Mem, ModuleKind::Net, ModuleKind::Disk]);
        reveal_with_fuel(timers_for, 6);
        assert(timers_for(k.drop_last().drop_last().drop_last().drop_last(), m, enabled, s) =~= v1);
        lemma_tick_schedule(m, enabled, s, ModuleKind::Cpu);
    }
    v
}

/// The place of a kind in the order CPU, memory, network, disks, GPU.
pub open spec fn module_rank(kind: ModuleKind) -> nat {
    match kind {
        ModuleKind::Cpu => 0,
        ModuleKind::Mem => 1,
        ModuleKind::Net => 2,
        ModuleKind::Disk => 3,
        ModuleKind::Gpu => 4,
    }
}

proof fn lemma_timers_for(
    kinds: Seq<ModuleKind>,
    modules: Seq<ModuleKind>,
    enabled: EnabledModules,
    sampling: SamplingConfig,
)
    requires
        kinds.no_duplicates(),
        forall|i: int, j: int| 0 <= i < j < kinds.len() ==> module_rank(#[trigger] kinds[i]) < module_rank(#[trigger] kinds[j]),
    ensures
        forall|i: int, j: int|
            0 <= i < j < timers_for(kinds, modules, enabled, sampling).len() ==> module_rank(#[trigger] timers_for(
                kinds,
                modules,
                enabled,
                sampling,
            )[i].module) < module_rank(#[trigger] timers_for(kinds, modules, enabled, sampling)[j].module),
        forall|i: int|
            0 <= i < timers_for(kinds, modules, enabled, sampling).len() ==> kinds.contains(
                #[trigger] timers_for(kinds, modules, enabled, sampling)[i].module,
            ) && wants_ticks(modules, enabled, timers_for(kinds, modules, enabled, sampling)[i].module)
                && timers_for(kinds, modules, enabled, sampling)[i].interval_ms
                == sampling.spec_for_module(timers_for(kinds, modules, enabled, sampling)[i].module).update_interval,
        forall|k: ModuleKind|
            kinds.contains(k) && wants_ticks(modules, enabled, k) ==> exists|i: int|
                0 <= i < timers_for(kinds, modules, enabled, sampling).len()
                    && #[trigger] timers_for(kinds, modules, enabled, sampling)[i].module == k,
        forall|i: int, j: int|
            0 <= i < j < timers_for(kinds, modules, enabled, sampling).len() ==> #[trigger] timers_for(
                kinds,
                modules,
                enabled,
                sampling,
            )[i].module != #[trigger] timers_for(kinds, modules, enabled, sampling)[j].module,
    decreases kinds.len(),
{
    if kinds.len() > 0 {
        let front = kinds.drop_last();
        let last = kinds.last();
        assert(front.no_duplicates());
        assert forall|i: int, j: int| 0 <= i < j < front.len() implies module_rank(#[trigger] front[i]) < module_rank(#[trigger] front[j]) by {
            assert(front[i] == kinds[i] && front[j] == kinds[j]);
        }
        lemma_timers_for(front, modules, enabled, sampling);
        let t = timers_for(kinds, modules, enabled, sampling);
        let p = timers_for(front, modules, enabled, sampling);
        let o = timer_if_wanted(modules, enabled, sampling, last);
        assert(t == p + o);
        assert(!front.contains(last)) by {
            if front.contains(last) {
                let w = choose|w: int| 0 <= w < front.len() && #[trigger] front[w] == last;
                assert(kinds[w] == kinds[kinds.len() - 1]);
            }
        }
        assert forall|i: int| 0 <= i < t.len() implies kinds.contains(#[trigger] t[i].module)
            && wants_ticks(modules, enabled, t[i].module)
            && t[i].interval_ms == sampling.spec_for_module(t[i].module).update_interval by {
            if i < p.len() {
                assert(t[i] == p[i]);
                let w = choose|w: int| 0 <= w < front.len() && #[trigger] front[w] == p[i].module;
                assert(kinds[w] == p[i].module);
            } else {
                assert(t[i] == o[i - p.len()]);
                assert(kinds[kinds.len() - 1] == last);
            }
        }
        assert forall|k: ModuleKind| kinds.contains(k) && wants_ticks(modules, enabled, k) implies exists|i: int|
            0 <= i < t.len() && #[trigger] t[i].module == k by {
            let w = choose|w: int| 0 <= w < kinds.len() && #[trigger] kinds[w] == k;
            if w < kinds.len() - 1 {
                assert(front[w] == k);
                assert(front.contains(k));
                let i = choose|i: int| 0 <= i < p.len() && #[trigger] p[i].module == k;
                assert(t[i] == p[i]);
            } else {
                assert(last == kinds[kinds.len() - 1]);
                assert(o.len() == 1);
                assert(t[p.len() as int] == o[0]);
                assert(t[p.len() as int].module == k);
            }
        }
        assert forall|i: int, j: int| 0 <= i < j < t.len() implies module_rank(#[trigger] t[i].module) < module_rank(#[trigger] t[j].module) by {
            if j < p.len() {
                assert(t[i] == p[i] && t[j] == p[j]);
            } else {
                assert(t[i] == p[i]);
                assert(t[j] == o[j - p.len()]);
                assert(t[j].module == last);
                assert(front.contains(p[i].module));
                let w = choose|w: int| 0 <= w < front.len() && #[trigger] front[w] == p[i].module;
                assert(kinds[w] == front[w]);
                assert(kinds[kinds.len() - 1] == last);
            }
        }
        assert forall|i: int, j: int| 0 <= i < j < t.len() implies #[trigger] t[i].module != #[trigger] t[j].module by {
            assert(module_rank(t[i].module) < module_rank(t[j].module));
        }
    }
}

/// Each module that is switched on and has a panel gets exactly one timer,
/// at its own update interval; a module switched off, or without a panel,
/// gets none; and the timers come in the order CPU, memory, network, disks,
/// GPU.
pub proof fn lemma_tick_schedule(
    modules: Seq<ModuleKind>,
    enabled: EnabledModules,
    sampling: SamplingConfig,
    kind: ModuleKind,
)
    ensures
        (exists|i: int|
            0 <= i < tick_schedule_view(modules, enabled, sampling).len()
                && #[trigger] tick_schedule_view(modules, enabled, sampling)[i].module == kind)
            <==> (enabled.spec_enabled(kind) && modules.contains(kind)),
        forall|i: int|
            0 <= i < tick_schedule_view(modules, enabled, sampling).len() ==> enabled.spec_enabled(
                #[trigger] tick_schedule_view(modules, enabled, sampling)[i].module,
            ) && modules.contains(tick_schedule_view(modules, enabled, sampling)[i].module),
        forall|i: int, j: int|
            0 <= i < j < tick_schedule_view(modules, enabled, sampling).len() ==> module_rank(
                #[trigger] tick_schedule_view(modules, enabled, sampling)[i].module,
            ) < module_rank(#[trigger] tick_schedule_view(modules, enabled, sampling)[j].module),
        forall|i: int|
            0 <= i < tick_schedule_view(modules, enabled, sampling).len() ==> #[trigger] tick_schedule_view(
                modules,
                enabled,
                sampling,
            )[i].interval_ms == sampling.spec_for_module(
                tick_schedule_view(modules, enabled, sampling)[i].module,
            ).update_interval,
        forall|i: int, j: int|
            0 <= i < j < tick_schedule_view(modules, enabled, sampling).len() ==> #[trigger] tick_schedule_view(
                modules,
                enabled,
                sampling,
            )[i].module != #[trigger] tick_schedule_view(modules, enabled, sampling)[j].module,
{
    let k = all_kinds();
    assert(k.no_duplicates());
    assert forall|i: int, j: int| 0 <= i < j < k.len() implies module_rank(#[trigger] k[i]) < module_rank(#[trigger] k[j]) by {
    }
    lemma_timers_for(k, modules, enabled, sampling);
    let t = tick_schedule_view(modules, enabled, sampling);
    match kind {
        ModuleKind::Cpu => assert(k[0] == kind),
        ModuleKind::Mem => assert(k[1] == kind),
        ModuleKind::Net => assert(k[2] == kind),
        ModuleKind::Disk => assert(k[3] == kind),
        ModuleKind::Gpu => assert(k[4] == kind),
    }
    assert(k.contains(kind));
    assert forall|i: int| 0 <= i < t.len() implies #[trigger] t[i].interval_ms
        == sampling.spec_for_module(t[i].module).update_interval by {
    }
}

/// The positions of the configured modules that are shown, in order.
pub open spec fn visible_indices(modules: Seq<ModuleKind>, enabled: EnabledModules) -> Seq<usize>
    decreases modules.len(),
{
    if modules.len() == 0 {
        Seq::empty()
    } else {
        let rest = visible_indices(modules.drop_last(), enabled);
        if enabled.spec_enabled(modules.last()) {
            rest.push((modules.len() - 1) as usize)
        } else {
            rest
        }
    }
}

/// The panels shown are exactly the configured modules that are switched
/// on, each once, in the order of the configuration.
pub proof fn lemma_visible_modules(modules: Seq<ModuleKind>, enabled: EnabledModules)
    requires
        modules.len() <= usize::MAX,
    ensures
        forall|i: int|
            0 <= i < visible_indices(modules, enabled).len() ==> #[trigger] visible_indices(modules, enabled)[i]
                < modules.len() && enabled.spec_enabled(
                modules[visible_indices(modules, enabled)[i] as int],
            ),
        forall|j: int|
            0 <= j < modules.len() && enabled.spec_enabled(#[trigger] modules[j]) ==> visible_indices(
                modules,
                enabled,
            ).contains(j as usize),
        forall|i: int, k: int|
            0 <= i < k < visible_indices(modules, enabled).len() ==> #[trigger] visible_indices(modules, enabled)[i]
                < #[trigger] visible_indices(modules, enabled)[k],
    decreases modules.len(),
{
    if modules.len() > 0 {
        let rest = modules.drop_last();
        lemma_visible_modules(rest, enabled);
        let v = visible_indices(modules, enabled);
        let r = visible_indices(rest, enabled);
        let n = (modules.len() - 1) as usize;
        let shown = enabled.spec_enabled(modules.last());
        assert(shown ==> v == r.push(n));
        assert(!shown ==> v == r);
        assert(modules.last() == modules[n as int]);
        assert forall|i: int| 0 <= i < r.len() implies #[trigger] v[i] == r[i] && r[i] < n && modules[r[i] as int] == rest[r[i] as int] by {
        }
        assert forall|j: int| 0 <= j < modules.len() && enabled.spec_enabled(#[trigger] modules[j]) implies v.contains(j as usize) by {
            if j < n {
                assert(rest[j] == modules[j]);
                assert(r.contains(j as usize));
                let w = choose|w: int| 0 <= w < r.len() && #[trigger] r[w] == j as usize;
                assert(v[w] == r[w]);
            } else {
                assert(v[v.len() - 1] == n);
            }
        }
        assert forall|i: int| 0 <= i < v.len() implies #[trigger] v[i] < modules.len() && enabled.spec_enabled(modules[v[i] as int]) by {
            if i < r.len() {
                assert(v[i] == r[i]);
            } else {
                assert(v[i] == n);
            }
        }
        assert forall|i: int, k: int| 0 <= i < k < v.len() implies #[trigger] v[i] < #[trigger] v[k] by {
            if k < r.len() {
                assert(v[i] == r[i] && v[k] == r[k]);
            } else {
                assert(v[i] == r[i]);
                assert(v[k] == n);
            }
        }
    }
}

/// The positions, among the configured modules, of those that are shown.
pub fn visible_modules(modules: &Vec<ModuleKind>, enabled: EnabledModules) -> (v: Vec<usize>)
    ensures
        v@ == visible_indices(modules@, enabled),
{
    let mut v: Vec<usize> = Vec::new();
    let mut i: usize = 0;
    while i < modules.len()
        invariant
            i <= modules@.len(),
            v@ == visible_indices(modules@.take(i as int), enabled),
        decreases modules@.len() - i,
    {
        assert(modules@.take(i + 1).drop_last() =~= modules@.take(i as int));
        if enabled.enabled(modules[i]) {
            v.push(i);
        }
        i = i + 1;
    }
    assert(modules@.take(modules@.len() as int) =~= modules@);
    v
}


/// What toggling the settings popup does.
#[derive(Clone, Copy, Debug, PartialEq, Eq, Structural)]
pub enum PopupAction {
    /// the open popup with this id is destroyed
    Destroy(u64),
    /// a new popup is created
    Create,
}

/// The popup after a window closes: none when the closed window is the
/// popup, else unchanged.
pub fn popup_after_close(popup: Option<u64>, closed: u64) -> (p: Option<u64>)
    ensures
        p == (if popup == Some(closed) { None } else { popup }),
{
    match popup {
        Some(id) => if id == closed {
            None
        } else {
            popup
        },
        None => None,
    }
}

/// Toggles the settings popup: an open popup is destroyed, otherwise one is
/// created. Either way no popup is open afterwards until the new one is
/// recorded.
pub fn toggle_popup(popup: &mut Option<u64>) -> (a: PopupAction)
    ensures
        *final(popup) == None::<u64>,
        a == (match *old(popup) {
            Some(id) => PopupAction::Destroy(id),
            None => PopupAction::Create,
        }),
{
    match popup.take() {
        Some(id) => PopupAction::Destroy(id),
        None => PopupAction::Create,
    }
}

} // verus!
