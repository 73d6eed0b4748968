//! The applet's settings: which modules are shown, how texts and icons look,
//! how often each module is sampled, the keys of the stored configuration, and
//! what loading and reloading it leads to.
use vstd::prelude::*;
use crate::text::same_text;

verus! {

/// How the icons next to the texts are coloured.
#[derive(Clone, Copy, Debug, PartialEq, Eq, Structural)]
pub enum IconColorMode {
    Auto,
    White,
    Black,
}

/// Whether texts carry a label ("CPU 12.0%") or only the figure ("12.0%").
#[derive(Clone, Copy, Debug, PartialEq, Eq, Structural)]
pub enum TextFormatMode {
    Compact,
    Labeled,
}

/// The sampling speed chosen in the settings popup.
#[derive(Clone, Copy, Debug, PartialEq, Eq, Structural)]
pub enum QuickIntervalProfile {
    Fast,
    Normal,
    Slow,
}

/// The five kinds of panel the applet can show.
#[derive(Clone, Copy, Debug, PartialEq, Eq, Structural)]
pub enum ModuleKind {
    Cpu,
    Mem,
    Net,
    Disk,
    Gpu,
}

/// Which modules the user has switched on.
#[derive(Clone, Copy, Debug, PartialEq, Eq, Structural)]
pub struct EnabledModules {
    pub cpu: bool,
    pub mem: bool,
    pub net: bool,
    pub disk: bool,
    pub gpu: bool,
}

/// User interface settings.
#[derive(Clone, Copy, Debug, PartialEq, Eq, Structural)]
pub struct UiConfig {
    pub show_cpu_temperature: bool,
    pub icon_color_mode: IconColorMode,
    pub text_format_mode: TextFormatMode,
    pub quick_interval_profile: QuickIntervalProfile,
    pub enabled_modules: EnabledModules,
}

/// How one module is sampled.
#[derive(Clone, Copy, Debug, PartialEq, Eq, Structural)]
pub struct Sampling {
    /// amount of time (in milliseconds) between new data
    pub update_interval: u64,
    /// size of the history kept and shown in the run chart
    pub sampling_window: usize,
}

/// The sampling of every module.
#[derive(Clone, Copy, Debug, PartialEq, Eq, Structural)]
pub struct SamplingConfig {
    pub cpu: Sampling,
    pub mem: Sampling,
    pub net: Sampling,
    pub disk: Sampling,
    pub gpu: Sampling,
}

impl EnabledModules {
    /// Whether the module of the given kind is switched on.
    pub open spec fn spec_enabled(self, kind: ModuleKind) -> bool {
        match kind {
            ModuleKind::Cpu => self.cpu,
            ModuleKind::Mem => self.mem,
            ModuleKind::Net => self.net,
            ModuleKind::Disk => self.disk,
            ModuleKind::Gpu => self.gpu,
        }
    }

    /// Whether the module of the given kind is switched on.
    #[verifier::when_used_as_spec(spec_enabled)]
    pub fn enabled(self, kind: ModuleKind) -> (b: bool)
        ensures
            b == self.spec_enabled(kind),
    {
        match kind {
            ModuleKind::Cpu => self.cpu,
            ModuleKind::Mem => self.mem,
            ModuleKind::Net => self.net,
            ModuleKind::Disk => self.disk,
            ModuleKind::Gpu => self.gpu,
        }
    }
}

/// The modules shown by default: everything but the network.
pub open spec fn default_enabled_modules() -> EnabledModules {
    EnabledModules { cpu: true, mem: true, net: false, disk: true, gpu: true }
}

/// The default user interface settings: CPU temperature shown, icons in the
/// theme's colour, labeled texts, normal sampling speed.
pub open spec fn default_ui_config() -> UiConfig {
    UiConfig {
        show_cpu_temperature: true,
        icon_color_mode: IconColorMode::Auto,
        text_format_mode: TextFormatMode::Labeled,
        quick_interval_profile: QuickIntervalProfile::Normal,
        enabled_modules: default_enabled_modules(),
    }
}

impl Default for EnabledModules {
    /// Everything but the network is shown.
    fn default() -> (m: Self)
        ensures
            m == default_enabled_modules(),
    {
        EnabledModules { cpu: true, mem: true, net: false, disk: true, gpu: true }
    }
}

impl Default for UiConfig {
    fn default() -> (c: Self)
        ensures
            c == default_ui_config(),
    {
        UiConfig {
            show_cpu_temperature: true,
            icon_color_mode: IconColorMode::Auto,
            text_format_mode: TextFormatMode::Labeled,
            quick_interval_profile: QuickIntervalProfile::Normal,
            enabled_modules: EnabledModules::default(),
        }
    }
}

/// The interval, in milliseconds, that a profile samples at.
pub open spec fn profile_interval(profile: QuickIntervalProfile) -> u64 {
    match profile {
        QuickIntervalProfile::Fast => 1000,
        QuickIntervalProfile::Normal => 5000,
        QuickIntervalProfile::Slow => 10000,
    }
}

/// Every module sampled every `interval` milliseconds, with a history of
/// 60 samples for the CPU and the disks and of 30 for the others.
pub open spec fn uniform_sampling(interval: u64) -> SamplingConfig {
    SamplingConfig {
        cpu: Sampling { update_interval: interval, sampling_window: 60 },
        mem: Sampling { update_interval: interval, sampling_window: 30 },
        net: Sampling { update_interval: interval, sampling_window: 30 },
        disk: Sampling { update_interval: interval, sampling_window: 60 },
        gpu: Sampling { update_interval: interval, sampling_window: 30 },
    }
}

/// The default sampling: every module every five seconds.
pub open spec fn default_sampling_config() -> SamplingConfig {
    uniform_sampling(5000)
}

impl SamplingConfig {
    /// The sampling of the module of the given kind.
    pub open spec fn spec_for_module(self, kind: ModuleKind) -> Sampling {
        match kind {
            ModuleKind::Cpu => self.cpu,
            ModuleKind::Mem => self.mem,
            ModuleKind::Net => self.net,
            ModuleKind::Disk => self.disk,
            ModuleKind::Gpu => self.gpu,
        }
    }

    /// The sampling of the module of the given kind.
    #[verifier::when_used_as_spec(spec_for_module)]
    pub fn for_module(self, kind: ModuleKind) -> (s: Sampling)
        ensures
            s == self.spec_for_module(kind),
    {
        match kind {
            ModuleKind::Cpu => self.cpu,
            ModuleKind::Mem => self.mem,
            ModuleKind::Net => self.net,
            ModuleKind::Disk => self.disk,
            ModuleKind::Gpu => self.gpu,
        }
    }
}

impl Default for SamplingConfig {
    /// Every module sampled every five seconds.
    fn default() -> (c: Self)
        ensures
            c == default_sampling_config(),
    {
        SamplingConfig {
            cpu: Sampling { update_interval: 5000, sampling_window: 60 },
            mem: Sampling { update_interval: 5000, sampling_window: 30 },
            net: Sampling { update_interval: 5000, sampling_window: 30 },
            disk: Sampling { update_interval: 5000, sampling_window: 60 },
            gpu: Sampling { update_interval: 5000, sampling_window: 30 },
        }
    }
}

/// The sampling that a quick interval profile selects.
pub fn sampling_config_for_profile(profile: QuickIntervalProfile) -> (c: SamplingConfig)
    ensures
        c == uniform_sampling(profile_interval(profile)),
{
    let interval: u64 = match profile {
        QuickIntervalProfile::Fast => 1000,
        QuickIntervalProfile::Normal => 5000,
        QuickIntervalProfile::Slow => 10000,
    };
    SamplingConfig {
        cpu: Sampling { update_interval: interval, sampling_window: 60 },
        mem: Sampling { update_interval: interval, sampling_window: 30 },
        net: Sampling { update_interval: interval, sampling_window: 30 },
        disk: Sampling { update_interval: interval, sampling_window: 60 },
        gpu: Sampling { update_interval: interval, sampling_window: 30 },
    }
}


/// The default sampling is the one the default interval profile selects.
pub proof fn lemma_default_sampling_is_default_profile()
    ensures
        default_sampling_config() == uniform_sampling(
            profile_interval(default_ui_config().quick_interval_profile),
        ),
{
}

/// An interval profile samples every module at its interval, and all
/// profiles keep the same history windows.
pub proof fn lemma_profile_sampling(p: QuickIntervalProfile, q: QuickIntervalProfile, kind: ModuleKind)
    ensures
        uniform_sampling(profile_interval(p)).spec_for_module(kind).update_interval
            == profile_interval(p),
        uniform_sampling(profile_interval(p)).spec_for_module(kind).sampling_window
            == uniform_sampling(profile_interval(q)).spec_for_module(kind).sampling_window,
        profile_interval(QuickIntervalProfile::Fast) < profile_interval(QuickIntervalProfile::Normal)
            < profile_interval(QuickIntervalProfile::Slow),
{
}

/// The entries of the stored configuration.
#[derive(Clone, Copy, Debug, PartialEq, Eq, Structural)]
pub enum ConfigField {
    Sampling,
    Components,
    Layout,
    TooltipEnabled,
    Ui,
}

/// The key under which an entry is stored.
pub open spec fn field_key(field: ConfigField) -> Seq<char> {
    match field {
        ConfigField::Sampling => "sampling"@,
        ConfigField::Components => "components"@,
        ConfigField::Layout => "layout"@,
        ConfigField::TooltipEnabled => "tooltip_enabled"@,
        ConfigField::Ui => "ui"@,
    }
}

/// The entry stored under a key, if any.
pub open spec fn field_of_key(key: Seq<char>) -> Option<ConfigField> {
    if key == "sampling"@ {
        Some(ConfigField::Sampling)
    } else if key == "components"@ {
        Some(ConfigField::Components)
    } else if key == "layout"@ {
        Some(ConfigField::Layout)
    } else if key == "tooltip_enabled"@ {
        Some(ConfigField::TooltipEnabled)
    } else if key == "ui"@ {
        Some(ConfigField::Ui)
    } else {
        None
    }
}

impl ConfigField {
    /// The key under which this entry is stored.
    pub fn key(self) -> (k: &'static str)
        ensures
            k@ == field_key(self),
    {
        match self {
            ConfigField::Sampling => "sampling",
            ConfigField::Components => "components",
            ConfigField::Layout => "layout",
            ConfigField::TooltipEnabled => "tooltip_enabled",
            ConfigField::Ui => "ui",
        }
    }
}

/// The entry stored under a key; `None` for a key the configuration does
/// not have.
pub fn field_for_key(key: &str) -> (f: Option<ConfigField>)
    ensures
        f == field_of_key(key@),
{
    if same_text(key, "sampling") {
        Some(ConfigField::Sampling)
    } else if same_text(key, "components") {
        Some(ConfigField::Components)
    } else if same_text(key, "layout") {
        Some(ConfigField::Layout)
    } else if same_text(key, "tooltip_enabled") {
        Some(ConfigField::TooltipEnabled)
    } else if same_text(key, "ui") {
        Some(ConfigField::Ui)
    } else {
        None
    }
}

/// Every entry is found again under its key, and a key names the entry
/// stored under it and no other.
pub proof fn lemma_field_key_roundtrip(field: ConfigField, key: Seq<char>)
    ensures
        field_of_key(field_key(field)) == Some(field),
        field_of_key(key) == Some(field) ==> key == field_key(field),
{
    reveal_strlit("sampling");
    reveal_strlit("components");
    reveal_strlit("layout");
    reveal_strlit("tooltip_enabled");
    reveal_strlit("ui");
    assert(field_key(ConfigField::Sampling)[0] == 's');
    assert(field_key(ConfigField::Components)[0] == 'c');
    assert(field_key(ConfigField::Layout)[0] == 'l');
    assert(field_key(ConfigField::TooltipEnabled)[0] == 't');
    assert(field_key(ConfigField::Ui)[0] == 'u');
}

/// The entries to reload for a list of changed keys, in the order of the
/// keys; keys the configuration does not have are skipped.
pub open spec fn fields_of_keys(keys: Seq<Seq<char>>) -> Seq<ConfigField>
    decreases keys.len(),
{
    if keys.len() == 0 {
        Seq::empty()
    } else {
        let rest = fields_of_keys(keys.drop_last());
        match field_of_key(keys.last()) {
            Some(f) => rest.push(f),
            None => rest,
        }
    }
}

/// The entries to reload when the stored configuration reports changed keys.
pub fn fields_to_reload(changed_keys: &Vec<String>) -> (v: Vec<ConfigField>)
    ensures
        v@ == fields_of_keys(changed_keys@.map_values(|k: String| k@)),
{
    let ghost keys = changed_keys@.map_values(|k: String| k@);
    let mut v: Vec<ConfigField> = Vec::new();
    let mut i: usize = 0;
    while i < changed_keys.len()
        invariant
            i <= changed_keys@.len(),
            keys == changed_keys@.map_values(|k: String| k@),
            v@ == fields_of_keys(keys.take(i as int)),
        decreases changed_keys@.len() - i,
    {
        assert(keys.take(i + 1).drop_last() =~= keys.take(i as int));
        assert(keys.take(i + 1).last() == changed_keys@[i as int]@);
        match field_for_key(changed_keys[i].as_str()) {
            Some(f) => v.push(f),
            None => {},
        }
        i = i + 1;
    }
    assert(keys.take(changed_keys@.len() as int) =~= keys);
    v
}


/// The entries in the order the stored configuration is loaded.
pub open spec fn config_field_order() -> Seq<ConfigField> {
    seq![
        ConfigField::Sampling,
        ConfigField::Components,
        ConfigField::Layout,
        ConfigField::TooltipEnabled,
        ConfigField::Ui,
    ]
}

/// The entries in the order the stored configuration is loaded.
pub fn config_fields() -> (v: Vec<ConfigField>)
    ensures
        v@ == config_field_order(),
{
    let mut v = Vec::new();
    v.push(ConfigField::Sampling);
    v.push(ConfigField::Components);
    v.push(ConfigField::Layout);
    v.push(ConfigField::TooltipEnabled);
    v.push(ConfigField::Ui);
    assert(v@ =~= config_field_order());
    v
}

/// How loading one entry of the stored configuration went.
#[derive(Clone, Copy, Debug, PartialEq, Eq, Structural)]
pub enum ReadOutcome {
    /// the entry was read and is used
    Found,
    /// the entry is not stored, which is no error: the default stays and is
    /// written back
    Missing,
    /// reading the entry failed: the default stays and the error is reported
    Failed,
}

/// How reloading one changed entry went.
#[derive(Clone, Copy, Debug, PartialEq, Eq, Structural)]
pub enum ReloadOutcome {
    /// the entry was read and holds the value already in use
    Unchanged,
    /// the entry was read and holds a new value
    Changed,
    /// reading the entry failed: the value in use stays, the error is reported
    Failed,
}

/// The entries, in order, whose outcome is `outcome`.
pub open spec fn fields_with<T>(reads: Seq<(ConfigField, T)>, outcome: T) -> Seq<ConfigField>
    decreases reads.len(),
{
    if reads.len() == 0 {
        Seq::empty()
    } else {
        let rest = fields_with(reads.drop_last(), outcome);
        if reads.last().1 == outcome {
            rest.push(reads.last().0)
        } else {
            rest
        }
    }
}

/// What follows from loading the stored configuration.
pub struct LoadPlan {
    /// the entries whose default is written back, in order
    pub write_defaults: Vec<ConfigField>,
    /// the entries whose error is reported, in order
    pub errors: Vec<ConfigField>,
    /// the configuration loaded without an error
    pub complete: bool,
}

/// What to do once every entry has been read: write back the defaults of
/// the entries not stored, report the failed ones in the order they were
/// read, and count the load complete when none failed.
pub fn plan_load(reads: &Vec<(ConfigField, ReadOutcome)>) -> (p: LoadPlan)
    ensures
        p.write_defaults@ == fields_with(reads@, ReadOutcome::Missing),
        p.errors@ == fields_with(reads@, ReadOutcome::Failed),
        p.complete <==> fields_with(reads@, ReadOutcome::Failed).len() == 0,
{
    let mut write_defaults: Vec<ConfigField> = Vec::new();
    let mut errors: Vec<ConfigField> = Vec::new();
    let mut i: usize = 0;
    while i < reads.len()
        invariant
            i <= reads@.len(),
            write_defaults@ == fields_with(reads@.take(i as int), ReadOutcome::Missing),
            errors@ == fields_with(reads@.take(i as int), ReadOutcome::Failed),
        decreases reads@.len() - i,
    {
        assert(reads@.take(i + 1).drop_last() =~= reads@.take(i as int));
        let (field, outcome) = reads[i];
        match outcome {
            ReadOutcome::Found => {},
            ReadOutcome::Missing => write_defaults.push(field),
            ReadOutcome::Failed => errors.push(field),
        }
        i = i + 1;
    }
    assert(reads@.take(reads@.len() as int) =~= reads@);
    let complete = errors.len() == 0;
    LoadPlan { write_defaults, errors, complete }
}

/// What follows from reloading changed entries.
pub struct ReloadPlan {
    /// the entries reported as changed, in order
    pub changed: Vec<ConfigField>,
    /// the entries whose error is reported, in order
    pub errors: Vec<ConfigField>,
}

/// What to report once the changed entries have been reread: the entries
/// whose value is new, and the entries that failed, each in the order read.
pub fn plan_reload(reads: &Vec<(ConfigField, ReloadOutcome)>) -> (p: ReloadPlan)
    ensures
        p.changed@ == fields_with(reads@, ReloadOutcome::Changed),
        p.errors@ == fields_with(reads@, ReloadOutcome::Failed),
{
    let mut changed: Vec<ConfigField> = Vec::new();
    let mut errors: Vec<ConfigField> = Vec::new();
    let mut i: usize = 0;
    while i < reads.len()
        invariant
            i <= reads@.len(),
            changed@ == fields_with(reads@.take(i as int), ReloadOutcome::Changed),
            errors@ == fields_with(reads@.take(i as int), ReloadOutcome::Failed),
        decreases reads@.len() - i,
    {
        assert(reads@.take(i + 1).drop_last() =~= reads@.take(i as int));
        let (field, outcome) = reads[i];
        match outcome {
            ReloadOutcome::Unchanged => {},
            ReloadOutcome::Changed => changed.push(field),
            ReloadOutcome::Failed => errors.push(field),
        }
        i = i + 1;
    }
    assert(reads@.take(reads@.len() as int) =~= reads@);
    ReloadPlan { changed, errors }
}

} // verus!
