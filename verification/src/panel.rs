//! What each view of the memory, network, disk and GPU modules shows: its
//! text, its tooltip and its bars.
use vstd::prelude::*;
use crate::format::{bytes_text, format_bytes, format_percentage, percentage_text};
use crate::text::{dec, push_decimal};
use crate::tooltip::{
    disk_line_text, disk_space_tooltip_text, disk_tooltip_text, format_disk_space_tooltip,
    format_disk_tooltip, format_disk_tooltip_inner, format_gpu_tooltip, format_gpu_usage_tooltip,
    format_gpu_vram_tooltip, format_mem_tooltip, format_network_tooltip,
    format_network_tooltip_inner, format_ram_tooltip, format_swap_tooltip, gpu_tooltip_text,
    gpu_usage_tooltip_text, gpu_vram_tooltip_text, mem_tooltip_text, network_line_text,
    network_tooltip_text, ram_tooltip_text, swap_tooltip_text, GpuData,
};

verus! {

/// The ways a pair of rates (network down/up, disk read/write) can be shown.
#[derive(Clone, Copy, Debug, PartialEq, Eq, Structural)]
pub enum IoViewKind {
    /// both rates superimposed in one run chart
    Run,
    /// run chart of the input rate
    RunBack,
    /// run chart of the output rate
    RunFront,
    /// both rates as text
    Text,
    /// for disks, the share of space used; elsewhere the same as `Text`
    TextSpace,
    /// the input rate as text
    TextBack,
    /// the output rate as text
    TextFront,
}

/// The ways a pair of shares (RAM/swap, GPU usage/VRAM) can be shown.
#[derive(Clone, Copy, Debug, PartialEq, Eq, Structural)]
pub enum PercentViewKind {
    Run,
    RunBack,
    RunFront,
    Bar,
    BarLeft,
    BarRight,
    Text,
    TextLeft,
    TextRight,
}

/// The latest figures the panels show, in bytes and bytes per refresh.
#[derive(Clone, Copy, Debug, PartialEq, Eq, Structural)]
pub struct Readings {
    pub ram_used: u64,
    pub ram_total: u64,
    pub swap_used: u64,
    pub swap_total: u64,
    pub download: u64,
    pub upload: u64,
    pub disk_read: u64,
    pub disk_write: u64,
    pub disk_total: u64,
    pub disk_used: u64,
}

/// A bar filled to `value` out of `max`, with its own tooltip.
pub struct Gauge {
    pub value: u64,
    pub max: u64,
    pub tooltip: String,
}

/// What a gauge shows.
pub struct GaugeView {
    pub value: nat,
    pub max: nat,
    pub tooltip: Seq<char>,
}

/// What one view item of a module shows: a text (for the text views), the
/// tooltip of the whole item, and its bars (for the bar views). Run charts
/// have neither text nor bars.
pub struct Panel {
    pub text: Option<String>,
    pub tooltip: String,
    pub gauges: Vec<Gauge>,
}

/// What a panel shows.
pub struct PanelView {
    pub text: Option<Seq<char>>,
    pub tooltip: Seq<char>,
    pub gauges: Seq<GaugeView>,
}

impl View for Gauge {
    type V = GaugeView;

    open spec fn view(&self) -> GaugeView {
        GaugeView { value: self.value as nat, max: self.max as nat, tooltip: self.tooltip@ }
    }
}

/// The view of an optional text.
pub open spec fn text_view(t: Option<String>) -> Option<Seq<char>> {
    match t {
        Some(s) => Some(s@),
        None => None,
    }
}

impl View for Panel {
    type V = PanelView;

    open spec fn view(&self) -> PanelView {
        PanelView {
            text: text_view(self.text),
            tooltip: self.tooltip@,
            gauges: self.gauges@.map_values(|g: Gauge| g@),
        }
    }
}

/// "<label> <value>" when texts are labeled, else "<value>".
pub open spec fn labeled_text(labeled: bool, label: Seq<char>, value: Seq<char>) -> Seq<char> {
    if labeled {
        label + " "@ + value
    } else {
        value
    }
}

/// "<label> <rate>/s".
pub open spec fn rate_text(label: Seq<char>, rate: nat) -> Seq<char> {
    label + " "@ + bytes_text(rate) + "/s"@
}

/// Both rates of a pair: "<back label> <back>/s | <front label> <front>/s"
/// when labeled, else "<back>/s | <front>/s".
pub open spec fn io_text(
    labeled: bool,
    back_label: Seq<char>,
    front_label: Seq<char>,
    back: nat,
    front: nat,
) -> Seq<char> {
    if labeled {
        back_label + " "@ + bytes_text(back) + "/s | "@ + front_label + " "@ + bytes_text(front)
            + "/s"@
    } else {
        bytes_text(back) + "/s | "@ + bytes_text(front) + "/s"@
    }
}

/// RAM and swap shares: "RAM <ram> | SWAP <swap>" when labeled, else
/// "<ram> | <swap>"; the swap share is "N/A" when there is no swap.
pub open spec fn mem_text(labeled: bool, r: Readings) -> Seq<char> {
    let ram = percentage_text(r.ram_used as nat, r.ram_total as nat);
    let swap = if r.swap_total == 0 {
        "N/A"@
    } else {
        percentage_text(r.swap_used as nat, r.swap_total as nat)
    };
    if labeled {
        "RAM "@ + ram + " | SWAP "@ + swap
    } else {
        ram + " | "@ + swap
    }
}

/// GPU usage and VRAM share: "GPU <u>% | VRAM <v>" when labeled, else
/// "<u>% | <v>".
pub open spec fn gpu_text(labeled: bool, data: GpuData) -> Seq<char> {
    let usage = dec(data.usage as nat) + "%"@;
    let vram = percentage_text(data.used_vram as nat, data.total_vram as nat);
    if labeled {
        "GPU "@ + usage + " | VRAM "@ + vram
    } else {
        usage + " | "@ + vram
    }
}

/// A panel with a text and a tooltip.
pub open spec fn text_panel(text: Seq<char>, tooltip: Seq<char>) -> PanelView {
    PanelView { text: Some(text), tooltip, gauges: Seq::empty() }
}

/// A run chart with a tooltip.
pub open spec fn chart_panel(tooltip: Seq<char>) -> PanelView {
    PanelView { text: None, tooltip, gauges: Seq::empty() }
}

/// A single bar, whose tooltip is that of the panel.
pub open spec fn bar_panel(value: nat, max: nat, tooltip: Seq<char>) -> PanelView {
    PanelView {
        text: None,
        tooltip,
        gauges: seq![GaugeView { value, max, tooltip }],
    }
}

/// Two bars side by side, each with its tooltip, under the panel's tooltip.
pub open spec fn double_bar_panel(left: GaugeView, right: GaugeView, tooltip: Seq<char>) -> PanelView {
    PanelView { text: None, tooltip, gauges: seq![left, right] }
}

/// The label of the network's download rate.
pub open spec fn down_label(labeled: bool) -> Seq<char> {
    if labeled { "DOWN"@ } else { "↓"@ }
}

/// The label of the network's upload rate.
pub open spec fn up_label(labeled: bool) -> Seq<char> {
    if labeled { "UP"@ } else { "↑"@ }
}

/// The label of the disks' read rate.
pub open spec fn read_label(labeled: bool) -> Seq<char> {
    if labeled { "READ"@ } else { "R"@ }
}

/// The label of the disks' write rate.
pub open spec fn write_label(labeled: bool) -> Seq<char> {
    if labeled { "WRITE"@ } else { "W"@ }
}

/// What a network view item shows. The text views of a single rate show the
/// download (the input) or the upload (the output) with its own line as
/// tooltip; the run charts of a single rate carry the swap tooltip.
pub open spec fn net_panel_view(view: IoViewKind, labeled: bool, r: Readings) -> PanelView {
    let down = r.download as nat;
    let up = r.upload as nat;
    match view {
        IoViewKind::Text | IoViewKind::TextSpace => text_panel(
            io_text(labeled, down_label(labeled), up_label(labeled), down, up),
            network_tooltip_text(down, up),
        ),
        IoViewKind::TextBack => text_panel(
            rate_text(down_label(labeled), down),
            network_line_text(false, down),
        ),
        IoViewKind::TextFront => text_panel(
            rate_text(up_label(labeled), up),
            network_line_text(true, up),
        ),
        IoViewKind::Run => chart_panel(network_tooltip_text(down, up)),
        IoViewKind::RunBack | IoViewKind::RunFront => chart_panel(
            swap_tooltip_text(r.swap_used as nat, r.swap_total as nat),
        ),
    }
}

/// The share of disk space in use: the percentage, or "0%" when the disks
/// have no space at all.
pub open spec fn disk_space_text(total: nat, used: nat) -> Seq<char> {
    if total > 0 {
        percentage_text(used, total)
    } else {
        "0%"@
    }
}

/// What a disk view item shows. The text views of a single rate show the
/// reads (the input) or the writes (the output) with its own line as
/// tooltip; the run charts of a single rate carry the swap tooltip.
pub open spec fn disk_panel_view(view: IoViewKind, labeled: bool, r: Readings) -> PanelView {
    let read = r.disk_read as nat;
    let write = r.disk_write as nat;
    match view {
        IoViewKind::TextSpace => text_panel(
            labeled_text(labeled, "DISK"@, disk_space_text(r.disk_total as nat, r.disk_used as nat)),
            disk_space_tooltip_text(r.disk_total as nat, r.disk_used as nat),
        ),
        IoViewKind::Text => text_panel(
            io_text(labeled, read_label(labeled), write_label(labeled), read, write),
            disk_tooltip_text(read, write),
        ),
        IoViewKind::TextBack => text_panel(
            rate_text(read_label(labeled), read),
            disk_line_text(false, read),
        ),
        IoViewKind::TextFront => text_panel(
            rate_text(write_label(labeled), write),
            disk_line_text(true, write),
        ),
        IoViewKind::Run => chart_panel(disk_tooltip_text(read, write)),
        IoViewKind::RunBack | IoViewKind::RunFront => chart_panel(
            swap_tooltip_text(r.swap_used as nat, r.swap_total as nat),
        ),
    }
}

/// What a memory view item shows.
pub open spec fn mem_panel_view(view: PercentViewKind, labeled: bool, r: Readings) -> PanelView {
    let ram_used = r.ram_used as nat;
    let ram_total = r.ram_total as nat;
    let swap_used = r.swap_used as nat;
    let swap_total = r.swap_total as nat;
    let ram_tip = ram_tooltip_text(ram_used, ram_total);
    let swap_tip = swap_tooltip_text(swap_used, swap_total);
    let mem_tip = mem_tooltip_text(ram_used, ram_total, swap_used, swap_total);
    match view {
        PercentViewKind::Text => text_panel(mem_text(labeled, r), mem_tip),
        PercentViewKind::TextLeft => text_panel(
            labeled_text(labeled, "RAM"@, percentage_text(ram_used, ram_total)),
            ram_tip,
        ),
        PercentViewKind::TextRight => if swap_total == 0 {
            text_panel(if labeled { "SWAP N/A"@ } else { "N/A"@ }, "Swap: Not available"@)
        } else {
            text_panel(labeled_text(labeled, "SWAP"@, percentage_text(swap_used, swap_total)), swap_tip)
        },
        PercentViewKind::Bar => double_bar_panel(
            GaugeView { value: ram_used, max: ram_total, tooltip: ram_tip },
            GaugeView { value: swap_used, max: swap_total, tooltip: swap_tip },
            mem_tip,
        ),
        PercentViewKind::BarLeft => bar_panel(ram_used, ram_total, ram_tip),
        PercentViewKind::BarRight => bar_panel(swap_used, swap_total, swap_tip),
        PercentViewKind::Run => chart_panel(mem_tip),
        PercentViewKind::RunBack => chart_panel(ram_tip),
        PercentViewKind::RunFront => chart_panel(swap_tip),
    }
}

/// What a view item of the GPU numbered `index` shows. Usage bars are out of
/// 100; both single run charts, the VRAM one too, carry the usage tooltip.
pub open spec fn gpu_panel_view(view: PercentViewKind, labeled: bool, index: nat, data: GpuData) -> PanelView {
    let usage_tip = gpu_usage_tooltip_text(index, data);
    let vram_tip = gpu_vram_tooltip_text(index, data);
    let gpu_tip = gpu_tooltip_text(index, data);
    let usage = data.usage as nat;
    let used = data.used_vram as nat;
    let total = data.total_vram as nat;
    match view {
        PercentViewKind::Text => text_panel(gpu_text(labeled, data), gpu_tip),
        PercentViewKind::TextLeft => text_panel(
            labeled_text(labeled, "GPU"@, dec(usage) + "%"@),
            usage_tip,
        ),
        PercentViewKind::TextRight => text_panel(
            labeled_text(labeled, "VRAM"@, percentage_text(used, total)),
            vram_tip,
        ),
        PercentViewKind::Bar => double_bar_panel(
            GaugeView { value: usage, max: 100, tooltip: usage_tip },
            GaugeView { value: used, max: total, tooltip: vram_tip },
            gpu_tip,
        ),
        PercentViewKind::BarLeft => bar_panel(usage, 100, usage_tip),
        PercentViewKind::BarRight => bar_panel(used, total, vram_tip),
        PercentViewKind::Run => chart_panel(gpu_tip),
        PercentViewKind::RunBack | PercentViewKind::RunFront => chart_panel(usage_tip),
    }
}


/// The bars of the memory views: the RAM bar holds the RAM in use out of all
/// the RAM, the swap bar the swap in use out of all the swap, the double bar
/// both in that order; every other memory view has no bar. The text views,
/// and only they, have a text.
pub proof fn lemma_memory_bars(view: PercentViewKind, labeled: bool, r: Readings)
    ensures
        mem_panel_view(PercentViewKind::BarLeft, labeled, r).gauges == seq![
            GaugeView { value: r.ram_used as nat, max: r.ram_total as nat, tooltip: ram_tooltip_text(r.ram_used as nat, r.ram_total as nat) },
        ],
        mem_panel_view(PercentViewKind::BarLeft, labeled, r).tooltip == ram_tooltip_text(r.ram_used as nat, r.ram_total as nat),
        mem_panel_view(PercentViewKind::BarRight, labeled, r).gauges == seq![
            GaugeView { value: r.swap_used as nat, max: r.swap_total as nat, tooltip: swap_tooltip_text(r.swap_used as nat, r.swap_total as nat) },
        ],
        mem_panel_view(PercentViewKind::BarRight, labeled, r).tooltip == swap_tooltip_text(r.swap_used as nat, r.swap_total as nat),
        mem_panel_view(PercentViewKind::Bar, labeled, r).gauges == seq![
            GaugeView { value: r.ram_used as nat, max: r.ram_total as nat, tooltip: ram_tooltip_text(r.ram_used as nat, r.ram_total as nat) },
            GaugeView { value: r.swap_used as nat, max: r.swap_total as nat, tooltip: swap_tooltip_text(r.swap_used as nat, r.swap_total as nat) },
        ],
        view != PercentViewKind::Bar && view != PercentViewKind::BarLeft && view != PercentViewKind::BarRight
            ==> mem_panel_view(view, labeled, r).gauges.len() == 0,
        mem_panel_view(view, labeled, r).text is Some <==> (view == PercentViewKind::Text || view
            == PercentViewKind::TextLeft || view == PercentViewKind::TextRight),
{
}

/// The bars of the GPU views: the usage bar holds the usage out of 100, the
/// VRAM bar the memory in use out of all of it, the double bar both in that
/// order; every other GPU view has no bar. The text views, and only they,
/// have a text.
pub proof fn lemma_gpu_bars(view: PercentViewKind, labeled: bool, index: nat, data: GpuData)
    ensures
        gpu_panel_view(PercentViewKind::BarLeft, labeled, index, data).gauges == seq![
            GaugeView { value: data.usage as nat, max: 100, tooltip: gpu_usage_tooltip_text(index, data) },
        ],
        gpu_panel_view(PercentViewKind::BarRight, labeled, index, data).gauges == seq![
            GaugeView { value: data.used_vram as nat, max: data.total_vram as nat, tooltip: gpu_vram_tooltip_text(index, data) },
        ],
        gpu_panel_view(PercentViewKind::Bar, labeled, index, data).gauges == seq![
            GaugeView { value: data.usage as nat, max: 100, tooltip: gpu_usage_tooltip_text(index, data) },
            GaugeView { value: data.used_vram as nat, max: data.total_vram as nat, tooltip: gpu_vram_tooltip_text(index, data) },
        ],
        view != PercentViewKind::Bar && view != PercentViewKind::BarLeft && view != PercentViewKind::BarRight
            ==> gpu_panel_view(view, labeled, index, data).gauges.len() == 0,
        gpu_panel_view(view, labeled, index, data).text is Some <==> (view == PercentViewKind::Text || view
            == PercentViewKind::TextLeft || view == PercentViewKind::TextRight),
{
}

/// The texts and tooltips of the memory views: the RAM text is the RAM's
/// share, the swap text the swap's share, or "N/A" with the tooltip
/// "Swap: Not available" when there is no swap; labeled texts put "RAM" or
/// "SWAP" and a space in front. The run charts carry the tooltip of what they
/// chart.
pub proof fn lemma_memory_texts(labeled: bool, r: Readings)
    ensures
        mem_panel_view(PercentViewKind::TextLeft, labeled, r).text == Some(
            if labeled {
                "RAM"@ + " "@ + percentage_text(r.ram_used as nat, r.ram_total as nat)
            } else {
                percentage_text(r.ram_used as nat, r.ram_total as nat)
            },
        ),
        mem_panel_view(PercentViewKind::TextLeft, labeled, r).tooltip == ram_tooltip_text(r.ram_used as nat, r.ram_total as nat),
        r.swap_total == 0 ==> mem_panel_view(PercentViewKind::TextRight, labeled, r).text == Some(
            if labeled { "SWAP N/A"@ } else { "N/A"@ },
        ),
        r.swap_total == 0 ==> mem_panel_view(PercentViewKind::TextRight, labeled, r).tooltip == "Swap: Not available"@,
        r.swap_total > 0 ==> mem_panel_view(PercentViewKind::TextRight, labeled, r).text == Some(
            if labeled {
                "SWAP"@ + " "@ + percentage_text(r.swap_used as nat, r.swap_total as nat)
            } else {
                percentage_text(r.swap_used as nat, r.swap_total as nat)
            },
        ),
        r.swap_total > 0 ==> mem_panel_view(PercentViewKind::TextRight, labeled, r).tooltip == swap_tooltip_text(r.swap_used as nat, r.swap_total as nat),
        mem_panel_view(PercentViewKind::Run, labeled, r).tooltip == mem_tooltip_text(
            r.ram_used as nat,
            r.ram_total as nat,
            r.swap_used as nat,
            r.swap_total as nat,
        ),
        mem_panel_view(PercentViewKind::RunBack, labeled, r).tooltip == ram_tooltip_text(r.ram_used as nat, r.ram_total as nat),
        mem_panel_view(PercentViewKind::RunFront, labeled, r).tooltip == swap_tooltip_text(r.swap_used as nat, r.swap_total as nat),
{
}

/// A compact text is its labeled text without the label: for the single
/// shares of memory and GPU, the labeled text is the label, a space and the
/// compact text.
pub proof fn lemma_labels_prefix(labeled: bool, r: Readings, index: nat, data: GpuData)
    ensures
        mem_panel_view(PercentViewKind::TextLeft, true, r).text == Some(
            "RAM"@ + " "@ + mem_panel_view(PercentViewKind::TextLeft, false, r).text->0,
        ),
        mem_panel_view(PercentViewKind::TextLeft, false, r).text == Some(
            percentage_text(r.ram_used as nat, r.ram_total as nat),
        ),
        gpu_panel_view(PercentViewKind::TextRight, true, index, data).text == Some(
            "VRAM"@ + " "@ + gpu_panel_view(PercentViewKind::TextRight, false, index, data).text->0,
        ),
        gpu_panel_view(PercentViewKind::TextRight, false, index, data).text == Some(
            percentage_text(data.used_vram as nat, data.total_vram as nat),
        ),
{
}

fn make_text_panel(text: String, tooltip: String) -> (p: Panel)
    ensures
        p@ == text_panel(text@, tooltip@),
{
    let p = Panel { text: Some(text), tooltip, gauges: Vec::new() };
    assert(p@.gauges =~= Seq::<GaugeView>::empty());
    p
}

fn make_chart_panel(tooltip: String) -> (p: Panel)
    ensures
        p@ == chart_panel(tooltip@),
{
    let p = Panel { text: None, tooltip, gauges: Vec::new() };
    assert(p@.gauges =~= Seq::<GaugeView>::empty());
    p
}

fn make_bar_panel(value: u64, max: u64, tooltip: String) -> (p: Panel)
    ensures
        p@ == bar_panel(value as nat, max as nat, tooltip@),
{
    let mut gauges = Vec::new();
    gauges.push(Gauge { value, max, tooltip: tooltip.clone() });
    let p = Panel { text: None, tooltip, gauges };
    assert(p@.gauges =~= seq![GaugeView { value: value as nat, max: max as nat, tooltip: tooltip@ }]);
    p
}

fn make_double_bar_panel(left: Gauge, right: Gauge, tooltip: String) -> (p: Panel)
    ensures
        p@ == double_bar_panel(left@, right@, tooltip@),
{
    let ghost l = left@;
    let ghost r = right@;
    let mut gauges = Vec::new();
    gauges.push(left);
    gauges.push(right);
    let p = Panel { text: None, tooltip, gauges };
    assert(p@.gauges =~= seq![l, r]);
    p
}

fn labeled_value(labeled: bool, label: &str, value: String) -> (s: String)
    ensures
        s@ == labeled_text(labeled, label@, value@),
{
    if labeled {
        let mut s = String::from_str(label);
        s.append(" ");
        s.append(value.as_str());
        s
    } else {
        value
    }
}

fn rate_line(label: &str, rate: u64) -> (s: String)
    ensures
        s@ == rate_text(label@, rate as nat),
{
    let mut s = String::from_str(label);
    s.append(" ");
    s.append(format_bytes(rate).as_str());
    s.append("/s");
    assert(s@ =~= rate_text(label@, rate as nat));
    s
}

fn io_line(labeled: bool, back_label: &str, front_label: &str, back: u64, front: u64) -> (s: String)
    ensures
        s@ == io_text(labeled, back_label@, front_label@, back as nat, front as nat),
{
    let mut s = String::new();
    if labeled {
        s.append(back_label);
        s.append(" ");
    }
    s.append(format_bytes(back).as_str());
    s.append("/s | ");
    if labeled {
        s.append(front_label);
        s.append(" ");
    }
    s.append(format_bytes(front).as_str());
    s.append("/s");
    assert(s@ =~= io_text(labeled, back_label@, front_label@, back as nat, front as nat));
    s
}

fn mem_line(labeled: bool, r: &Readings) -> (s: String)
    ensures
        s@ == mem_text(labeled, *r),
{
    let ram = format_percentage(r.ram_used, r.ram_total);
    let swap = if r.swap_total == 0 {
        String::from_str("N/A")
    } else {
        format_percentage(r.swap_used, r.swap_total)
    };
    let mut s = String::new();
    if labeled {
        s.append("RAM ");
    }
    s.append(ram.as_str());
    if labeled {
        s.append(" | SWAP ");
    } else {
        s.append(" | ");
    }
    s.append(swap.as_str());
    assert(s@ =~= mem_text(labeled, *r));
    s
}

fn gpu_line(labeled: bool, data: &GpuData) -> (s: String)
    ensures
        s@ == gpu_text(labeled, *data),
{
    let vram = format_percentage(data.used_vram, data.total_vram);
    let mut s = String::new();
    if labeled {
        s.append("GPU ");
    }
    push_decimal(&mut s, data.usage as u128);
    s.append("%");
    if labeled {
        s.append(" | VRAM ");
    } else {
        s.append(" | ");
    }
    s.append(vram.as_str());
    assert(s@ =~= gpu_text(labeled, *data));
    s
}

fn down_label_str(labeled: bool) -> (s: &'static str)
    ensures
        s@ == down_label(labeled),
{
    if labeled { "DOWN" } else { "↓" }
}

fn up_label_str(labeled: bool) -> (s: &'static str)
    ensures
        s@ == up_label(labeled),
{
    if labeled { "UP" } else { "↑" }
}

fn read_label_str(labeled: bool) -> (s: &'static str)
    ensures
        s@ == read_label(labeled),
{
    if labeled { "READ" } else { "R" }
}

fn write_label_str(labeled: bool) -> (s: &'static str)
    ensures
        s@ == write_label(labeled),
{
    if labeled { "WRITE" } else { "W" }
}

/// What a network view item shows.
pub fn net_panel(view: IoViewKind, labeled: bool, r: &Readings) -> (p: Panel)
    ensures
        p@ == net_panel_view(view, labeled, *r),
{
    match view {
        IoViewKind::Text | IoViewKind::TextSpace => make_text_panel(
            io_line(labeled, down_label_str(labeled), up_label_str(labeled), r.download, r.upload),
            format_network_tooltip(r.download, r.upload),
        ),
        IoViewKind::TextBack => make_text_panel(
            rate_line(down_label_str(labeled), r.download),
            format_network_tooltip_inner(false, r.download),
        ),
        IoViewKind::TextFront => make_text_panel(
            rate_line(up_label_str(labeled), r.upload),
            format_network_tooltip_inner(true, r.upload),
        ),
        IoViewKind::Run => make_chart_panel(format_network_tooltip(r.download, r.upload)),
        IoViewKind::RunBack | IoViewKind::RunFront => make_chart_panel(
            format_swap_tooltip(r.swap_used, r.swap_total),
        ),
    }
}

/// What a disk view item shows.
pub fn disk_panel(view: IoViewKind, labeled: bool, r: &Readings) -> (p: Panel)
    ensures
        p@ == disk_panel_view(view, labeled, *r),
{
    match view {
        IoViewKind::TextSpace => {
            let pct = if r.disk_total > 0 {
                format_percentage(r.disk_used, r.disk_total)
            } else {
                String::from_str("0%")
            };
            make_text_panel(
                labeled_value(labeled, "DISK", pct),
                format_disk_space_tooltip(r.disk_total, r.disk_used),
            )
        },
        IoViewKind::Text => make_text_panel(
            io_line(labeled, read_label_str(labeled), write_label_str(labeled), r.disk_read, r.disk_write),
            format_disk_tooltip(r.disk_read, r.disk_write),
        ),
        IoViewKind::TextBack => make_text_panel(
            rate_line(read_label_str(labeled), r.disk_read),
            format_disk_tooltip_inner(false, r.disk_read),
        ),
        IoViewKind::TextFront => make_text_panel(
            rate_line(write_label_str(labeled), r.disk_write),
            format_disk_tooltip_inner(true, r.disk_write),
        ),
        IoViewKind::Run => make_chart_panel(format_disk_tooltip(r.disk_read, r.disk_write)),
        IoViewKind::RunBack | IoViewKind::RunFront => make_chart_panel(
            format_swap_tooltip(r.swap_used, r.swap_total),
        ),
    }
}

/// What a memory view item shows.
pub fn mem_panel(view: PercentViewKind, labeled: bool, r: &Readings) -> (p: Panel)
    ensures
        p@ == mem_panel_view(view, labeled, *r),
        view == PercentViewKind::BarLeft ==> p@.gauges == seq![
            (GaugeView { value: r.ram_used as nat, max: r.ram_total as nat, tooltip: ram_tooltip_text(r.ram_used as nat, r.ram_total as nat) }),
        ],
        view == PercentViewKind::BarRight ==> p@.gauges == seq![
            (GaugeView { value: r.swap_used as nat, max: r.swap_total as nat, tooltip: swap_tooltip_text(r.swap_used as nat, r.swap_total as nat) }),
        ],
{
    proof {
        lemma_memory_bars(view, labeled, *r);
    }
    match view {
        PercentViewKind::Text => make_text_panel(
            mem_line(labeled, r),
            format_mem_tooltip(r.ram_used, r.ram_total, r.swap_used, r.swap_total),
        ),
        PercentViewKind::TextLeft => make_text_panel(
            labeled_value(labeled, "RAM", format_percentage(r.ram_used, r.ram_total)),
            format_ram_tooltip(r.ram_used, r.ram_total),
        ),
        PercentViewKind::TextRight => {
            if r.swap_total == 0 {
                make_text_panel(
                    if labeled {
                        String::from_str("SWAP N/A")
                    } else {
                        String::from_str("N/A")
                    },
                    String::from_str("Swap: Not available"),
                )
            } else {
                make_text_panel(
                    labeled_value(labeled, "SWAP", format_percentage(r.swap_used, r.swap_total)),
                    format_swap_tooltip(r.swap_used, r.swap_total),
                )
            }
        },
        PercentViewKind::Bar => make_double_bar_panel(
            Gauge {
                value: r.ram_used,
                max: r.ram_total,
                tooltip: format_ram_tooltip(r.ram_used, r.ram_total),
            },
            Gauge {
                value: r.swap_used,
                max: r.swap_total,
                tooltip: format_swap_tooltip(r.swap_used, r.swap_total),
            },
            format_mem_tooltip(r.ram_used, r.ram_total, r.swap_used, r.swap_total),
        ),
        PercentViewKind::BarLeft => make_bar_panel(
            r.ram_used,
            r.ram_total,
            format_ram_tooltip(r.ram_used, r.ram_total),
        ),
        PercentViewKind::BarRight => make_bar_panel(
            r.swap_used,
            r.swap_total,
            format_swap_tooltip(r.swap_used, r.swap_total),
        ),
        PercentViewKind::Run => make_chart_panel(
            format_mem_tooltip(r.ram_used, r.ram_total, r.swap_used, r.swap_total),
        ),
        PercentViewKind::RunBack => make_chart_panel(format_ram_tooltip(r.ram_used, r.ram_total)),
        PercentViewKind::RunFront => make_chart_panel(
            format_swap_tooltip(r.swap_used, r.swap_total),
        ),
    }
}

/// What a view item of the GPU numbered `index` shows.
pub fn gpu_panel(view: PercentViewKind, labeled: bool, index: usize, data: &GpuData) -> (p: Panel)
    ensures
        p@ == gpu_panel_view(view, labeled, index as nat, *data),
        view == PercentViewKind::BarLeft ==> p@.gauges == seq![
            (GaugeView { value: data.usage as nat, max: 100, tooltip: gpu_usage_tooltip_text(index as nat, *data) }),
        ],
        view == PercentViewKind::BarRight ==> p@.gauges == seq![
            (GaugeView { value: data.used_vram as nat, max: data.total_vram as nat, tooltip: gpu_vram_tooltip_text(index as nat, *data) }),
        ],
{
    proof {
        lemma_gpu_bars(view, labeled, index as nat, *data);
    }
    match view {
        PercentViewKind::Text => make_text_panel(
            gpu_line(labeled, data),
            format_gpu_tooltip(index, data),
        ),
        PercentViewKind::TextLeft => {
            let mut usage = String::new();
            push_decimal(&mut usage, data.usage as u128);
            usage.append("%");
            make_text_panel(
                labeled_value(labeled, "GPU", usage),
                format_gpu_usage_tooltip(index, data),
            )
        },
        PercentViewKind::TextRight => make_text_panel(
            labeled_value(labeled, "VRAM", format_percentage(data.used_vram, data.total_vram)),
            format_gpu_vram_tooltip(index, data),
        ),
        PercentViewKind::Bar => make_double_bar_panel(
            Gauge { value: data.usage, max: 100, tooltip: format_gpu_usage_tooltip(index, data) },
            Gauge {
                value: data.used_vram,
                max: data.total_vram,
                tooltip: format_gpu_vram_tooltip(index, data),
            },
            format_gpu_tooltip(index, data),
        ),
        PercentViewKind::BarLeft => make_bar_panel(
            data.usage,
            100,
            format_gpu_usage_tooltip(index, data),
        ),
        PercentViewKind::BarRight => make_bar_panel(
            data.used_vram,
            data.total_vram,
            format_gpu_vram_tooltip(index, data),
        ),
        PercentViewKind::Run => make_chart_panel(format_gpu_tooltip(index, data)),
        PercentViewKind::RunBack | PercentViewKind::RunFront => make_chart_panel(
            format_gpu_usage_tooltip(index, data),
        ),
    }
}

} // verus!
