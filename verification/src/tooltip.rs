//! The tooltips of the memory, network, disk and GPU panels.
use vstd::prelude::*;
use crate::format::{bytes_text, format_bytes, format_percentage, percentage_text};
use crate::text::{dec, push_decimal};

verus! {

/// What is read of one GPU at each refresh.
#[derive(Clone, Copy, Debug, PartialEq, Eq, Structural)]
pub struct GpuData {
    /// usage, in percent
    pub usage: u64,
    pub used_vram: u64,
    pub total_vram: u64,
}

/// "GPU<i> Usage: <u>%".
pub open spec fn gpu_usage_tooltip_text(gpu_index: nat, data: GpuData) -> Seq<char> {
    "GPU"@ + dec(gpu_index) + " Usage: "@ + dec(data.usage as nat) + "%"@
}

/// "GPU<i> VRAM: <used>/<total> (<percentage>)".
pub open spec fn gpu_vram_tooltip_text(gpu_index: nat, data: GpuData) -> Seq<char> {
    "GPU"@ + dec(gpu_index) + " VRAM: "@ + bytes_text(data.used_vram as nat) + "/"@
        + bytes_text(data.total_vram as nat) + " ("@
        + percentage_text(data.used_vram as nat, data.total_vram as nat) + ")"@
}

/// The usage line over the VRAM line.
pub open spec fn gpu_tooltip_text(gpu_index: nat, data: GpuData) -> Seq<char> {
    gpu_usage_tooltip_text(gpu_index, data) + "\n"@ + gpu_vram_tooltip_text(gpu_index, data)
}

/// "RAM: <used> / <total> (<percentage>)".
pub open spec fn ram_tooltip_text(used: nat, total: nat) -> Seq<char> {
    "RAM: "@ + bytes_text(used) + " / "@ + bytes_text(total) + " ("@ + percentage_text(used, total)
        + ")"@
}

/// "Swap: <used> / <total> (<percentage>)", or "Swap: Not available" when
/// there is no swap.
pub open spec fn swap_tooltip_text(used: nat, total: nat) -> Seq<char> {
    if total == 0 {
        "Swap: Not available"@
    } else {
        "Swap: "@ + bytes_text(used) + " / "@ + bytes_text(total) + " ("@ + percentage_text(
            used,
            total,
        ) + ")"@
    }
}

/// The RAM line over the swap line.
pub open spec fn mem_tooltip_text(
    ram_used: nat,
    ram_total: nat,
    swap_used: nat,
    swap_total: nat,
) -> Seq<char> {
    ram_tooltip_text(ram_used, ram_total) + "\n"@ + swap_tooltip_text(swap_used, swap_total)
}

/// "Upload: <rate>/s" or "Download: <rate>/s".
pub open spec fn network_line_text(is_upload: bool, rate: nat) -> Seq<char> {
    (if is_upload { "Upload"@ } else { "Download"@ }) + ": "@ + bytes_text(rate) + "/s"@
}

/// The download line over the upload line.
pub open spec fn network_tooltip_text(download: nat, upload: nat) -> Seq<char> {
    network_line_text(false, download) + "\n"@ + network_line_text(true, upload)
}

/// "Disk Write: <rate>/s" or "Disk Read: <rate>/s".
pub open spec fn disk_line_text(is_write: bool, rate: nat) -> Seq<char> {
    "Disk "@ + (if is_write { "Write"@ } else { "Read"@ }) + ": "@ + bytes_text(rate) + "/s"@
}

/// The read line over the write line.
pub open spec fn disk_tooltip_text(read: nat, write: nat) -> Seq<char> {
    disk_line_text(false, read) + "\n"@ + disk_line_text(true, write)
}

/// "Disco: <used> / <total> (<percentage>)", "N/A" in place of the
/// percentage when the total is zero.
pub open spec fn disk_space_tooltip_text(total: nat, used: nat) -> Seq<char> {
    "Disco: "@ + bytes_text(used) + " / "@ + bytes_text(total) + " ("@ + (if total > 0 {
        percentage_text(used, total)
    } else {
        "N/A"@
    }) + ")"@
}

/// The swap tooltip reads "Not available" exactly when there is no swap at
/// all; otherwise it gives the swap in use out of all of it and the share,
/// in the same form as the RAM tooltip.
pub proof fn lemma_swap_tooltip(used: nat, total: nat)
    ensures
        total == 0 ==> swap_tooltip_text(used, total) == "Swap: Not available"@,
        total > 0 ==> swap_tooltip_text(used, total) == "Swap: "@ + bytes_text(used) + " / "@
            + bytes_text(total) + " ("@ + percentage_text(used, total) + ")"@,
        total > 0 ==> swap_tooltip_text(used, total) == "Swap"@ + ram_tooltip_text(used, total).skip(3),
{
    reveal_strlit("Swap: ");
    reveal_strlit("Swap");
    reveal_strlit("RAM: ");
    if total > 0 {
        let x = bytes_text(used) + " / "@ + bytes_text(total) + " ("@ + percentage_text(used, total) + ")"@;
        assert(ram_tooltip_text(used, total) =~= "RAM: "@ + x);
        assert(("RAM: "@ + x).skip(3) =~= ": "@ + x) by {
            reveal_strlit(": ");
        }
        reveal_strlit(": ");
        assert(swap_tooltip_text(used, total) =~= "Swap"@ + (": "@ + x));
    }
}

/// The two-line tooltips stack their one-line parts: RAM over swap, usage
/// over VRAM, download over upload, read over write.
pub proof fn lemma_tooltips_stack(a: nat, b: nat, c: nat, d: nat, index: nat, data: GpuData)
    ensures
        mem_tooltip_text(a, b, c, d) == ram_tooltip_text(a, b) + "\n"@ + swap_tooltip_text(c, d),
        gpu_tooltip_text(index, data) == gpu_usage_tooltip_text(index, data) + "\n"@ + gpu_vram_tooltip_text(index, data),
        network_tooltip_text(a, b) == network_line_text(false, a) + "\n"@ + network_line_text(true, b),
        disk_tooltip_text(a, b) == disk_line_text(false, a) + "\n"@ + disk_line_text(true, b),
        network_line_text(false, a) == "Download: "@ + bytes_text(a) + "/s"@,
        network_line_text(true, a) == "Upload: "@ + bytes_text(a) + "/s"@,
        disk_line_text(false, a) == "Disk Read: "@ + bytes_text(a) + "/s"@,
        disk_line_text(true, a) == "Disk Write: "@ + bytes_text(a) + "/s"@,
{
    reveal_strlit("Download: ");
    reveal_strlit("Download");
    reveal_strlit("Upload: ");
    reveal_strlit("Upload");
    reveal_strlit(": ");
    reveal_strlit("Disk Read: ");
    reveal_strlit("Disk Write: ");
    reveal_strlit("Disk ");
    reveal_strlit("Read");
    reveal_strlit("Write");
    assert(network_line_text(false, a) =~= "Download: "@ + bytes_text(a) + "/s"@);
    assert(network_line_text(true, a) =~= "Upload: "@ + bytes_text(a) + "/s"@);
    assert(disk_line_text(false, a) =~= "Disk Read: "@ + bytes_text(a) + "/s"@);
    assert(disk_line_text(true, a) =~= "Disk Write: "@ + bytes_text(a) + "/s"@);
}

/// The tooltip of a GPU's usage.
pub fn format_gpu_usage_tooltip(gpu_index: usize, gpu_data: &GpuData) -> (s: String)
    ensures
        s@ == gpu_usage_tooltip_text(gpu_index as nat, *gpu_data),
{
    let mut s = String::from_str("GPU");
    push_decimal(&mut s, gpu_index as u128);
    s.append(" Usage: ");
    push_decimal(&mut s, gpu_data.usage as u128);
    s.append("%");
    assert(s@ =~= gpu_usage_tooltip_text(gpu_index as nat, *gpu_data));
    s
}

/// The tooltip of a GPU's memory.
pub fn format_gpu_vram_tooltip(gpu_index: usize, gpu_data: &GpuData) -> (s: String)
    ensures
        s@ == gpu_vram_tooltip_text(gpu_index as nat, *gpu_data),
{
    let vram_percentage = format_percentage(gpu_data.used_vram, gpu_data.total_vram);
    let mut s = String::from_str("GPU");
    push_decimal(&mut s, gpu_index as u128);
    s.append(" VRAM: ");
    s.append(format_bytes(gpu_data.used_vram).as_str());
    s.append("/");
    s.append(format_bytes(gpu_data.total_vram).as_str());
    s.append(" (");
    s.append(vram_percentage.as_str());
    s.append(")");
    assert(s@ =~= gpu_vram_tooltip_text(gpu_index as nat, *gpu_data));
    s
}

/// The tooltip of a GPU: usage over memory.
pub fn format_gpu_tooltip(gpu_index: usize, gpu_data: &GpuData) -> (s: String)
    ensures
        s@ == gpu_tooltip_text(gpu_index as nat, *gpu_data),
{
    let mut s = format_gpu_usage_tooltip(gpu_index, gpu_data);
    s.append("\n");
    s.append(format_gpu_vram_tooltip(gpu_index, gpu_data).as_str());
    assert(s@ =~= gpu_tooltip_text(gpu_index as nat, *gpu_data));
    s
}

fn push_used_of_total(s: &mut String, used: u64, total: u64)
    ensures
        final(s)@ == old(s)@ + bytes_text(used as nat) + " / "@ + bytes_text(total as nat) + " ("@
            + percentage_text(used as nat, total as nat) + ")"@,
{
    let percentage = format_percentage(used, total);
    s.append(format_bytes(used).as_str());
    s.append(" / ");
    s.append(format_bytes(total).as_str());
    s.append(" (");
    s.append(percentage.as_str());
    s.append(")");
    assert(s@ =~= old(s)@ + bytes_text(used as nat) + " / "@ + bytes_text(total as nat) + " ("@
        + percentage_text(used as nat, total as nat) + ")"@);
}

/// The tooltip of the RAM.
pub fn format_ram_tooltip(used: u64, total: u64) -> (s: String)
    ensures
        s@ == ram_tooltip_text(used as nat, total as nat),
{
    let mut s = String::from_str("RAM: ");
    push_used_of_total(&mut s, used, total);
    assert(s@ =~= ram_tooltip_text(used as nat, total as nat));
    s
}

/// The tooltip of the swap.
pub fn format_swap_tooltip(used: u64, total: u64) -> (s: String)
    ensures
        total == 0 ==> s@ == "Swap: Not available"@,
        total > 0 ==> s@ == "Swap: "@ + bytes_text(used as nat) + " / "@ + bytes_text(total as nat) + " ("@
            + percentage_text(used as nat, total as nat) + ")"@,
        s@ == swap_tooltip_text(used as nat, total as nat),
{
    if total == 0 {
        String::from_str("Swap: Not available")
    } else {
        let mut s = String::from_str("Swap: ");
        push_used_of_total(&mut s, used, total);
        assert(s@ =~= swap_tooltip_text(used as nat, total as nat));
        s
    }
}

/// The tooltip of the memory: RAM over swap.
pub fn format_mem_tooltip(ram_used: u64, ram_total: u64, swap_used: u64, swap_total: u64) -> (s:
    String)
    ensures
        s@ == mem_tooltip_text(ram_used as nat, ram_total as nat, swap_used as nat, swap_total as nat),
{
    let mut s = format_ram_tooltip(ram_used, ram_total);
    s.append("\n");
    s.append(format_swap_tooltip(swap_used, swap_total).as_str());
    assert(s@ =~= mem_tooltip_text(
        ram_used as nat,
        ram_total as nat,
        swap_used as nat,
        swap_total as nat,
    ));
    s
}

/// One line of the network tooltip.
pub fn format_network_tooltip_inner(is_upload: bool, current_rate: u64) -> (s: String)
    ensures
        s@ == network_line_text(is_upload, current_rate as nat),
{
    let mut s = if is_upload {
        String::from_str("Upload")
    } else {
        String::from_str("Download")
    };
    s.append(": ");
    s.append(format_bytes(current_rate).as_str());
    s.append("/s");
    assert(s@ =~= network_line_text(is_upload, current_rate as nat));
    s
}

/// The tooltip of the network: download over upload.
pub fn format_network_tooltip(download: u64, upload: u64) -> (s: String)
    ensures
        s@ == network_tooltip_text(download as nat, upload as nat),
{
    let mut s = format_network_tooltip_inner(false, download);
    s.append("\n");
    s.append(format_network_tooltip_inner(true, upload).as_str());
    assert(s@ =~= network_tooltip_text(download as nat, upload as nat));
    s
}

/// One line of the disk tooltip.
pub fn format_disk_tooltip_inner(is_write: bool, current_rate: u64) -> (s: String)
    ensures
        s@ == disk_line_text(is_write, current_rate as nat),
{
    let mut s = String::from_str("Disk ");
    if is_write {
        s.append("Write");
    } else {
        s.append("Read");
    }
    s.append(": ");
    s.append(format_bytes(current_rate).as_str());
    s.append("/s");
    assert(s@ =~= disk_line_text(is_write, current_rate as nat));
    s
}

/// The tooltip of the disks' traffic: read over write.
pub fn format_disk_tooltip(read: u64, write: u64) -> (s: String)
    ensures
        s@ == disk_tooltip_text(read as nat, write as nat),
{
    let mut s = format_disk_tooltip_inner(false, read);
    s.append("\n");
    s.append(format_disk_tooltip_inner(true, write).as_str());
    assert(s@ =~= disk_tooltip_text(read as nat, write as nat));
    s
}

/// The tooltip of the disks' space.
pub fn format_disk_space_tooltip(total: u64, used: u64) -> (s: String)
    ensures
        s@ == disk_space_tooltip_text(total as nat, used as nat),
{
    let pct = if total > 0 {
        format_percentage(used, total)
    } else {
        String::from_str("N/A")
    };
    let mut s = String::from_str("Disco: ");
    s.append(format_bytes(used).as_str());
    s.append(" / ");
    s.append(format_bytes(total).as_str());
    s.append(" (");
    s.append(pct.as_str());
    s.append(")");
    assert(s@ =~= disk_space_tooltip_text(total as nat, used as nat));
    s
}

} // verus!
