use system_monitor::panel::{disk_panel, gpu_panel, mem_panel, net_panel, IoViewKind, Panel, PercentViewKind, Readings};
use system_monitor::tooltip::{
    format_disk_space_tooltip, format_disk_tooltip, format_gpu_tooltip, format_gpu_usage_tooltip,
    format_gpu_vram_tooltip, format_mem_tooltip, format_network_tooltip, format_ram_tooltip,
    format_swap_tooltip, GpuData,
};

fn readings() -> Readings {
    Readings {
        ram_used: 4 * 1024 * 1024 * 1024,
        ram_total: 16 * 1024 * 1024 * 1024,
        swap_used: 0,
        swap_total: 0,
        download: 1536,
        upload: 512,
        disk_read: 2 * 1024 * 1024,
        disk_write: 0,
        disk_total: 1000,
        disk_used: 250,
    }
}

fn text(p: &Panel) -> Option<&str> {
    p.text.as_deref()
}

#[test]
fn tooltips() {
    assert_eq!(format_ram_tooltip(1024, 4096), "RAM: 1.0KB / 4.0KB (25.0%)");
    assert_eq!(format_swap_tooltip(0, 0), "Swap: Not available");
    assert_eq!(format_swap_tooltip(512, 2048), "Swap: 512B / 2.0KB (25.0%)");
    assert_eq!(
        format_mem_tooltip(1024, 4096, 0, 0),
        "RAM: 1.0KB / 4.0KB (25.0%)\nSwap: Not available"
    );
    assert_eq!(format_network_tooltip(1536, 10), "Download: 1.5KB/s\nUpload: 10B/s");
    assert_eq!(format_disk_tooltip(0, 2048), "Disk Read: 0B/s\nDisk Write: 2.0KB/s");
    assert_eq!(format_disk_space_tooltip(2048, 1024), "Disco: 1.0KB / 2.0KB (50.0%)");
    assert_eq!(format_disk_space_tooltip(0, 0), "Disco: 0B / 0B (N/A)");
}

#[test]
fn gpu_tooltips() {
    let d = GpuData { usage: 37, used_vram: 1024 * 1024 * 1024, total_vram: 8 * 1024 * 1024 * 1024 };
    assert_eq!(format_gpu_usage_tooltip(0, &d), "GPU0 Usage: 37%");
    assert_eq!(format_gpu_vram_tooltip(2, &d), "GPU2 VRAM: 1.0GB/8.0GB (12.5%)");
    assert_eq!(format_gpu_tooltip(1, &d), "GPU1 Usage: 37%\nGPU1 VRAM: 1.0GB/8.0GB (12.5%)");
}

#[test]
fn network_panels() {
    let r = readings();
    let p = net_panel(IoViewKind::Text, true, &r);
    assert_eq!(text(&p), Some("DOWN 1.5KB/s | UP 512B/s"));
    assert_eq!(p.tooltip, "Download: 1.5KB/s\nUpload: 512B/s");
    assert!(p.gauges.is_empty());
    let p = net_panel(IoViewKind::TextSpace, false, &r);
    assert_eq!(text(&p), Some("1.5KB/s | 512B/s"));
    let p = net_panel(IoViewKind::TextBack, false, &r);
    assert_eq!(text(&p), Some("↓ 1.5KB/s"));
    assert_eq!(p.tooltip, "Download: 1.5KB/s");
    let p = net_panel(IoViewKind::TextFront, true, &r);
    assert_eq!(text(&p), Some("UP 512B/s"));
    assert_eq!(p.tooltip, "Upload: 512B/s");
    let p = net_panel(IoViewKind::Run, true, &r);
    assert_eq!(text(&p), None);
    assert_eq!(p.tooltip, format_network_tooltip(1536, 512));
    let p = net_panel(IoViewKind::RunBack, true, &r);
    assert_eq!(text(&p), None);
    assert_eq!(p.tooltip, "Swap: Not available");
    let with_swap = Readings { swap_used: 512, swap_total: 2048, ..r };
    let p = net_panel(IoViewKind::RunFront, true, &with_swap);
    assert_eq!(p.tooltip, "Swap: 512B / 2.0KB (25.0%)");
}

#[test]
fn disk_panels() {
    let r = readings();
    let p = disk_panel(IoViewKind::TextSpace, true, &r);
    assert_eq!(text(&p), Some("DISK 25.0%"));
    assert_eq!(p.tooltip, "Disco: 250B / 1000B (25.0%)");
    let empty = Readings { disk_total: 0, disk_used: 0, ..r };
    assert_eq!(text(&disk_panel(IoViewKind::TextSpace, false, &empty)), Some("0%"));
    let p = disk_panel(IoViewKind::Text, false, &r);
    assert_eq!(text(&p), Some("2.0MB/s | 0B/s"));
    let p = disk_panel(IoViewKind::Text, true, &r);
    assert_eq!(text(&p), Some("READ 2.0MB/s | WRITE 0B/s"));
    assert_eq!(p.tooltip, format_disk_tooltip(2 * 1024 * 1024, 0));
    assert_eq!(text(&disk_panel(IoViewKind::TextBack, false, &r)), Some("R 2.0MB/s"));
    assert_eq!(text(&disk_panel(IoViewKind::TextFront, true, &r)), Some("WRITE 0B/s"));
    assert_eq!(disk_panel(IoViewKind::Run, true, &r).tooltip, format_disk_tooltip(2 * 1024 * 1024, 0));
    assert_eq!(disk_panel(IoViewKind::RunBack, true, &r).tooltip, "Swap: Not available");
    assert_eq!(disk_panel(IoViewKind::RunFront, false, &r).tooltip, format_swap_tooltip(0, 0));
}

#[test]
fn memory_panels() {
    let r = readings();
    let p = mem_panel(PercentViewKind::Text, true, &r);
    assert_eq!(text(&p), Some("RAM 25.0% | SWAP N/A"));
    assert_eq!(p.tooltip, "RAM: 4.0GB / 16.0GB (25.0%)\nSwap: Not available");
    let with_swap = Readings { swap_used: 1, swap_total: 4, ..r };
    assert_eq!(text(&mem_panel(PercentViewKind::Text, false, &with_swap)), Some("25.0% | 25.0%"));
    assert_eq!(text(&mem_panel(PercentViewKind::TextLeft, true, &r)), Some("RAM 25.0%"));
    let p = mem_panel(PercentViewKind::TextRight, true, &r);
    assert_eq!(text(&p), Some("SWAP N/A"));
    assert_eq!(p.tooltip, "Swap: Not available");
    assert_eq!(text(&mem_panel(PercentViewKind::TextRight, false, &r)), Some("N/A"));
    assert_eq!(text(&mem_panel(PercentViewKind::TextRight, false, &with_swap)), Some("25.0%"));
    let p = mem_panel(PercentViewKind::Bar, true, &with_swap);
    assert_eq!(text(&p), None);
    assert_eq!(p.gauges.len(), 2);
    assert_eq!((p.gauges[0].value, p.gauges[0].max), (r.ram_used, r.ram_total));
    assert_eq!((p.gauges[1].value, p.gauges[1].max), (1, 4));
    assert_eq!(p.gauges[0].tooltip, format_ram_tooltip(r.ram_used, r.ram_total));
    assert_eq!(p.tooltip, format_mem_tooltip(r.ram_used, r.ram_total, 1, 4));
    let p = mem_panel(PercentViewKind::BarRight, true, &with_swap);
    assert_eq!(p.gauges.len(), 1);
    assert_eq!(p.tooltip, format_swap_tooltip(1, 4));
    assert_eq!(p.gauges[0].tooltip, p.tooltip);
    assert_eq!(mem_panel(PercentViewKind::RunBack, true, &r).tooltip, format_ram_tooltip(r.ram_used, r.ram_total));
}

#[test]
fn gpu_panels() {
    let d = GpuData { usage: 80, used_vram: 3 * 1024, total_vram: 4 * 1024 };
    let p = gpu_panel(PercentViewKind::Text, true, 0, &d);
    assert_eq!(text(&p), Some("GPU 80% | VRAM 75.0%"));
    assert_eq!(p.tooltip, "GPU0 Usage: 80%\nGPU0 VRAM: 3.0KB/4.0KB (75.0%)");
    assert_eq!(text(&gpu_panel(PercentViewKind::Text, false, 0, &d)), Some("80% | 75.0%"));
    assert_eq!(text(&gpu_panel(PercentViewKind::TextLeft, true, 0, &d)), Some("GPU 80%"));
    assert_eq!(text(&gpu_panel(PercentViewKind::TextLeft, false, 0, &d)), Some("80%"));
    assert_eq!(text(&gpu_panel(PercentViewKind::TextRight, true, 1, &d)), Some("VRAM 75.0%"));
    let p = gpu_panel(PercentViewKind::Bar, true, 1, &d);
    assert_eq!((p.gauges[0].value, p.gauges[0].max), (80, 100));
    assert_eq!((p.gauges[1].value, p.gauges[1].max), (3 * 1024, 4 * 1024));
    assert_eq!(p.tooltip, format_gpu_tooltip(1, &d));
    let p = gpu_panel(PercentViewKind::RunFront, true, 1, &d);
    assert_eq!(p.tooltip, "GPU1 Usage: 80%");
    let p = gpu_panel(PercentViewKind::RunBack, true, 1, &d);
    assert_eq!(p.tooltip, format_gpu_usage_tooltip(1, &d));
    assert_eq!(gpu_panel(PercentViewKind::BarLeft, true, 1, &d).gauges[0].max, 100);
}
