use system_monitor::sensors::{
    disk_space_used, is_cpu_sensor_label, select_temperature_sensors, sum_traffic, DiskSpace,
    SensorReading,
};

#[test]
fn cpu_sensor_labels() {
    assert!(is_cpu_sensor_label("CPU"));
    assert!(is_cpu_sensor_label("Package id 0"));
    assert!(is_cpu_sensor_label("coretemp Package id 0"));
    assert!(is_cpu_sensor_label("k10temp Tctl"));
    assert!(is_cpu_sensor_label("k10temp Tdie"));
    assert!(is_cpu_sensor_label("Core 0"));
    assert!(is_cpu_sensor_label("zen-CpU"));
    assert!(!is_cpu_sensor_label("coretemp Core 0"));
    assert!(!is_cpu_sensor_label("Core0"));
    assert!(!is_cpu_sensor_label("nvme Composite"));
    assert!(!is_cpu_sensor_label("acpitz temp1"));
    assert!(!is_cpu_sensor_label(""));
    assert!(!is_cpu_sensor_label("cp"));
}

fn reading(is_cpu: bool, has_temperature: bool) -> SensorReading {
    SensorReading { is_cpu, has_temperature }
}

#[test]
fn cpu_sensors_are_preferred() {
    let s = vec![reading(false, true), reading(true, true), reading(true, false), reading(true, true)];
    assert_eq!(select_temperature_sensors(&s), vec![1, 3]);
}

#[test]
fn any_sensor_when_no_cpu_sensor_reads() {
    let s = vec![reading(false, true), reading(true, false), reading(false, false), reading(false, true)];
    assert_eq!(select_temperature_sensors(&s), vec![0, 3]);
}

#[test]
fn no_sensor_without_temperatures() {
    let s = vec![reading(true, false), reading(false, false)];
    assert_eq!(select_temperature_sensors(&s), Vec::<usize>::new());
    assert_eq!(select_temperature_sensors(&Vec::new()), Vec::<usize>::new());
}

#[test]
fn traffic_totals() {
    assert_eq!(sum_traffic(&vec![(10, 1), (20, 2), (30, 3)]), (60, 6));
    assert_eq!(sum_traffic(&Vec::new()), (0, 0));
    assert_eq!(sum_traffic(&vec![(u64::MAX, 0)]), (u64::MAX, 0));
}

#[test]
fn disk_space_totals() {
    let disks = vec![
        DiskSpace { total: 100, available: 40 },
        DiskSpace { total: 50, available: 60 },
        DiskSpace { total: 10, available: 0 },
    ];
    assert_eq!(disk_space_used(&disks), (160, 70));
    assert_eq!(disk_space_used(&Vec::new()), (0, 0));
}
