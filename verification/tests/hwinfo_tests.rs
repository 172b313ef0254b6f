use hardware_monitor::hwinfo::{
    build_graphic_info, get_cpu_info, get_gpu_usage, get_hardware_info, get_memory_info,
    get_memory_type_description, get_memory_type_with_fallback, get_windows_theme_mode,
    CpuCoreInfo, CpuInfo, HwInfoError, MemoryArrayRow, MemoryDeviceRow,
};

fn one_core() -> CpuCoreInfo {
    CpuCoreInfo {
        brand: "Example CPU 5800X".to_string(),
        vendor_id: "AuthenticAMD".to_string(),
        frequency: 3800,
        name: "cpu0".to_string(),
    }
}

#[test]
fn cpu_info_from_cores() {
    let cores = vec![one_core(), one_core(), one_core(), one_core()];
    let info = get_cpu_info(&cores).expect("cores reported");
    assert_eq!(info.name, "Example CPU 5800X");
    assert_eq!(info.vendor, "AMD");
    assert_eq!(info.core_count, 4);
    assert_eq!(info.clock, 3800);
    assert_eq!(info.clock_unit, "MHz");
    assert_eq!(info.cpu_name, "cpu0");
}

#[test]
fn cpu_info_fails_without_cores() {
    let cores: Vec<CpuCoreInfo> = Vec::new();
    assert!(matches!(get_cpu_info(&cores), Err(HwInfoError::NoCpu)));
}

#[test]
fn memory_info_from_rows() {
    let devices = vec![
        MemoryDeviceRow {
            capacity: 17179869184,
            speed: 3200,
            memory_type: Some(26),
            smbios_memory_type: None,
        },
        MemoryDeviceRow {
            capacity: 17179869184,
            speed: 3200,
            memory_type: Some(26),
            smbios_memory_type: None,
        },
    ];
    let arrays = vec![MemoryArrayRow { memory_devices: Some(4) }];
    let info = get_memory_info(&devices, &arrays).expect("rows reported");
    assert_eq!(info.size, "32.0 GB");
    assert_eq!(info.clock, 3200);
    assert_eq!(info.clock_unit, "MHz");
    assert_eq!(info.memory_count, 2);
    assert_eq!(info.total_slots, 4);
    assert_eq!(info.memory_type, "DDR4");
}

#[test]
fn memory_info_fails_without_rows() {
    let arrays = vec![MemoryArrayRow { memory_devices: Some(2) }];
    assert!(matches!(
        get_memory_info(&Vec::new(), &arrays),
        Err(HwInfoError::NoMemoryDevices)
    ));
    let devices = vec![MemoryDeviceRow {
        capacity: 1,
        speed: 1,
        memory_type: None,
        smbios_memory_type: None,
    }];
    assert!(matches!(
        get_memory_info(&devices, &Vec::new()),
        Err(HwInfoError::NoMemoryDevices)
    ));
}

#[test]
fn memory_type_descriptions() {
    assert_eq!(get_memory_type_description(None), "Unknown");
    assert_eq!(get_memory_type_description(Some(0)), "Unknown or Unsupported");
    assert_eq!(get_memory_type_description(Some(20)), "DDR");
    assert_eq!(get_memory_type_description(Some(24)), "DDR3");
    assert_eq!(get_memory_type_description(Some(26)), "DDR4");
    assert_eq!(
        get_memory_type_description(Some(23)),
        "Other or Unknown Memory Type (23)"
    );
    assert_eq!(
        get_memory_type_description(Some(999)),
        "Other or Unknown Memory Type (999)"
    );
}

#[test]
fn memory_type_smbios_fallback() {
    // a zero primary code defers to the SMBIOS code, which knows DDR5
    assert_eq!(get_memory_type_with_fallback(Some(0), Some(34)), "DDR5");
    assert_eq!(get_memory_type_with_fallback(Some(0), Some(26)), "DDR4");
    assert_eq!(get_memory_type_with_fallback(Some(0), None), "Unknown");
    assert_eq!(
        get_memory_type_with_fallback(Some(0), Some(3)),
        "Other SMBIOS Memory Type (3)"
    );
    // a non-zero primary code wins
    assert_eq!(get_memory_type_with_fallback(Some(21), Some(34)), "DDR2");
    assert_eq!(get_memory_type_with_fallback(None, Some(34)), "Unknown");
}

#[test]
fn hardware_info_partial_success() {
    // CPU present, memory and GPU queries failed: the aggregate still succeeds
    let cores = vec![one_core()];
    let cpu = get_cpu_info(&cores).ok();
    let sys = get_hardware_info(cpu, None, None).expect("one source suffices");
    assert!(sys.cpu.is_some());
    assert!(sys.memory.is_none());
    assert!(sys.gpus.is_none());
}

#[test]
fn hardware_info_fails_only_when_all_fail() {
    let r = get_hardware_info(None, None, None);
    assert!(matches!(r, Err(HwInfoError::AllSourcesFailed)));
    let gpus = vec![build_graphic_info("GPU X".to_string(), Some(1800000), 1024, 2048)];
    assert!(get_hardware_info(None, None, Some(gpus)).is_ok());
}

#[test]
fn graphic_info_fields() {
    let g = build_graphic_info("GPU X".to_string(), None, 1536, 8388608);
    assert_eq!(g.name, "GPU X");
    assert_eq!(g.vendor_name, "NVIDIA");
    assert_eq!(g.clock, 0);
    assert_eq!(g.memory_size, "1.5 MB");
    assert_eq!(g.memory_size_dedicated, "8.0 GB");
}

#[test]
fn gpu_usage_mean() {
    assert_eq!(get_gpu_usage(&vec![40, 60]), Ok(50));
    assert_eq!(get_gpu_usage(&vec![33]), Ok(33));
    // ties round up: 50.5 becomes 51
    assert_eq!(get_gpu_usage(&vec![50, 51]), Ok(51));
    assert!(matches!(get_gpu_usage(&Vec::new()), Err(HwInfoError::NoGpu)));
}

#[test]
fn theme_labels() {
    assert_eq!(get_windows_theme_mode(None), "Unknown");
    assert_eq!(get_windows_theme_mode(Some(false)), "Dark Mode");
    assert_eq!(get_windows_theme_mode(Some(true)), "Light Mode");
}

#[test]
fn hwinfo_error_messages() {
    assert_eq!(HwInfoError::NoCpu.message(), "CPU information not available");
    assert_eq!(
        HwInfoError::AllSourcesFailed.message(),
        "Failed to get any hardware info"
    );
}

#[test]
fn cpu_info_is_reportable() {
    let info = CpuInfo {
        name: "n".to_string(),
        vendor: "v".to_string(),
        core_count: 1,
        clock: 1,
        clock_unit: "MHz".to_string(),
        cpu_name: "c".to_string(),
    };
    assert_eq!(info.core_count, 1);
}
