//! Hardware identity records and the rules that assemble them from raw
//! query results: CPU identity, memory module identity, GPU identity, the
//! best-effort aggregate of the three, and the OS theme label.

use crate::metrics::{div_round, lemma_div_round_bound, lemma_seq_sum_bound, seq_sum, sum_samples};
use crate::textfmt::{
    dec_rep, format_size, format_vendor_name, kibibytes_string, push_char, push_u64, size_string,
    vendor_label, RoundedKibibytes,
};
use vstd::prelude::*;
use vstd::string::*;

verus! {

/// Why a hardware query yielded nothing.
#[derive(Clone, Copy, Debug, PartialEq, Eq, Structural)]
pub enum HwInfoError {
    /// No CPU core was reported.
    NoCpu,
    /// No physical memory device or memory array was reported.
    NoMemoryDevices,
    /// No GPU utilization reading was collected.
    NoGpu,
    /// Every sub-query of the hardware aggregate failed.
    AllSourcesFailed,
}

impl HwInfoError {
    /// A human-readable description of the failure.
    pub fn message(&self) -> (r: String)
        ensures
            *self is NoCpu ==> r@ == "CPU information not available"@,
            *self is NoMemoryDevices ==> r@ == "Memory information not available"@,
            *self is NoGpu ==> r@ == "No GPU usage data collected"@,
            *self is AllSourcesFailed ==> r@ == "Failed to get any hardware info"@,
    {
        match self {
            HwInfoError::NoCpu => "CPU information not available".to_owned(),
            HwInfoError::NoMemoryDevices => "Memory information not available".to_owned(),
            HwInfoError::NoGpu => "No GPU usage data collected".to_owned(),
            HwInfoError::AllSourcesFailed => "Failed to get any hardware info".to_owned(),
        }
    }
}

/// The raw identity of one CPU core as the OS reports it.
pub struct CpuCoreInfo {
    pub brand: String,
    pub vendor_id: String,
    pub frequency: u64,
    pub name: String,
}

/// The CPU identity record the interface reports.
pub struct CpuInfo {
    pub name: String,
    pub vendor: String,
    pub core_count: usize,
    pub clock: u64,
    pub clock_unit: String,
    pub cpu_name: String,
}

/// Assemble the CPU identity record from the reported cores: brand, clock
/// and name come from the first core, the vendor identifier is normalized,
/// and the core count is the number of cores. Fails exactly when no core
/// was reported.
pub fn get_cpu_info(cores: &Vec<CpuCoreInfo>) -> (r: Result<CpuInfo, HwInfoError>)
    ensures
        r is Ok <==> cores@.len() > 0,
        r matches Err(e) ==> e is NoCpu,
        r matches Ok(c) ==> {
            &&& c.name@ == cores@[0].brand@
            &&& c.vendor@ == vendor_label(cores@[0].vendor_id@)
            &&& c.core_count == cores@.len()
            &&& c.clock == cores@[0].frequency
            &&& c.clock_unit@ == "MHz"@
            &&& c.cpu_name@ == cores@[0].name@
        },
{
    if cores.len() == 0 {
        return Err(HwInfoError::NoCpu);
    }
    let first = &cores[0];
    Ok(
        CpuInfo {
            name: first.brand.clone(),
            vendor: format_vendor_name(first.vendor_id.as_str()),
            core_count: cores.len(),
            clock: first.frequency,
            clock_unit: String::from_str("MHz"),
            cpu_name: first.name.clone(),
        },
    )
}

/// One physical memory device row as the OS management interface reports
/// it.
pub struct MemoryDeviceRow {
    pub capacity: u64,
    pub speed: u32,
    pub memory_type: Option<u16>,
    pub smbios_memory_type: Option<u16>,
}

/// One physical memory array row as the OS management interface reports
/// it.
pub struct MemoryArrayRow {
    pub memory_devices: Option<u32>,
}

/// The memory identity record the interface reports.
pub struct MemoryInfo {
    pub size: String,
    pub clock: u64,
    pub clock_unit: String,
    pub memory_count: usize,
    pub total_slots: usize,
    pub memory_type: String,
}

/// The capacities of the reported memory devices.
pub open spec fn device_capacities(rows: Seq<MemoryDeviceRow>) -> Seq<u64> {
    rows.map_values(|r: MemoryDeviceRow| r.capacity)
}

/// The memory type label for a raw type code.
pub open spec fn memory_type_label(memory_type: Option<u16>) -> Seq<char> {
    match memory_type {
        Option::None => "Unknown"@,
        Option::Some(mt) => {
            if mt == 0 {
                "Unknown or Unsupported"@
            } else if mt == 1 {
                "Other"@
            } else if mt == 2 {
                "DRAM"@
            } else if mt == 3 {
                "Synchronous DRAM"@
            } else if mt == 4 {
                "Cache DRAM"@
            } else if mt == 5 {
                "EDO"@
            } else if mt == 6 {
                "EDRAM"@
            } else if mt == 7 {
                "VRAM"@
            } else if mt == 8 {
                "SRAM"@
            } else if mt == 9 {
                "RAM"@
            } else if mt == 10 {
                "ROM"@
            } else if mt == 11 {
                "Flash"@
            } else if mt == 12 {
                "EEPROM"@
            } else if mt == 13 {
                "FEPROM"@
            } else if mt == 14 {
                "EPROM"@
            } else if mt == 15 {
                "CDRAM"@
            } else if mt == 16 {
                "3DRAM"@
            } else if mt == 17 {
                "SDRAM"@
            } else if mt == 18 {
                "SGRAM"@
            } else if mt == 19 {
                "RDRAM"@
            } else if mt == 20 {
                "DDR"@
            } else if mt == 21 {
                "DDR2"@
            } else if mt == 22 {
                "DDR2 FB-DIMM"@
            } else if mt == 24 {
                "DDR3"@
            } else if mt == 25 {
                "FBD2"@
            } else if mt == 26 {
                "DDR4"@
            } else {
                "Other or Unknown Memory Type ("@ + dec_rep(mt as nat) + ")"@
            }
        },
    }
}

/// The memory type label for a raw type code, with the vendor-specific
/// fallback: a code of zero defers to the SMBIOS type code.
pub open spec fn memory_type_fallback_label(
    memory_type: Option<u16>,
    smbios_memory_type: Option<u16>,
) -> Seq<char> {
    match memory_type {
        Option::None => "Unknown"@,
        Option::Some(mt) => {
            if mt != 0 {
                memory_type_label(Some(mt))
            } else {
                match smbios_memory_type {
                    Option::None => "Unknown"@,
                    Option::Some(smt) => {
                        if smt == 20 {
                            "DDR"@
                        } else if smt == 21 {
                            "DDR2"@
                        } else if smt == 24 {
                            "DDR3"@
                        } else if smt == 26 {
                            "DDR4"@
                        } else if smt == 34 {
                            "DDR5"@
                        } else {
                            "Other SMBIOS Memory Type ("@ + dec_rep(smt as nat) + ")"@
                        }
                    },
                }
            }
        },
    }
}

/// The memory type a raw type code describes.
pub fn get_memory_type_description(memory_type: Option<u16>) -> (r: String)
    ensures
        r@ == memory_type_label(memory_type),
{
    match memory_type {
        None => String::from_str("Unknown"),
        Some(mt) => {
            if mt == 0 {
                String::from_str("Unknown or Unsupported")
            } else if mt == 1 {
                String::from_str("Other")
            } else if mt == 2 {
                String::from_str("DRAM")
            } else if mt == 3 {
                String::from_str("Synchronous DRAM")
            } else if mt == 4 {
                String::from_str("Cache DRAM")
            } else if mt == 5 {
                String::from_str("EDO")
            } else if mt == 6 {
                String::from_str("EDRAM")
            } else if mt == 7 {
                String::from_str("VRAM")
            } else if mt == 8 {
                String::from_str("SRAM")
            } else if mt == 9 {
                String::from_str("RAM")
            } else if mt == 10 {
                String::from_str("ROM")
            } else if mt == 11 {
                String::from_str("Flash")
            } else if mt == 12 {
                String::from_str("EEPROM")
            } else if mt == 13 {
                String::from_str("FEPROM")
            } else if mt == 14 {
                String::from_str("EPROM")
            } else if mt == 15 {
                String::from_str("CDRAM")
            } else if mt == 16 {
                String::from_str("3DRAM")
            } else if mt == 17 {
                String::from_str("SDRAM")
            } else if mt == 18 {
                String::from_str("SGRAM")
            } else if mt == 19 {
                String::from_str("RDRAM")
            } else if mt == 20 {
                String::from_str("DDR")
            } else if mt == 21 {
                String::from_str("DDR2")
            } else if mt == 22 {
                String::from_str("DDR2 FB-DIMM")
            } else if mt == 24 {
                String::from_str("DDR3")
            } else if mt == 25 {
                String::from_str("FBD2")
            } else if mt == 26 {
                String::from_str("DDR4")
            } else {
                let mut out = String::from_str("Other or Unknown Memory Type (");
                push_u64(&mut out, mt as u64);
                push_char(&mut out, ')');
                proof {
                    assert(")"@ =~= seq![')']) by {
                        reveal_strlit(")");
                    }
                    assert(("Other or Unknown Memory Type ("@ + dec_rep(mt as nat)).push(')')
                        =~= memory_type_label(Some(mt)));
                }
                out
            }
        },
    }
}

/// The memory type a raw type code describes, deferring to the SMBIOS type
/// code when the primary code is zero.
pub fn get_memory_type_with_fallback(
    memory_type: Option<u16>,
    smbios_memory_type: Option<u16>,
) -> (r: String)
    ensures
        r@ == memory_type_fallback_label(memory_type, smbios_memory_type),
{
    match memory_type {
        None => String::from_str("Unknown"),
        Some(mt) => {
            if mt != 0 {
                get_memory_type_description(Some(mt))
            } else {
                match smbios_memory_type {
                    None => String::from_str("Unknown"),
                    Some(smt) => {
                        if smt == 20 {
                            String::from_str("DDR")
                        } else if smt == 21 {
                            String::from_str("DDR2")
                        } else if smt == 24 {
                            String::from_str("DDR3")
                        } else if smt == 26 {
                            String::from_str("DDR4")
                        } else if smt == 34 {
                            String::from_str("DDR5")
                        } else {
                            let mut out = String::from_str("Other SMBIOS Memory Type (");
                            push_u64(&mut out, smt as u64);
                            push_char(&mut out, ')');
                            proof {
                                assert(")"@ =~= seq![')']) by {
                                    reveal_strlit(")");
                                }
                                assert(("Other SMBIOS Memory Type ("@ + dec_rep(
                                    smt as nat,
                                )).push(')') =~= memory_type_fallback_label(
                                    memory_type,
                                    smbios_memory_type,
                                ));
                            }
                            out
                        }
                    },
                }
            }
        },
    }
}

/// Assemble the memory identity record from the reported device and array
/// rows: total size over all devices rendered to one decimal place, clock
/// and type from the first device, slot count from the first array. Fails
/// exactly when either query reported no rows.
pub fn get_memory_info(devices: &Vec<MemoryDeviceRow>, arrays: &Vec<MemoryArrayRow>) -> (r:
    Result<MemoryInfo, HwInfoError>)
    requires
        seq_sum(device_capacities(devices@)) <= u64::MAX,
    ensures
        r is Ok <==> (devices@.len() > 0 && arrays@.len() > 0),
        r matches Err(e) ==> e is NoMemoryDevices,
        r matches Ok(m) ==> {
            &&& m.size@ == size_string(seq_sum(device_capacities(devices@)), 1)
            &&& m.clock == devices@[0].speed as u64
            &&& m.clock_unit@ == "MHz"@
            &&& m.memory_count == devices@.len()
            &&& m.total_slots == (match arrays@[0].memory_devices {
                Option::Some(n) => n as usize,
                Option::None => 0,
            })
            &&& m.memory_type@ == memory_type_fallback_label(
                devices@[0].memory_type,
                devices@[0].smbios_memory_type,
            )
        },
{
    if devices.len() == 0 || arrays.len() == 0 {
        return Err(HwInfoError::NoMemoryDevices);
    }
    let mut capacities: Vec<u64> = Vec::new();
    let mut i: usize = 0;
    let n = devices.len();
    while i < n
        invariant
            i <= n,
            n == devices@.len(),
            capacities@ =~= device_capacities(devices@).subrange(0, i as int),
        decreases n - i,
    {
        capacities.push(devices[i].capacity);
        proof {
            assert(capacities@ =~= device_capacities(devices@).subrange(0, i + 1 as int));
        }
        i = i + 1;
    }
    proof {
        assert(capacities@ =~= device_capacities(devices@));
    }
    let total_wide = sum_samples(&capacities);
    let total = total_wide as u64;
    let first = &devices[0];
    let slots = match arrays[0].memory_devices {
        Some(count) => count as usize,
        None => 0,
    };
    Ok(
        MemoryInfo {
            size: format_size(total, 1),
            clock: first.speed as u64,
            clock_unit: String::from_str("MHz"),
            memory_count: devices.len(),
            total_slots: slots,
            memory_type: get_memory_type_with_fallback(
                first.memory_type,
                first.smbios_memory_type,
            ),
        },
    )
}

/// The identity record of one GPU as the interface reports it.
pub struct GraphicInfo {
    pub name: String,
    pub vendor_name: String,
    pub clock: u64,
    pub memory_size: String,
    pub memory_size_dedicated: String,
}

/// Assemble one GPU's identity record from its raw readings: a missing
/// graphics clock reads as zero, and both memory amounts are rendered from
/// kibibytes to one decimal place.
pub fn build_graphic_info(
    name: String,
    graphics_clock: Option<u64>,
    shared_kib: u64,
    dedicated_kib: u64,
) -> (r: GraphicInfo)
    ensures
        r.name@ == name@,
        r.vendor_name@ == "NVIDIA"@,
        r.clock == (match graphics_clock {
            Option::Some(f) => f,
            Option::None => 0,
        }),
        r.memory_size@ == kibibytes_string(shared_kib as nat, 1),
        r.memory_size_dedicated@ == kibibytes_string(dedicated_kib as nat, 1),
{
    let clock = match graphics_clock {
        Some(f) => f,
        None => 0,
    };
    GraphicInfo {
        name,
        vendor_name: String::from_str("NVIDIA"),
        clock,
        memory_size: RoundedKibibytes { kibibytes: shared_kib, precision: 1 }.format(),
        memory_size_dedicated: RoundedKibibytes {
            kibibytes: dedicated_kib,
            precision: 1,
        }.format(),
    }
}

/// Mean of the per-GPU utilization percentages, rounded to the nearest
/// whole percent.
pub open spec fn spec_gpu_usage(usages: Seq<u64>) -> nat {
    div_round(seq_sum(usages), usages.len())
}

/// Aggregate GPU usage percentage over the collected per-GPU utilization
/// readings. Fails exactly when no reading was collected.
pub fn get_gpu_usage(usages: &Vec<u64>) -> (r: Result<u64, HwInfoError>)
    ensures
        r is Ok <==> usages@.len() > 0,
        r matches Err(e) ==> e is NoGpu,
        r matches Ok(v) ==> v == spec_gpu_usage(usages@),
{
    if usages.len() == 0 {
        return Err(HwInfoError::NoGpu);
    }
    let sum = sum_samples(usages);
    proof {
        lemma_seq_sum_bound(usages@);
        lemma_div_round_bound(seq_sum(usages@), usages@.len() as nat, u64::MAX as nat);
    }
    Ok(crate::metrics::div_round_wide(sum, usages.len() as u128))
}

/// The best-effort aggregate of the three hardware identity queries.
pub struct SysInfo {
    pub cpu: Option<CpuInfo>,
    pub memory: Option<MemoryInfo>,
    pub gpus: Option<Vec<GraphicInfo>>,
}

/// Combine the three independent identity queries. Each sub-field is
/// whatever its query produced; the call fails only when all three queries
/// failed.
pub fn get_hardware_info(
    cpu: Option<CpuInfo>,
    memory: Option<MemoryInfo>,
    gpus: Option<Vec<GraphicInfo>>,
) -> (r: Result<SysInfo, HwInfoError>)
    ensures
        r is Ok <==> !(cpu is None && memory is None && gpus is None),
        r matches Err(e) ==> e is AllSourcesFailed,
        r matches Ok(s) ==> s.cpu == cpu && s.memory == memory && s.gpus == gpus,
{
    if cpu.is_none() && memory.is_none() && gpus.is_none() {
        Err(HwInfoError::AllSourcesFailed)
    } else {
        Ok(SysInfo { cpu, memory, gpus })
    }
}

/// The theme label for the OS theme query's result: the query reports
/// whether the light theme animation flag is set, and a failed query reads
/// as unknown.
pub fn get_windows_theme_mode(light_theme: Option<bool>) -> (r: String)
    ensures
        light_theme is None ==> r@ == "Unknown"@,
        light_theme == Some(false) ==> r@ == "Dark Mode"@,
        light_theme == Some(true) ==> r@ == "Light Mode"@,
{
    match light_theme {
        None => String::from_str("Unknown"),
        Some(false) => String::from_str("Dark Mode"),
        Some(true) => String::from_str("Light Mode"),
    }
}

} // verus!
