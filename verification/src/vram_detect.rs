//! VRAM detection through the NVIDIA Management Library (NVML).
//!
//! On hosts without an NVIDIA driver detection fails with
//! `VramDetectError::NvmlInit`; callers surface that as a configuration
//! error that asks for an explicit budget.

use vstd::prelude::*;
use nvml_wrapper::Nvml;
use nvml_wrapper::Device;
use nvml_wrapper::error::NvmlError;

verus! {

#[verifier::external_type_specification]
#[verifier::external_body]
pub struct ExNvml(Nvml);

#[verifier::external_type_specification]
#[verifier::external_body]
pub struct ExNvmlError(NvmlError);

#[verifier::external_type_specification]
#[verifier::external_body]
pub struct ExNvmlDevice<'a>(Device<'a>);

#[derive(Debug)]
pub struct VramInfo {
    pub device_index: u32,
    pub total_mb: u64,
    pub free_mb: u64,
}

#[derive(Debug)]
pub enum VramDetectError {
    NvmlInit(NvmlError),
    NoDevices,
    QueryFailed(NvmlError),
}

/// `Nvml::init`: loads and initialises the NVML shared library. Whether it
/// succeeds depends on the host, so nothing is promised of the outcome.
#[verifier::external_body]
pub(crate) fn nvml_init() -> (r: Result<Nvml, NvmlError>) {
    Nvml::init()
}

/// `Nvml::device_count`: the number of devices NVML sees on this host.
/// Nothing is promised of the number.
#[verifier::external_body]
pub(crate) fn nvml_device_count(nvml: &Nvml) -> (r: Result<u32, NvmlError>) {
    nvml.device_count()
}

/// `Nvml::device_by_index`: a handle to device `index`. Host-dependent.
#[verifier::external_body]
pub(crate) fn nvml_device_by_index<'a>(nvml: &'a Nvml, index: u32) -> (r: Result<Device<'a>, NvmlError>) {
    nvml.device_by_index(index)
}

/// `Device::memory_info`: the device's installed and free framebuffer
/// memory in bytes, returned as `(total, free)`. Host-dependent.
#[verifier::external_body]
pub(crate) fn nvml_memory_info(device: &Device) -> (r: Result<(u64, u64), NvmlError>) {
    device.memory_info().map(|m| (m.total, m.free))
}

/// `Device::name`: the product name the driver reports for the device.
/// Host-dependent, so nothing is promised of it.
#[verifier::external_body]
pub(crate) fn nvml_device_name(device: &Device) -> (r: Result<String, NvmlError>) {
    device.name()
}

/// The entry of device `index` whose memory reads `total` and `free` bytes:
/// sizes in MB, rounded down.
pub open spec fn info_from_bytes(index: int, total: u64, free: u64) -> VramInfo {
    VramInfo { device_index: index as u32, total_mb: total / 1_048_576u64, free_mb: free / 1_048_576u64 }
}

/// `infos` are the devices whose memory read `mem` as (total, free) bytes,
/// in device-index order.
pub open spec fn infos_from_readings(infos: Seq<VramInfo>, mem: Seq<(u64, u64)>) -> bool {
    &&& mem.len() == infos.len()
    &&& forall|i: int| 0 <= i < infos.len() ==> #[trigger] infos[i] == info_from_bytes(i, mem[i].0, mem[i].1)
}

/// What the device count NVML answered means for detection: a failed
/// query is `QueryFailed`, zero devices is `NoDevices`, and any other count
/// is the number of devices to read.
pub fn check_device_count(count: Result<u32, NvmlError>) -> (r: Result<u32, VramDetectError>)
    ensures
        match count {
            Ok(c) => if c == 0 { r matches Err(VramDetectError::NoDevices) } else { r == Ok::<u32, VramDetectError>(c) },
            Err(e) => r == Err::<u32, VramDetectError>(VramDetectError::QueryFailed(e)),
        },
{
    match count {
        Ok(0) => Err(VramDetectError::NoDevices),
        Ok(c) => Ok(c),
        Err(e) => Err(VramDetectError::QueryFailed(e)),
    }
}

/// The entry of device `index` from its memory reading: the sizes in MB,
/// or `QueryFailed` when the reading failed.
pub fn device_reading(index: u32, reading: Result<(u64, u64), NvmlError>) -> (r: Result<VramInfo, VramDetectError>)
    ensures
        match reading {
            Ok((total, free)) => r == Ok::<VramInfo, VramDetectError>(info_from_bytes(index as int, total, free)),
            Err(e) => r == Err::<VramInfo, VramDetectError>(VramDetectError::QueryFailed(e)),
        },
{
    match reading {
        Ok((total, free)) => Ok(VramInfo { device_index: index, total_mb: total / (1024 * 1024), free_mb: free / (1024 * 1024) }),
        Err(e) => Err(VramDetectError::QueryFailed(e)),
    }
}

/// Query every CUDA device visible to NVML, in device-index order. Sizes
/// are converted from bytes to MB (rounded down). Whether NVML answers, and
/// what it reads, depends on the host: on success every device is listed
/// with the memory NVML read for it. An NVML that cannot start gives
/// `NvmlInit`; the count is judged by `check_device_count` and each
/// device's memory by `device_reading`.
pub fn detect_all_devices() -> (r: Result<Vec<VramInfo>, VramDetectError>)
    ensures
        r matches Ok(v) ==> v@.len() > 0 && v@.len() <= u32::MAX && forall|i: int|
            0 <= i < v@.len() ==> (#[trigger] v@[i]).device_index == i,
        r matches Ok(v) ==> exists|mem: Seq<(u64, u64)>| #[trigger] infos_from_readings(v@, mem),
{
    let nvml = match nvml_init() {
        Ok(n) => n,
        Err(e) => return Err(VramDetectError::NvmlInit(e)),
    };
    let count = check_device_count(nvml_device_count(&nvml))?;
    let mut out: Vec<VramInfo> = Vec::new();
    let ghost mut mem: Seq<(u64, u64)> = Seq::empty();
    let mut i: u32 = 0;
    while i < count
        invariant
            i <= count,
            out@.len() == i,
            forall|k: int| 0 <= k < i ==> (#[trigger] out@[k]).device_index == k,
            infos_from_readings(out@, mem),
        decreases count - i,
    {
        let dev = match nvml_device_by_index(&nvml, i) {
            Ok(d) => d,
            Err(e) => return Err(VramDetectError::QueryFailed(e)),
        };
        let reading = nvml_memory_info(&dev);
        let ghost rd = reading;
        let info = device_reading(i, reading)?;
        proof {
            let (total, free) = rd->Ok_0;
            mem = mem.push((total, free));
        }
        out.push(info);
        i = i + 1;
    }
    assert(infos_from_readings(out@, mem));
    let r = Ok(out);
    assert(r matches Ok(v) && infos_from_readings(v@, mem));
    r
}

/// The first device of a detection result; `NoDevices` when the list is empty.
pub fn first_device(devices: Result<Vec<VramInfo>, VramDetectError>) -> (r: Result<VramInfo, VramDetectError>)
    ensures
        match devices {
            Ok(v) => if v@.len() > 0 { r == Ok::<VramInfo, VramDetectError>(v@[0]) } else { r is Err && r->Err_0 is NoDevices },
            Err(e) => r == Err::<VramInfo, VramDetectError>(e),
        },
{
    match devices {
        Ok(mut v) => {
            if v.len() > 0 {
                Ok(v.swap_remove(0))
            } else {
                Err(VramDetectError::NoDevices)
            }
        },
        Err(e) => Err(e),
    }
}

/// Single-device accessor: the first device that `detect_all_devices` reports.
pub fn detect_device_zero() -> (r: Result<VramInfo, VramDetectError>)
    ensures
        r matches Ok(info) ==> info.device_index == 0,
        r matches Ok(info) ==> exists|total: u64, free: u64| info == #[trigger] info_from_bytes(0, total, free),
{
    let all = detect_all_devices();
    let ghost g = all;
    let r = first_device(all);
    proof {
        if let Ok(v) = g {
            if v@.len() > 0 {
                let mem = choose|mem: Seq<(u64, u64)>| #[trigger] infos_from_readings(v@, mem);
                assert(v@[0] == info_from_bytes(0, mem[0].0, mem[0].1));
            }
        }
    }
    r
}

} // verus!
