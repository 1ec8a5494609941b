//! The choice of memory types on real devices.

use pumicite::memory::{select_memory_type, MemoryHeap, MemoryType, MemoryTypeMap, Strategy};
use pumicite::vk;

const GB: u64 = 1024 * 1024 * 1024;
const MB: u64 = 1024 * 1024;

fn flags(list: &[u32]) -> u32 {
    let mut result: u32 = 0;
    for f in list {
        result |= *f;
    }
    result
}

const DL: u32 = vk::MEMORY_PROPERTY_DEVICE_LOCAL;
const DLC_AMD: u32 = ash::vk::MemoryPropertyFlags::DEVICE_COHERENT_AMD.as_raw();
const DLU_AMD: u32 = ash::vk::MemoryPropertyFlags::DEVICE_UNCACHED_AMD.as_raw();
const HV: u32 = vk::MEMORY_PROPERTY_HOST_VISIBLE;
const HC: u32 = vk::MEMORY_PROPERTY_HOST_COHERENT;
const HCA: u32 = vk::MEMORY_PROPERTY_HOST_CACHED;

fn mem_type(heap_index: u32, flags: u32) -> MemoryType {
    MemoryType { property_flags: flags, heap_index }
}

fn mem_heap(size: u64, device_local: bool) -> MemoryHeap {
    MemoryHeap {
        size,
        flags: if device_local { ash::vk::MemoryHeapFlags::DEVICE_LOCAL.as_raw() } else { 0 },
        budget: 0,
        usage: 0,
    }
}

/// Intel integrated GPU: Single unified memory heap.
/// All memory is DEVICE_LOCAL + HOST_VISIBLE + HOST_COHERENT + HOST_CACHED.
#[test]
fn test_intel_integrated() {
    // Intel UHD Graphics 630 pattern:
    // Heap 0: ~25GB (system RAM, DEVICE_LOCAL)
    // Type 0: DEVICE_LOCAL | HOST_VISIBLE | HOST_COHERENT | HOST_CACHED
    let heaps = [mem_heap(25 * GB, true)];
    let types = [mem_type(0, flags(&[DL, HV, HC, HCA]))];

    let map = MemoryTypeMap::new(&types, &heaps, vk::PHYSICAL_DEVICE_TYPE_INTEGRATED_GPU);

    // All strategies should use type 0 (the only type)
    assert_eq!(map.private, 0, "private should use type 0");
    assert_eq!(map.host, 0, "host should use type 0");
    assert_eq!(map.dynamic, 0, "dynamic should use type 0");
    assert_eq!(map.upload, 0, "upload should use type 0");
    assert!(
        map.upload_host_visible,
        "integrated GPU should get host visible upload buffers"
    );
    assert_eq!(map.uniform, 0, "uniform should use type 0");
}

/// Apple Silicon (M1/M2/M3): Unified memory architecture.
/// Similar to Intel integrated but with MoltenVK translation layer.
#[test]
fn test_apple_silicon() {
    // Apple M1 pattern (via MoltenVK):
    // Heap 0: ~16GB unified memory (DEVICE_LOCAL)
    // Type 0: DEVICE_LOCAL | HOST_VISIBLE | HOST_COHERENT | HOST_CACHED
    let heaps = [mem_heap(16 * GB, true)];
    let types = [mem_type(0, flags(&[DL, HV, HC, HCA]))];

    let map = MemoryTypeMap::new(&types, &heaps, vk::PHYSICAL_DEVICE_TYPE_INTEGRATED_GPU);

    assert_eq!(map.private, 0);
    assert_eq!(map.host, 0);
    assert_eq!(map.dynamic, 0);
    assert_eq!(map.upload, 0);
    assert!(map.upload_host_visible);
    assert_eq!(map.uniform, 0);
}

/// NVIDIA discrete GPU without resizable BAR.
/// Separate VRAM and system RAM heaps, no host-visible VRAM.
#[test]
fn test_nvidia_discrete() {
    // NVIDIA RTX 3080 pattern (no ReBAR):
    // Heap 0: 10GB VRAM (DEVICE_LOCAL)
    // Heap 1: 32GB system RAM
    // Type 0: DEVICE_LOCAL (heap 0) - GPU only
    // Type 1: HOST_VISIBLE | HOST_COHERENT (heap 1) - staging
    // Type 2: HOST_VISIBLE | HOST_COHERENT | HOST_CACHED (heap 1) - readback
    let heaps = [mem_heap(10 * GB, true), mem_heap(32 * GB, false)];
    let types = [
        mem_type(0, DL),
        mem_type(1, flags(&[HV, HC])),
        mem_type(1, flags(&[HV, HC, HCA])),
    ];

    let map = MemoryTypeMap::new(&types, &heaps, vk::PHYSICAL_DEVICE_TYPE_DISCRETE_GPU);

    assert_eq!(map.private, 0, "private should use DEVICE_LOCAL type");
    assert_eq!(
        map.host, 1,
        "host should use HOST_VISIBLE without HOST_CACHED"
    );
    assert_eq!(map.dynamic, 2, "dynamic should use HOST_CACHED type");
    assert_eq!(
        map.upload, 0,
        "upload should use DEVICE_LOCAL (with staging)"
    );
    assert!(
        !map.upload_host_visible,
        "discrete GPU without ReBAR requires staging"
    );
    assert_eq!(
        map.uniform,
        u32::MAX,
        "no DEVICE_LOCAL + HOST_VISIBLE = uniform unavailable"
    );
}

/// NVIDIA discrete GPU with resizable BAR (SAM).
/// Entire VRAM is host-visible.
#[test]
fn test_nvidia_rebar() {
    // NVIDIA RTX 3080 with ReBAR enabled:
    // Heap 0: 10GB VRAM (DEVICE_LOCAL)
    // Heap 1: 32GB system RAM
    // Type 0: DEVICE_LOCAL (heap 0)
    // Type 1: DEVICE_LOCAL | HOST_VISIBLE | HOST_COHERENT (heap 0) - ReBAR!
    // Type 2: HOST_VISIBLE | HOST_COHERENT (heap 1)
    // Type 3: HOST_VISIBLE | HOST_COHERENT | HOST_CACHED (heap 1)
    let heaps = [mem_heap(10 * GB, true), mem_heap(32 * GB, false)];
    let types = [
        mem_type(0, DL),
        mem_type(0, flags(&[DL, HV, HC])),
        mem_type(1, flags(&[HV, HC])),
        mem_type(1, flags(&[HV, HC, HCA])),
    ];

    let map = MemoryTypeMap::new(&types, &heaps, vk::PHYSICAL_DEVICE_TYPE_DISCRETE_GPU);

    assert_eq!(
        map.private, 0,
        "private should prefer non-HOST_VISIBLE DEVICE_LOCAL"
    );
    assert_eq!(map.host, 2, "host should use system RAM for staging");
    assert_eq!(map.dynamic, 3, "dynamic should use HOST_CACHED type");
    assert_eq!(
        map.upload, 1,
        "upload should use ReBAR type (DEVICE_LOCAL + HOST_VISIBLE)"
    );
    assert!(map.upload_host_visible, "ReBAR allows direct upload");
    assert_eq!(map.uniform, 1, "uniform should use ReBAR type");
}

/// AMD discrete GPU with 256MB BAR (pre-SAM).
/// Small host-visible window into VRAM.
#[test]
fn test_amd_256mb_bar() {
    // AMD RX 6800 XT without SAM:
    // Heap 0: 16GB VRAM (DEVICE_LOCAL)
    // Heap 1: 256MB BAR (DEVICE_LOCAL) - small host-visible window
    // Heap 2: 16GB system RAM
    // Type 0: DEVICE_LOCAL (heap 0)
    // Type 1: DEVICE_LOCAL | HOST_VISIBLE | HOST_COHERENT (heap 1) - 256MB BAR
    // Type 2: HOST_VISIBLE | HOST_COHERENT (heap 2)
    // Type 3: HOST_VISIBLE | HOST_COHERENT | HOST_CACHED (heap 2)
    let heaps = [
        mem_heap(16 * GB, true),
        mem_heap(256 * MB, true),
        mem_heap(16 * GB, false),
    ];
    let types = [
        mem_type(0, DL),
        mem_type(1, flags(&[DL, HV, HC])),
        mem_type(2, flags(&[HV, HC])),
        mem_type(2, flags(&[HV, HC, HCA])),
    ];

    let map = MemoryTypeMap::new(&types, &heaps, vk::PHYSICAL_DEVICE_TYPE_DISCRETE_GPU);

    assert_eq!(map.private, 0, "private should use main VRAM heap");
    assert_eq!(map.host, 2, "host should use system RAM");
    assert_eq!(map.dynamic, 3, "dynamic should use HOST_CACHED");
    // For discrete GPU, 256MB BAR is still usable for uploads
    assert_eq!(
        map.upload, 0,
        "upload should use private, requiring staging"
    );
    assert!(
        !map.upload_host_visible,
        "256MB BAR does not allow direct upload"
    );
    assert_eq!(map.uniform, 1, "uniform should use 256MB BAR");
}

/// AMD discrete GPU with SAM (Smart Access Memory) / Resizable BAR.
/// Full VRAM is host-visible.
#[test]
fn test_amd_sam() {
    // AMD RX 6800 XT with SAM enabled:
    // Heap 0: 16GB VRAM (DEVICE_LOCAL)
    // Heap 1: 16GB system RAM
    // Type 0: DEVICE_LOCAL (heap 0)
    // Type 1: DEVICE_LOCAL | HOST_VISIBLE | HOST_COHERENT (heap 0) - full ReBAR
    // Type 2: HOST_VISIBLE | HOST_COHERENT (heap 1)
    // Type 3: HOST_VISIBLE | HOST_COHERENT | HOST_CACHED (heap 1)
    let heaps = [mem_heap(16 * GB, true), mem_heap(16 * GB, false)];
    let types = [
        mem_type(0, DL),
        mem_type(0, flags(&[DL, HV, HC])),
        mem_type(1, flags(&[HV, HC])),
        mem_type(1, flags(&[HV, HC, HCA])),
    ];

    let map = MemoryTypeMap::new(&types, &heaps, vk::PHYSICAL_DEVICE_TYPE_DISCRETE_GPU);

    assert_eq!(map.private, 0, "private should prefer pure DEVICE_LOCAL");
    assert_eq!(map.host, 2, "host should use system RAM");
    assert_eq!(map.dynamic, 3, "dynamic should use HOST_CACHED");
    assert_eq!(map.upload, 1, "upload should use SAM/ReBAR type");
    assert!(map.upload_host_visible, "SAM allows direct upload");
    assert_eq!(map.uniform, 1, "uniform should use SAM/ReBAR type");
}

/// AMD APU (e.g., Steam Deck, Ryzen 7000 series APU).
/// 256MB "virtual" DEVICE_LOCAL heap, rest is HOST_VISIBLE system RAM.
#[test]
fn test_amd_apu() {
    // AMD Ryzen 7 6800U (Rembrandt APU) pattern:
    // Heap 0: 256MB "carve-out" (DEVICE_LOCAL) - virtual VRAM
    // Heap 1: 14GB system RAM
    // Type 0: DEVICE_LOCAL (heap 0) - too small for general use!
    // Type 1: DEVICE_LOCAL | HOST_VISIBLE | HOST_COHERENT (heap 0)
    // Type 2: HOST_VISIBLE | HOST_COHERENT (heap 1) - main memory
    // Type 3: HOST_VISIBLE | HOST_COHERENT | HOST_CACHED (heap 1)
    let heaps = [
        mem_heap(16 * GB, true),
        mem_heap(8 * GB, false),
        mem_heap(256 * MB, true),
    ];
    let types = [
        mem_type(0, DL),
        mem_type(0, flags(&[DL, DLC_AMD, DLU_AMD])),
        mem_type(0, DL),
        mem_type(0, flags(&[DL, DLC_AMD, DLU_AMD])),
        mem_type(1, flags(&[HV, HC])),
        mem_type(1, flags(&[HV, HC, HCA])),
        mem_type(1, flags(&[HV, HC, DLC_AMD, DLU_AMD])),
        mem_type(1, flags(&[HV, HC, HCA, DLC_AMD, DLU_AMD])),
        mem_type(1, flags(&[HV, HC])),
        mem_type(1, flags(&[HV, HC, HCA])),
        mem_type(1, flags(&[HV, HC, DLC_AMD, DLU_AMD])),
        mem_type(1, flags(&[HV, HC, HCA, DLC_AMD, DLU_AMD])),
        mem_type(2, flags(&[DL, HV, HC])),
        mem_type(2, flags(&[DL, HV, HC, DLC_AMD, DLU_AMD])),
        mem_type(2, flags(&[DL, HV, HC])),
        mem_type(2, flags(&[DL, HV, HC, DLC_AMD, DLU_AMD])),
    ];

    let map = MemoryTypeMap::new(&types, &heaps, vk::PHYSICAL_DEVICE_TYPE_INTEGRATED_GPU);

    // Private can still use the small DEVICE_LOCAL heap for scratch data
    assert_eq!(map.private, 0, "private should use DEVICE_LOCAL");
    assert_eq!(map.host, 4, "host should use system RAM (non-cached)");
    assert_eq!(map.dynamic, 5, "dynamic should use HOST_CACHED");
    // Upload should fall back to system RAM because 256MB is too small
    assert_eq!(
        map.upload, 4,
        "upload should fall back to HOST_VISIBLE (system RAM)"
    );
    assert!(
        map.upload_host_visible,
        "APU with system RAM doesn't need staging"
    );
    assert_eq!(
        map.uniform, 12,
        "uniform should use 256MB BAR (DL+HV on heap 2)"
    );
}

/// Steam Deck (AMD Van Gogh APU).
/// Similar to AMD APU but with specific memory configuration.
#[test]
fn test_steam_deck() {
    // Steam Deck (AMD Van Gogh) pattern:
    // Heap 0: 256MB DEVICE_LOCAL
    // Heap 1: ~14GB system RAM
    // Same type layout as other AMD APUs
    let heaps = [mem_heap(4 * MB, false), mem_heap(8 * GB, true)];
    let types = [
        mem_type(0, flags(&[HV, HC])),
        mem_type(0, flags(&[HV, HC, HCA])),
        mem_type(0, flags(&[HV, HC, HCA])),
        mem_type(0, flags(&[HV, HC, DLC_AMD, DLU_AMD])),
        mem_type(0, flags(&[HV, HC, HCA, DLC_AMD, DLU_AMD])),
        mem_type(1, DL),
        mem_type(1, DL),
        mem_type(1, flags(&[DL, HV, HC])),
        mem_type(1, flags(&[DL, HV, HC])),
        mem_type(1, flags(&[DL, DLC_AMD, DLU_AMD])),
        mem_type(1, flags(&[DL, HV, HC, DLC_AMD, DLU_AMD])),
    ];

    let map = MemoryTypeMap::new(&types, &heaps, vk::PHYSICAL_DEVICE_TYPE_INTEGRATED_GPU);

    assert_eq!(map.private, 5);
    assert_eq!(map.host, 0);
    assert_eq!(map.dynamic, 1);
    assert_eq!(map.upload, 7);
    assert!(map.upload_host_visible);
    assert_eq!(map.uniform, 7, "uniform should use DL+HV type on heap 1");
}

/// Older Intel discrete GPU (Arc series).
/// Discrete with separate heaps but potentially different layout.
#[test]
fn test_intel_arc() {
    // Intel Arc A770 pattern:
    // Heap 0: 16GB VRAM (DEVICE_LOCAL)
    // Heap 1: 32GB system RAM
    // Type 0: DEVICE_LOCAL (heap 0)
    // Type 1: DEVICE_LOCAL | HOST_VISIBLE | HOST_COHERENT (heap 0) - ReBAR
    // Type 2: HOST_VISIBLE | HOST_COHERENT (heap 1)
    // Type 3: HOST_VISIBLE | HOST_COHERENT | HOST_CACHED (heap 1)
    let heaps = [mem_heap(16 * GB, true), mem_heap(32 * GB, false)];
    let types = [
        mem_type(0, DL),
        mem_type(0, flags(&[DL, HV, HC])),
        mem_type(1, flags(&[HV, HC])),
        mem_type(1, flags(&[HV, HC, HCA])),
    ];

    let map = MemoryTypeMap::new(&types, &heaps, vk::PHYSICAL_DEVICE_TYPE_DISCRETE_GPU);

    assert_eq!(map.private, 0, "private should use pure DEVICE_LOCAL");
    assert_eq!(map.host, 2, "host should use system RAM");
    assert_eq!(map.dynamic, 3, "dynamic should use HOST_CACHED");
    assert_eq!(map.upload, 1, "upload should use ReBAR");
    assert!(map.upload_host_visible);
    assert_eq!(map.uniform, 1, "uniform should use ReBAR type");
}

/// Qualcomm Adreno (mobile GPU in Android/Windows on ARM).
/// Unified memory similar to other integrated GPUs.
#[test]
fn test_qualcomm_adreno() {
    // Qualcomm Adreno 740 pattern:
    // Single heap, unified memory
    let heaps = [mem_heap(8 * GB, true)];
    let types = [mem_type(0, DL), mem_type(0, flags(&[DL, HV, HC, HCA]))];

    let map = MemoryTypeMap::new(&types, &heaps, vk::PHYSICAL_DEVICE_TYPE_INTEGRATED_GPU);

    // Should prefer non-HOST_VISIBLE for private if available
    assert_eq!(map.private, 0, "private should use pure DEVICE_LOCAL");
    assert_eq!(map.host, 1, "host should use HOST_VISIBLE type");
    assert_eq!(map.dynamic, 1, "dynamic should use HOST_CACHED type");
    assert_eq!(map.upload, 1, "upload should use HOST_VISIBLE DEVICE_LOCAL");
    assert!(map.upload_host_visible);
    assert_eq!(map.uniform, 1, "uniform should use DL+HV type");
}

/// Edge case: Minimal configuration with only essential memory types.
#[test]
fn test_minimal_discrete() {
    // Minimal discrete GPU configuration:
    // Heap 0: VRAM
    // Heap 1: System RAM
    // Only two memory types
    let heaps = [mem_heap(4 * GB, true), mem_heap(8 * GB, false)];
    let types = [mem_type(0, DL), mem_type(1, flags(&[HV, HC, HCA]))];

    let map = MemoryTypeMap::new(&types, &heaps, vk::PHYSICAL_DEVICE_TYPE_DISCRETE_GPU);

    assert_eq!(map.private, 0);
    assert_eq!(map.host, 1);
    assert_eq!(map.dynamic, 1);
    assert_eq!(map.upload, 0, "upload must use DEVICE_LOCAL");
    assert!(
        !map.upload_host_visible,
        "no HOST_VISIBLE DEVICE_LOCAL = staging required"
    );
    assert_eq!(
        map.uniform,
        u32::MAX,
        "no DEVICE_LOCAL + HOST_VISIBLE = uniform unavailable"
    );
}

/// Test that larger heaps are preferred when multiple options exist.
#[test]
fn test_heap_size_preference() {
    // Two DEVICE_LOCAL heaps of different sizes
    let heaps = [
        mem_heap(2 * GB, true),   // Smaller VRAM
        mem_heap(8 * GB, true),   // Larger VRAM
        mem_heap(16 * GB, false), // System RAM
    ];
    let types = [
        mem_type(0, DL),
        mem_type(1, DL),
        mem_type(2, flags(&[HV, HC, HCA])),
    ];

    let map = MemoryTypeMap::new(&types, &heaps, vk::PHYSICAL_DEVICE_TYPE_DISCRETE_GPU);

    // Should prefer the larger VRAM heap
    assert_eq!(map.private, 1, "private should use larger VRAM heap");
    assert_eq!(
        map.uniform,
        u32::MAX,
        "no DEVICE_LOCAL + HOST_VISIBLE = uniform unavailable"
    );
}

/// Test ReBAR preference: larger heap should be chosen over 256MB BAR.
#[test]
fn test_rebar_over_256mb_bar() {
    // System with both 256MB BAR and full ReBAR
    // (unusual but possible during driver transitions)
    let heaps = [
        mem_heap(8 * GB, true),   // Main VRAM
        mem_heap(256 * MB, true), // Old 256MB BAR
        mem_heap(16 * GB, false), // System RAM
    ];
    let types = [
        mem_type(0, DL),
        mem_type(0, flags(&[DL, HV, HC])), // ReBAR on main VRAM
        mem_type(1, flags(&[DL, HV, HC])), // 256MB BAR
        mem_type(2, flags(&[HV, HC, HCA])),
    ];

    let map = MemoryTypeMap::new(&types, &heaps, vk::PHYSICAL_DEVICE_TYPE_DISCRETE_GPU);

    // Upload should prefer the larger ReBAR heap over the 256MB BAR
    assert_eq!(map.upload, 1, "upload should prefer larger ReBAR heap");
    assert!(map.upload_host_visible);
    assert_eq!(
        map.uniform, 1,
        "uniform should prefer larger ReBAR heap over 256MB BAR"
    );
}

#[test]
fn chosen_types_suit_their_strategy() {
    let heaps = [mem_heap(10 * GB, true), mem_heap(32 * GB, false)];
    let types = [
        mem_type(0, DL),
        mem_type(0, flags(&[DL, HV, HC])),
        mem_type(1, flags(&[HV, HC])),
        mem_type(1, flags(&[HV, HC, HCA])),
    ];
    let map = MemoryTypeMap::new(&types, &heaps, vk::PHYSICAL_DEVICE_TYPE_DISCRETE_GPU);
    assert_ne!(types[map.private as usize].property_flags & DL, 0);
    assert_ne!(types[map.host as usize].property_flags & HV, 0);
    assert_ne!(types[map.dynamic as usize].property_flags & HCA, 0);
    // The window is as large as the memory of the device.
    assert!(map.upload_host_visible);
    assert_ne!(types[map.upload as usize].property_flags & HV, 0);

    assert_eq!(select_memory_type(Strategy::Private, &types, &heaps), Some(0));
    assert_eq!(select_memory_type(Strategy::Host, &types, &heaps), Some(2));
    assert_eq!(select_memory_type(Strategy::Dynamic, &types, &heaps), Some(3));
    assert_eq!(select_memory_type(Strategy::Direct, &types, &heaps), Some(1));
    assert_eq!(select_memory_type(Strategy::Direct, &types[2..], &heaps), None);
    assert_eq!(select_memory_type(Strategy::Host, &[], &heaps), None);
}

#[test]
fn upload_memory_is_reported_as_it_is() {
    // No device-local memory can be written by the CPU: an integrated device
    // takes the staging memory, which can.
    let heaps = [mem_heap(GB, true), mem_heap(8 * GB, false)];
    let types = [mem_type(0, DL), mem_type(1, flags(&[HV, HC, HCA]))];
    let map = MemoryTypeMap::new(&types, &heaps, vk::PHYSICAL_DEVICE_TYPE_INTEGRATED_GPU);
    assert_eq!(map.upload, 1);
    assert!(map.upload_host_visible);
    assert_eq!(map.uniform, u32::MAX);

    let map = MemoryTypeMap::new(&types, &heaps, vk::PHYSICAL_DEVICE_TYPE_DISCRETE_GPU);
    assert_eq!(map.upload, 0);
    assert!(!map.upload_host_visible);

    // The only memory of the device is a small window, which the CPU can write.
    let heaps = [mem_heap(GB / 8, true)];
    let types = [mem_type(0, flags(&[DL, HV, HC, HCA]))];
    let map = MemoryTypeMap::new(&types, &heaps, vk::PHYSICAL_DEVICE_TYPE_DISCRETE_GPU);
    assert_eq!(map.upload, 0);
    assert!(map.upload_host_visible);
}
