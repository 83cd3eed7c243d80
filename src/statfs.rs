use vstd::prelude::*;

verus! {

/// Filesystem statistics, as `statvfs` reports them.
#[derive(Clone, Copy, Debug)]
pub struct Stats {
    pub block_size: u64,
    pub fragment_size: u64,
    pub block_count: u64,
    pub blocks_free: u64,
    pub blocks_free_unprivileged: u64,
    pub inodes: u64,
    pub inodes_free: u64,
    pub inodes_free_unprivileged: u64,
    pub file_system_id: u64,
    pub flags: u64,
    pub filename_max_len: u64,
}

#[derive(Clone, Copy, Debug, PartialEq, Eq, Structural)]
pub enum UsageUnit {
    Bytes,
    Inodes,
}

/// How much of a volume is used, in one unit.
#[derive(Clone, Copy, Debug, PartialEq, Eq, Structural)]
pub struct VolumeUsage {
    pub available: i64,
    pub total: i64,
    pub used: i64,
    pub unit: UsageUnit,
}

/// `x` held to the range `0..=i64::MAX`.
pub open spec fn clamp_i64(x: int) -> i64 {
    if x < 0 {
        0
    } else if x > i64::MAX {
        i64::MAX
    } else {
        x as i64
    }
}

/// `a * b`, held to the range of `i64`.
pub fn mul_clamped(a: u64, b: u64) -> (r: i64)
    ensures
        r == clamp_i64(a * b),
{
    assert((a as int) * (b as int) <= u128::MAX) by (nonlinear_arith)
        requires
            a <= u64::MAX,
            b <= u64::MAX,
    ;
    assert((a as int) * (b as int) >= 0) by (nonlinear_arith);
    let p = (a as u128) * (b as u128);
    if p > i64::MAX as u128 {
        i64::MAX
    } else {
        p as i64
    }
}

/// `(a - b) * c`, held to the range `0..=i64::MAX`.
pub fn sub_mul_clamped(a: u64, b: u64, c: u64) -> (r: i64)
    ensures
        r == clamp_i64((a - b) * c),
{
    if a < b {
        assert((a - b) * c <= 0) by (nonlinear_arith)
            requires
                a < b,
                c >= 0,
        ;
        0
    } else {
        mul_clamped(a - b, c)
    }
}

/// The space a filesystem offers to unprivileged writers, in bytes.
pub fn available_bytes(stats: &Stats) -> (r: i64)
    ensures
        r == clamp_i64(stats.blocks_free_unprivileged * stats.block_size),
{
    mul_clamped(stats.blocks_free_unprivileged, stats.block_size)
}

/// The usage of a mounted volume in bytes and in inodes.
pub fn volume_usage(stats: &Stats) -> (r: Vec<VolumeUsage>)
    ensures
        r@ == seq![
            VolumeUsage {
                available: clamp_i64(stats.blocks_free_unprivileged * stats.block_size),
                total: clamp_i64(stats.block_count * stats.block_size),
                used: clamp_i64(
                    (stats.block_count - stats.blocks_free_unprivileged) * stats.block_size,
                ),
                unit: UsageUnit::Bytes,
            },
            VolumeUsage {
                available: clamp_i64(stats.inodes_free_unprivileged as int),
                total: clamp_i64(stats.inodes as int),
                used: clamp_i64(stats.inodes - stats.inodes_free_unprivileged),
                unit: UsageUnit::Inodes,
            },
        ],
{
    let bytes = VolumeUsage {
        available: available_bytes(stats),
        total: mul_clamped(stats.block_count, stats.block_size),
        used: sub_mul_clamped(stats.block_count, stats.blocks_free_unprivileged, stats.block_size),
        unit: UsageUnit::Bytes,
    };
    let inodes = VolumeUsage {
        available: mul_clamped(stats.inodes_free_unprivileged, 1),
        total: mul_clamped(stats.inodes, 1),
        used: sub_mul_clamped(stats.inodes, stats.inodes_free_unprivileged, 1),
        unit: UsageUnit::Inodes,
    };
    let mut r: Vec<VolumeUsage> = Vec::new();
    r.push(bytes);
    r.push(inodes);
    assert(r@ =~= seq![bytes, inodes]);
    r
}

} // verus!
