//! What the telemetry snapshot is made from: the readings of the host, as
//! text, turned into numbers. Reading the host and writing the snapshot as
//! JSON are left to the caller.

use vstd::prelude::*;
use vstd::slice::slice_subrange;
use crate::parse::{
    find_line_end, has_prefix, integer_in_i32, lemma_line_end_bounds, line_end, nth_word, number_up_to, or_zero,
    parse_integer, parse_number, starts_with, strip_trailing, strip_trailing_end, to_chars, trim,
    trim_bounds, word_bounds,
};

verus! {

/// The network part of a snapshot, in bytes per second.
#[derive(Debug, Clone, Copy, PartialEq, Eq, Structural)]
pub struct NetworkInfo {
    pub upload: u64,
    pub download: u64,
}

/// The memory part of a snapshot: total and used in megabytes, the load in
/// percent.
#[derive(Debug, Clone, Copy, PartialEq, Eq, Structural)]
pub struct MemoryInfo {
    pub total: u64,
    pub used: u64,
    pub load: u8,
    pub temperature: u8,
    pub speed: u32,
}

/// The disk part of a snapshot: total and used in gigabytes, the load in
/// percent.
#[derive(Debug, Clone, Copy, PartialEq, Eq, Structural)]
pub struct DiskInfo {
    pub total: u64,
    pub used: u64,
    pub load: u8,
    pub activity: u8,
    pub temperature: u8,
    pub read_speed: u64,
    pub write_speed: u64,
}

/// One fan of a snapshot.
#[derive(Debug)]
pub struct FanInfo {
    pub on_board: bool,
    pub name: String,
    pub value: u32,
}

/// The motherboard part of a snapshot.
#[derive(Debug, Clone, Copy, PartialEq, Eq, Structural)]
pub struct MotherboardInfo {
    pub temperature: u8,
    pub pch_temperature: u8,
}

/// The memory speed that is reported, in MHz. It is not measured.
pub const MEMORY_SPEED: u32 = 3200;

/// The number in a line of `/proc/meminfo`: what its second word writes,
/// or 0 where there is no second word or it writes no number.
pub open spec fn meminfo_value(line: Seq<char>) -> u64 {
    match nth_word(line, 0, 1) {
        Some(word) => or_zero(number_up_to(word, u64::MAX)),
        None => 0,
    }
}

/// The total and the available memory after the lines from position `from`
/// on: a line that begins with `MemTotal:` gives the total, one that begins
/// with `MemAvailable:` the available memory, and a later line overrides an
/// earlier one.
pub open spec fn scan_meminfo(s: Seq<char>, from: int, total: u64, available: u64) -> (u64, u64)
    decreases s.len() - from,
    via scan_meminfo_ends
{
    if 0 <= from < s.len() {
        let end = line_end(s, from);
        let line = s.subrange(from, end);
        let is_total = starts_with(line, "MemTotal:"@);
        let is_available = !is_total && starts_with(line, "MemAvailable:"@);
        let total = if is_total {
            meminfo_value(line)
        } else {
            total
        };
        let available = if is_available {
            meminfo_value(line)
        } else {
            available
        };
        if end < s.len() {
            scan_meminfo(s, end + 1, total, available)
        } else {
            (total, available)
        }
    } else {
        (total, available)
    }
}

/// Each line ends at or after its start, so the scan moves on.
#[via_fn]
proof fn scan_meminfo_ends(s: Seq<char>, from: int, total: u64, available: u64) {
    if 0 <= from < s.len() {
        lemma_line_end_bounds(s, from);
    }
}

/// The share of `used` in `total`, in percent, rounded down; 0 where
/// `total` is 0.
pub open spec fn percent_of(used: u64, total: u64) -> u8 {
    if total > 0 && used <= total {
        (used as int * 100 / total as int) as u8
    } else {
        0
    }
}

/// Total memory in megabytes, used memory in megabytes and the load in
/// percent, from the text of `/proc/meminfo`, whose numbers are kilobytes.
/// Used is total less available, and never below 0.
pub open spec fn memory_usage_of(content: Seq<char>) -> (u64, u64, u8) {
    let (total, available) = scan_meminfo(content, 0, 0, 0);
    let used = if available <= total {
        (total - available) as u64
    } else {
        0
    };
    (total / 1024, used / 1024, percent_of(used, total))
}

/// Total size in gigabytes, used size in gigabytes and the load in
/// percent, from the answer of `df --output=size,used,pcent`, whose sizes
/// are kilobytes: the first three words of the second line. Where that
/// line has fewer words, all three are 0; a word that writes no number
/// counts as 0.
pub open spec fn disk_usage_of(output: Seq<char>) -> (u64, u64, u8) {
    let first_end = line_end(output, 0);
    if first_end >= output.len() {
        (0, 0, 0)
    } else {
        let line = output.subrange(first_end + 1, line_end(output, first_end + 1));
        match (nth_word(line, 0, 0), nth_word(line, 0, 1), nth_word(line, 0, 2)) {
            (Some(size), Some(used), Some(percent)) => (
                or_zero(number_up_to(size, u64::MAX)) / 1024 / 1024,
                or_zero(number_up_to(used, u64::MAX)) / 1024 / 1024,
                or_zero(number_up_to(strip_trailing(percent, '%'), 255)) as u8,
            ),
            _ => (0, 0, 0),
        }
    }
}

/// A temperature in thousandths of a degree as whole degrees, the
/// fraction cut off, kept to its lowest eight bits.
pub open spec fn celsius_byte(millidegrees: int) -> u8 {
    let degrees = if millidegrees >= 0 {
        millidegrees / 1000
    } else {
        -((-millidegrees) / 1000)
    };
    (degrees % 256) as u8
}

/// The temperature that a sensor file gives: its text, trimmed, is a
/// 32-bit integer of thousandths of a degree.
pub open spec fn temperature_of(content: Seq<char>) -> Option<u8> {
    match integer_in_i32(trim(content)) {
        Some(millidegrees) => Some(celsius_byte(millidegrees as int)),
        None => None,
    }
}

/// The temperature that `nvidia-smi` prints: its text, trimmed, is a
/// number of at most 255 degrees.
pub open spec fn gpu_temperature_of(output: Seq<char>) -> Option<u8> {
    match number_up_to(trim(output), 255) {
        Some(degrees) => Some(degrees as u8),
        None => None,
    }
}

/// The number in the line `line`, a slice of characters.
fn meminfo_value_in(line: &[char]) -> (value: u64)
    ensures
        value == meminfo_value(line@),
{
    match word_bounds(line, 1) {
        Some((start, end)) => {
            match parse_number(slice_subrange(line, start, end), u64::MAX) {
                Some(v) => v,
                None => 0,
            }
        },
        None => 0,
    }
}

/// The number in a line of `/proc/meminfo`.
pub fn parse_meminfo_value(line: &str) -> (value: u64)
    ensures
        value == meminfo_value(line@),
{
    let chars = to_chars(line);
    meminfo_value_in(chars.as_slice())
}

/// Total memory, used memory and load, from the text of `/proc/meminfo`.
pub fn memory_usage(content: &str) -> (usage: (u64, u64, u8))
    ensures
        usage == memory_usage_of(content@),
{
    let chars = to_chars(content);
    let s = chars.as_slice();
    let total_key = to_chars("MemTotal:");
    let available_key = to_chars("MemAvailable:");
    let mut total: u64 = 0;
    let mut available: u64 = 0;
    let mut from: usize = 0;
    while from < s.len()
        invariant
            from <= s@.len(),
            s@ == content@,
            total_key@ == "MemTotal:"@,
            available_key@ == "MemAvailable:"@,
            scan_meminfo(s@, 0, 0, 0) == scan_meminfo(s@, from as int, total, available),
        decreases s@.len() - from,
    {
        let end = find_line_end(s, from);
        let line = slice_subrange(s, from, end);
        if has_prefix(line, total_key.as_slice()) {
            total = meminfo_value_in(line);
        } else if has_prefix(line, available_key.as_slice()) {
            available = meminfo_value_in(line);
        }
        if end >= s.len() {
            from = end;
        } else {
            from = end + 1;
        }
    }
    let used: u64 = if available <= total {
        total - available
    } else {
        0
    };
    let load: u8 = if total > 0 {
        assert(used as int * 100 / total as int <= 100) by (nonlinear_arith)
            requires
                0 <= used <= total,
                total > 0,
        ;
        (used as u128 * 100 / total as u128) as u8
    } else {
        0
    };
    (total / 1024, used / 1024, load)
}

/// Total size, used size and load of the root partition, from the answer
/// of `df --output=size,used,pcent`.
pub fn disk_usage(output: &str) -> (usage: (u64, u64, u8))
    ensures
        usage == disk_usage_of(output@),
{
    let chars = to_chars(output);
    let s = chars.as_slice();
    let first_end = find_line_end(s, 0);
    if first_end >= s.len() {
        return (0, 0, 0);
    }
    let second_end = find_line_end(s, first_end + 1);
    let line = slice_subrange(s, first_end + 1, second_end);
    let size = match word_bounds(line, 0) {
        Some(bounds) => bounds,
        None => {
            return (0, 0, 0);
        },
    };
    let used = match word_bounds(line, 1) {
        Some(bounds) => bounds,
        None => {
            return (0, 0, 0);
        },
    };
    let percent = match word_bounds(line, 2) {
        Some(bounds) => bounds,
        None => {
            return (0, 0, 0);
        },
    };
    let total_kb: u64 = match parse_number(slice_subrange(line, size.0, size.1), u64::MAX) {
        Some(v) => v,
        None => 0,
    };
    let used_kb: u64 = match parse_number(slice_subrange(line, used.0, used.1), u64::MAX) {
        Some(v) => v,
        None => 0,
    };
    let word = slice_subrange(line, percent.0, percent.1);
    let stop = strip_trailing_end(word, '%');
    let digits = slice_subrange(word, 0, stop);
    assert(digits@ =~= word@.take(stop as int));
    let load: u8 = match parse_number(digits, 255) {
        Some(v) => v as u8,
        None => 0,
    };
    (total_kb / 1024 / 1024, used_kb / 1024 / 1024, load)
}

/// The temperature that the text of a sensor file gives, in degrees.
pub fn parse_temperature(content: &str) -> (degrees: Option<u8>)
    ensures
        degrees == temperature_of(content@),
{
    let chars = to_chars(content);
    let s = chars.as_slice();
    let (start, end) = trim_bounds(s);
    match parse_integer(slice_subrange(s, start, end)) {
        Some(millidegrees) => {
            let t: i64 = millidegrees as i64;
            if t >= 0 {
                let q: i64 = t / 1000;
                Some((q % 256) as u8)
            } else {
                let q: i64 = (0 - t) / 1000;
                let r: i64 = q % 256;
                if r == 0 {
                    Some(0)
                } else {
                    Some((256 - r) as u8)
                }
            }
        },
        None => None,
    }
}

/// The temperature that the answer of `nvidia-smi` gives, in degrees.
pub fn parse_gpu_temperature(output: &str) -> (degrees: Option<u8>)
    ensures
        degrees == gpu_temperature_of(output@),
{
    let chars = to_chars(output);
    let s = chars.as_slice();
    let (start, end) = trim_bounds(s);
    match parse_number(slice_subrange(s, start, end), 255) {
        Some(v) => Some(v as u8),
        None => None,
    }
}

impl MemoryInfo {
    /// The memory part of a snapshot, from the text of `/proc/meminfo`.
    pub fn from_meminfo(content: &str) -> (info: MemoryInfo)
        ensures
            info == (MemoryInfo {
                total: memory_usage_of(content@).0,
                used: memory_usage_of(content@).1,
                load: memory_usage_of(content@).2,
                temperature: 0,
                speed: MEMORY_SPEED,
            }),
    {
        let (total, used, load) = memory_usage(content);
        MemoryInfo { total, used, load, temperature: 0, speed: MEMORY_SPEED }
    }
}

impl DiskInfo {
    /// The disk part of a snapshot, from the answer of `df`.
    pub fn from_df(output: &str) -> (info: DiskInfo)
        ensures
            info == (DiskInfo {
                total: disk_usage_of(output@).0,
                used: disk_usage_of(output@).1,
                load: disk_usage_of(output@).2,
                activity: 0,
                temperature: 0,
                read_speed: 0,
                write_speed: 0,
            }),
    {
        let (total, used, load) = disk_usage(output);
        DiskInfo { total, used, load, activity: 0, temperature: 0, read_speed: 0, write_speed: 0 }
    }
}

} // verus!
