//! Sizing of the event-log stage from what the machine offers.
//!
//! Memory and processor count are read through the `sysinfo` crate. They
//! depend on the machine and the moment, so nothing is claimed of them: the
//! sizing rule is a function of whatever was measured.

use sysinfo::System;
use vstd::prelude::*;

verus! {

/// `sysinfo::System`, a snapshot of the machine. Nothing of its inside is
/// known here.
#[verifier::external_type_specification]
#[verifier::external_body]
pub struct ExSystem(sysinfo::System);

/// `sysinfo::Cpu`, one logical processor of a snapshot. Nothing of its
/// inside is known here.
#[verifier::external_type_specification]
#[verifier::external_body]
pub struct ExCpu(sysinfo::Cpu);

/// `System::new_all` takes a snapshot of the machine. Nothing is claimed of
/// what it holds.
pub assume_specification[ System::new_all ]() -> System;

/// `System::refresh_all` updates the snapshot. Nothing is claimed of what it
/// holds afterwards.
pub assume_specification[ System::refresh_all ](system: &mut System);

/// `System::available_memory` gives the available memory in bytes, as the
/// snapshot has it. Nothing is claimed of the number.
pub assume_specification[ System::available_memory ](system: &System) -> u64;

/// `System::cpus` gives the logical processors, as the snapshot has them.
/// Nothing is claimed of the list.
pub assume_specification[ System::cpus ](system: &System) -> &[sysinfo::Cpu];

/// The largest capacity of the read buffer: 512 KiB.
pub const BUFFER_LIMIT: u64 = 524288;

/// The smallest batch, and the batch size per processor.
pub const BATCH_UNIT: usize = 1000;

/// The capacity of the read buffer for the memory that is available: a
/// quarter of it, but no more than 512 KiB.
pub open spec fn buffer_capacity_for(available_memory: u64) -> int {
    if available_memory / 4 < BUFFER_LIMIT {
        (available_memory / 4) as int
    } else {
        BUFFER_LIMIT as int
    }
}

/// The batch size for a number of processors: a thousand lines per
/// processor, at least a thousand, and no more than a `usize` holds.
pub open spec fn batch_size_for(cores: usize) -> int {
    if cores * BATCH_UNIT > usize::MAX {
        usize::MAX as int
    } else if cores * BATCH_UNIT < BATCH_UNIT {
        BATCH_UNIT as int
    } else {
        cores * BATCH_UNIT
    }
}

/// The sizing rule: the capacity of the read buffer and the batch size for
/// what was measured.
pub fn plan_resources(available_memory: u64, cores: usize) -> (r: (usize, usize))
    ensures
        r.0 == buffer_capacity_for(available_memory),
        r.1 == batch_size_for(cores),
{
    let quarter = available_memory / 4;
    let buffer_capacity = if quarter < BUFFER_LIMIT {
        quarter as usize
    } else {
        BUFFER_LIMIT as usize
    };
    let batch_size = match cores.checked_mul(BATCH_UNIT) {
        Some(lines) => if lines < BATCH_UNIT {
            BATCH_UNIT
        } else {
            lines
        },
        None => usize::MAX,
    };
    (buffer_capacity, batch_size)
}

/// Measures the machine once and sizes the stage by the rule. Whatever was
/// measured, the buffer has no more than 512 KiB and a batch has no fewer
/// than a thousand lines.
pub fn measure_resources() -> (r: (usize, usize))
    ensures
        exists|available_memory: u64, cores: usize|
            r.0 == buffer_capacity_for(available_memory) && r.1 == batch_size_for(cores),
        r.0 <= BUFFER_LIMIT,
        r.1 >= BATCH_UNIT,
{
    let mut system = System::new_all();
    system.refresh_all();
    let available_memory = system.available_memory();
    let cores = system.cpus().len();
    plan_resources(available_memory, cores)
}

} // verus!
