use vstd::prelude::*;

verus! {

/// Offsets of the command-block registers from a channel's base port.
pub const DATA_REGISTER_OFFSET: u16 = 0;
pub const ERROR_REGISTER_OFFSET: u16 = 1;
pub const FEATURE_REGISTER_OFFSET: u16 = 1;
pub const SECTOR_COUNT_REGISTER_OFFSET: u16 = 2;
pub const LBA_LOW_REGISTER_OFFSET: u16 = 3;
pub const LBA_MID_REGISTER_OFFSET: u16 = 4;
pub const LBA_HIGH_REGISTER_OFFSET: u16 = 5;
pub const DEVICE_REGISTER_OFFSET: u16 = 6;
pub const STATUS_REGISTER_OFFSET: u16 = 7;
pub const COMMAND_REGISTER_OFFSET: u16 = 7;

} // verus!
