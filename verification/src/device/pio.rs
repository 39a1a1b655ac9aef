use vstd::prelude::*;

use crate::device::constant::{
    COMMAND_REGISTER_OFFSET, DATA_REGISTER_OFFSET, DEVICE_REGISTER_OFFSET, ERROR_REGISTER_OFFSET,
    FEATURE_REGISTER_OFFSET, LBA_HIGH_REGISTER_OFFSET, LBA_LOW_REGISTER_OFFSET, LBA_MID_REGISTER_OFFSET,
    SECTOR_COUNT_REGISTER_OFFSET, STATUS_REGISTER_OFFSET,
};

verus! {

/// A port operation for the caller to carry out.
#[derive(Debug, Clone, Copy, PartialEq, Eq, Structural)]
pub enum PortOp {
    /// Write `words` 16-bit words from the buffer to `port`.
    WriteWords { port: u16, words: u32 },
    /// Write one byte to `port`.
    WriteByte { port: u16, value: u8 },
    /// Read `words` 16-bit words from `port` into the buffer.
    ReadWords { port: u16, words: u32 },
    /// Read one byte from `port`.
    ReadByte { port: u16 },
}

/// The error register (read only).
#[derive(Debug, Clone, Copy, PartialEq, Eq, Structural)]
pub struct ErrorRegister {
    pub data: u8,
}

impl ErrorRegister {
    pub fn empty() -> (r: Self)
        ensures
            r.data == 0,
    {
        Self { data: 0 }
    }
}

/// The device register (write only): LBA bits 24..28, drive select, LBA mode.
#[derive(Debug, Clone, Copy, PartialEq, Eq, Structural)]
pub struct DeviceRegister {
    pub data: u8,
}

/// The device register's value: bits 0..4 from `lba`, bit 4 clear for the
/// primary drive, bits 5 and 7 always set, bit 6 set in LBA mode.
pub open spec fn device_register_value(lba: u8, primary: bool, is_lba: bool) -> int {
    (lba % 16) + (if primary { 0int } else { 16int }) + 32 + (if is_lba { 64int } else { 0int }) + 128
}

impl DeviceRegister {
    pub fn new(lba: u8, primary: bool, is_lba: bool) -> (r: Self)
        ensures
            r.data == device_register_value(lba, primary, is_lba),
    {
        let drive: u8 = if primary { 0 } else { 1 };
        let lba_mode: u8 = if is_lba { 1 } else { 0 };
        let data: u8 = (lba & 0b1111) | (drive << 4u8) | (1u8 << 5u8) | (lba_mode << 6u8) | (1u8 << 7u8);
        assert(data == (lba % 16) + drive * 16 + 32 + lba_mode * 64 + 128) by (bit_vector)
            requires
                drive <= 1,
                lba_mode <= 1,
                data == (lba & 0b1111) | (drive << 4u8) | (1u8 << 5u8) | (lba_mode << 6u8) | (1u8 << 7u8),
        ;
        Self { data }
    }
}

/// The bits of the status register.
#[derive(Debug, Clone, Copy, PartialEq, Eq, Structural)]
pub enum StatusRegisterBitEnum {
    /// An error occurred.
    Error,
    /// Index, always zero.
    Idx,
    /// Corrected data, always zero.
    Corr,
    /// Data request: ready to send or take data.
    Drq,
    /// Overlapped mode service request.
    Srv,
    /// Drive fault.
    Df,
    /// Drive ready.
    Rdy,
    /// Drive busy.
    Bsy,
}

impl StatusRegisterBitEnum {
    pub open spec fn spec_index(&self) -> u8 {
        match self {
            StatusRegisterBitEnum::Error => 0,
            StatusRegisterBitEnum::Idx => 1,
            StatusRegisterBitEnum::Corr => 2,
            StatusRegisterBitEnum::Drq => 3,
            StatusRegisterBitEnum::Srv => 4,
            StatusRegisterBitEnum::Df => 5,
            StatusRegisterBitEnum::Rdy => 6,
            StatusRegisterBitEnum::Bsy => 7,
        }
    }

    /// The bit's position in the register.
    pub fn index(&self) -> (i: u8)
        ensures
            i == self.spec_index(),
    {
        match self {
            StatusRegisterBitEnum::Error => 0,
            StatusRegisterBitEnum::Idx => 1,
            StatusRegisterBitEnum::Corr => 2,
            StatusRegisterBitEnum::Drq => 3,
            StatusRegisterBitEnum::Srv => 4,
            StatusRegisterBitEnum::Df => 5,
            StatusRegisterBitEnum::Rdy => 6,
            StatusRegisterBitEnum::Bsy => 7,
        }
    }
}

/// Bit `i` of `data`.
pub open spec fn bit_set(data: u8, i: u8) -> bool {
    ((data as int) / pow2_u8(i)) % 2 == 1
}

pub open spec fn pow2_u8(i: u8) -> int {
    if i == 0 { 1 } else if i == 1 { 2 } else if i == 2 { 4 } else if i == 3 { 8 }
    else if i == 4 { 16 } else if i == 5 { 32 } else if i == 6 { 64 } else { 128 }
}

proof fn lemma_bit_test(data: u8, idx: u8)
    requires
        idx < 8,
    ensures
        ((data & (1u8 << idx)) >> idx == 1u8) == (((data as int) / pow2_u8(idx)) % 2 == 1),
{
    if idx == 0 {
        assert(((data & (1u8 << idx)) >> idx == 1u8) == ((data / 1) % 2 == 1)) by (bit_vector) requires idx == 0u8;
    } else if idx == 1 {
        assert(((data & (1u8 << idx)) >> idx == 1u8) == ((data / 2) % 2 == 1)) by (bit_vector) requires idx == 1u8;
    } else if idx == 2 {
        assert(((data & (1u8 << idx)) >> idx == 1u8) == ((data / 4) % 2 == 1)) by (bit_vector) requires idx == 2u8;
    } else if idx == 3 {
        assert(((data & (1u8 << idx)) >> idx == 1u8) == ((data / 8) % 2 == 1)) by (bit_vector) requires idx == 3u8;
    } else if idx == 4 {
        assert(((data & (1u8 << idx)) >> idx == 1u8) == ((data / 16) % 2 == 1)) by (bit_vector) requires idx == 4u8;
    } else if idx == 5 {
        assert(((data & (1u8 << idx)) >> idx == 1u8) == ((data / 32) % 2 == 1)) by (bit_vector) requires idx == 5u8;
    } else if idx == 6 {
        assert(((data & (1u8 << idx)) >> idx == 1u8) == ((data / 64) % 2 == 1)) by (bit_vector) requires idx == 6u8;
    } else {
        assert(((data & (1u8 << idx)) >> idx == 1u8) == ((data / 128) % 2 == 1)) by (bit_vector) requires idx == 7u8;
    }
}

/// The status register (read only).
#[derive(Debug, Clone, Copy, PartialEq, Eq, Structural)]
pub struct StatusRegister {
    pub data: u8,
}

impl StatusRegister {
    pub fn empty() -> (r: Self)
        ensures
            r.data == 0,
    {
        Self { data: 0 }
    }

    /// The drive is ready to send or take data (bit 3).
    pub fn data_request(&self) -> (r: bool)
        ensures
            r == bit_set(self.data, 3),
    {
        self.is_set(StatusRegisterBitEnum::Drq)
    }

    /// The drive is busy (bit 7).
    pub fn busy(&self) -> (r: bool)
        ensures
            r == bit_set(self.data, 7),
    {
        self.is_set(StatusRegisterBitEnum::Bsy)
    }

    /// Whether the given bit is set.
    pub fn is_set(&self, bit_enum: StatusRegisterBitEnum) -> (r: bool)
        ensures
            r == bit_set(self.data, bit_enum.spec_index()),
    {
        let idx = bit_enum.index();
        let data = self.data;
        let r = (data & (1u8 << idx)) >> idx == 1u8;
        proof { lemma_bit_test(data, idx); }
        r
    }
}

/// The commands this driver sends.
#[derive(Debug, Clone, Copy, PartialEq, Eq, Structural)]
pub enum PIOCommand {
    /// Identify the drive.
    Identify,
    /// Read sectors.
    Read,
    /// Write sectors.
    Write,
    /// Flush the drive's cache.
    Flush,
}

impl PIOCommand {
    pub open spec fn spec_code(&self) -> u8 {
        match self {
            PIOCommand::Identify => 0xEC,
            PIOCommand::Read => 0x20,
            PIOCommand::Write => 0x30,
            PIOCommand::Flush => 0xE7,
        }
    }

    /// The command byte.
    pub fn code(&self) -> (c: u8)
        ensures
            c == self.spec_code(),
    {
        match self {
            PIOCommand::Identify => 0xEC,
            PIOCommand::Read => 0x20,
            PIOCommand::Write => 0x30,
            PIOCommand::Flush => 0xE7,
        }
    }
}

/// The command register (write only).
#[derive(Debug, Clone, Copy, PartialEq, Eq, Structural)]
pub struct CommandRegister {
    pub data: u8,
}

impl CommandRegister {
    pub fn new(command: PIOCommand) -> (r: Self)
        ensures
            r.data == command.spec_code(),
    {
        Self { data: command.code() }
    }
}

/// A command-block register together with what to write to it (or, for the
/// readable ones, what is read from it).
#[derive(Debug, Clone, Copy, PartialEq, Eq, Structural)]
pub enum CommandBlockRegister {
    /// Data register (base + 0): move this many bytes through the buffer.
    Data(u32),
    /// Error register (base + 1), read only.
    Error,
    /// Feature register (base + 1), write only.
    Feature(u8),
    /// Sector count (base + 2).
    SectorCount(u8),
    /// LBA bits 0..8 (base + 3).
    LBALow(u8),
    /// LBA bits 8..16 (base + 4).
    LBAMid(u8),
    /// LBA bits 16..24 (base + 5).
    LBAHigh(u8),
    /// Device register (base + 6).
    Device(DeviceRegister),
    /// Status register (base + 7), read only.
    RegularStatus,
    /// Command register (base + 7), write only.
    Command(CommandRegister),
}

/// The offset from the channel's base port of the port of `register`.
pub open spec fn register_offset(register: CommandBlockRegister) -> int {
    match register {
        CommandBlockRegister::Data(_) => DATA_REGISTER_OFFSET as int,
        CommandBlockRegister::Error => ERROR_REGISTER_OFFSET as int,
        CommandBlockRegister::Feature(_) => FEATURE_REGISTER_OFFSET as int,
        CommandBlockRegister::SectorCount(_) => SECTOR_COUNT_REGISTER_OFFSET as int,
        CommandBlockRegister::LBALow(_) => LBA_LOW_REGISTER_OFFSET as int,
        CommandBlockRegister::LBAMid(_) => LBA_MID_REGISTER_OFFSET as int,
        CommandBlockRegister::LBAHigh(_) => LBA_HIGH_REGISTER_OFFSET as int,
        CommandBlockRegister::Device(_) => DEVICE_REGISTER_OFFSET as int,
        CommandBlockRegister::RegularStatus => STATUS_REGISTER_OFFSET as int,
        CommandBlockRegister::Command(_) => COMMAND_REGISTER_OFFSET as int,
    }
}

/// The port operation that writes `register` on the channel at `port_base`.
pub open spec fn spec_write_op(port_base: u16, register: CommandBlockRegister) -> Option<PortOp> {
    match register {
        CommandBlockRegister::Data(bytes) => Some(PortOp::WriteWords { port: (port_base + DATA_REGISTER_OFFSET) as u16, words: bytes / 2 }),
        CommandBlockRegister::Feature(v) => Some(PortOp::WriteByte { port: (port_base + FEATURE_REGISTER_OFFSET) as u16, value: v }),
        CommandBlockRegister::SectorCount(v) => Some(PortOp::WriteByte { port: (port_base + SECTOR_COUNT_REGISTER_OFFSET) as u16, value: v }),
        CommandBlockRegister::LBALow(v) => Some(PortOp::WriteByte { port: (port_base + LBA_LOW_REGISTER_OFFSET) as u16, value: v }),
        CommandBlockRegister::LBAMid(v) => Some(PortOp::WriteByte { port: (port_base + LBA_MID_REGISTER_OFFSET) as u16, value: v }),
        CommandBlockRegister::LBAHigh(v) => Some(PortOp::WriteByte { port: (port_base + LBA_HIGH_REGISTER_OFFSET) as u16, value: v }),
        CommandBlockRegister::Device(d) => Some(PortOp::WriteByte { port: (port_base + DEVICE_REGISTER_OFFSET) as u16, value: d.data }),
        CommandBlockRegister::Command(c) => Some(PortOp::WriteByte { port: (port_base + COMMAND_REGISTER_OFFSET) as u16, value: c.data }),
        _ => None,
    }
}

/// The port operation that writes `register` on the channel at `port_base`.
/// The error and status registers cannot be written.
pub fn write_to_register(port_base: u16, register: CommandBlockRegister) -> (r: PortOp)
    requires
        port_base + register_offset(register) <= u16::MAX,
        !(register is Error),
        !(register is RegularStatus),
    ensures
        Some(r) == spec_write_op(port_base, register),
{
    match register {
        CommandBlockRegister::Data(bytes) => PortOp::WriteWords { port: DATA_REGISTER_OFFSET + port_base, words: bytes / 2 },
        CommandBlockRegister::Feature(feature) => PortOp::WriteByte { port: FEATURE_REGISTER_OFFSET + port_base, value: feature },
        CommandBlockRegister::SectorCount(cnt) => PortOp::WriteByte { port: SECTOR_COUNT_REGISTER_OFFSET + port_base, value: cnt },
        CommandBlockRegister::LBALow(v) => PortOp::WriteByte { port: LBA_LOW_REGISTER_OFFSET + port_base, value: v },
        CommandBlockRegister::LBAMid(v) => PortOp::WriteByte { port: LBA_MID_REGISTER_OFFSET + port_base, value: v },
        CommandBlockRegister::LBAHigh(v) => PortOp::WriteByte { port: LBA_HIGH_REGISTER_OFFSET + port_base, value: v },
        CommandBlockRegister::Device(device) => PortOp::WriteByte { port: DEVICE_REGISTER_OFFSET + port_base, value: device.data },
        CommandBlockRegister::Command(command) => PortOp::WriteByte { port: COMMAND_REGISTER_OFFSET + port_base, value: command.data },
        CommandBlockRegister::Error => PortOp::ReadByte { port: 0 },
        CommandBlockRegister::RegularStatus => PortOp::ReadByte { port: 0 },
    }
}

/// The port operation that reads `register` on the channel at `port_base`.
/// Only the data, error and status registers can be read.
pub fn read_from_register(port_base: u16, register: CommandBlockRegister) -> (r: PortOp)
    requires
        port_base + register_offset(register) <= u16::MAX,
        register is Data || register is Error || register is RegularStatus,
    ensures
        r == (match register {
            CommandBlockRegister::Data(bytes) => PortOp::ReadWords { port: (port_base + DATA_REGISTER_OFFSET) as u16, words: bytes / 2 },
            CommandBlockRegister::Error => PortOp::ReadByte { port: (port_base + ERROR_REGISTER_OFFSET) as u16 },
            _ => PortOp::ReadByte { port: (port_base + STATUS_REGISTER_OFFSET) as u16 },
        }),
{
    match register {
        CommandBlockRegister::Data(bytes) => PortOp::ReadWords { port: DATA_REGISTER_OFFSET + port_base, words: bytes / 2 },
        CommandBlockRegister::Error => PortOp::ReadByte { port: ERROR_REGISTER_OFFSET + port_base },
        _ => PortOp::ReadByte { port: STATUS_REGISTER_OFFSET + port_base },
    }
}

/// The registers to write, in order, to address `sector_cnt` sectors from
/// `lba` on the primary or secondary drive: LBA low, middle and high bytes,
/// the device register (LBA bits 24..28, LBA mode), then the sector count
/// (truncated to a byte, so 256 is written as 0).
pub fn op_sector_registers(lba: u32, sector_cnt: u16, primary: bool) -> (regs: Vec<CommandBlockRegister>)
    ensures
        regs@.len() == 5,
        regs@[0] == CommandBlockRegister::LBALow((lba % 256) as u8),
        regs@[1] == CommandBlockRegister::LBAMid(((lba / 256) % 256) as u8),
        regs@[2] == CommandBlockRegister::LBAHigh(((lba / 65536) % 256) as u8),
        regs@[3] matches CommandBlockRegister::Device(d) && d.data == device_register_value(((lba / 16777216) % 256) as u8, primary, true),
        regs@[4] == CommandBlockRegister::SectorCount((sector_cnt % 256) as u8),
{
    let low = (lba & 0xff) as u8;
    let mid = ((lba >> 8u32) & 0xff) as u8;
    let high = ((lba >> 16u32) & 0xff) as u8;
    let top = ((lba >> 24u32) & 0xff) as u8;
    let cnt = (sector_cnt & 0xff) as u8;
    assert(low == lba % 256 && mid == (lba / 256) % 256 && high == (lba / 65536) % 256 && top == (lba / 16777216) % 256) by (bit_vector)
        requires
            low == (lba & 0xff) as u8,
            mid == ((lba >> 8u32) & 0xff) as u8,
            high == ((lba >> 16u32) & 0xff) as u8,
            top == ((lba >> 24u32) & 0xff) as u8,
    ;
    assert(cnt == sector_cnt % 256) by (bit_vector)
        requires
            cnt == (sector_cnt & 0xff) as u8,
    ;
    let mut regs: Vec<CommandBlockRegister> = Vec::new();
    regs.push(CommandBlockRegister::LBALow(low));
    regs.push(CommandBlockRegister::LBAMid(mid));
    regs.push(CommandBlockRegister::LBAHigh(high));
    regs.push(CommandBlockRegister::Device(DeviceRegister::new(top, primary, true)));
    regs.push(CommandBlockRegister::SectorCount(cnt));
    regs
}

/// The status register's bits, from bit 0 to bit 7: error, index,
/// corrected data, data request, service, drive fault, ready, busy.
pub open spec fn status_bits() -> Seq<StatusRegisterBitEnum> {
    seq![
        StatusRegisterBitEnum::Error,
        StatusRegisterBitEnum::Idx,
        StatusRegisterBitEnum::Corr,
        StatusRegisterBitEnum::Drq,
        StatusRegisterBitEnum::Srv,
        StatusRegisterBitEnum::Df,
        StatusRegisterBitEnum::Rdy,
        StatusRegisterBitEnum::Bsy,
    ]
}

/// Each status bit sits at its own position; the ATA command bytes are
/// IDENTIFY DEVICE 0xEC, READ SECTORS 0x20, WRITE SECTORS 0x30 and FLUSH
/// CACHE 0xE7.
pub proof fn lemma_ata_codes()
    ensures
        forall|i: int| 0 <= i < 8 ==> #[trigger] status_bits()[i].spec_index() == i,
        PIOCommand::Identify.spec_code() == 0xEC,
        PIOCommand::Read.spec_code() == 0x20,
        PIOCommand::Write.spec_code() == 0x30,
        PIOCommand::Flush.spec_code() == 0xE7,
{
    assert forall|i: int| 0 <= i < 8 implies #[trigger] status_bits()[i].spec_index() == i by {
        assert(i == 0 || i == 1 || i == 2 || i == 3 || i == 4 || i == 5 || i == 6 || i == 7);
    }
}

/// The command-block registers sit at the offsets of the ATA task file:
/// data 0, error and feature 1, sector count 2, LBA low, middle and high
/// 3 to 5, device 6, status and command 7.
pub proof fn lemma_register_offsets(v: u8, d: DeviceRegister, c: CommandRegister, n: u32)
    ensures
        register_offset(CommandBlockRegister::Data(n)) == 0,
        register_offset(CommandBlockRegister::Error) == 1,
        register_offset(CommandBlockRegister::Feature(v)) == 1,
        register_offset(CommandBlockRegister::SectorCount(v)) == 2,
        register_offset(CommandBlockRegister::LBALow(v)) == 3,
        register_offset(CommandBlockRegister::LBAMid(v)) == 4,
        register_offset(CommandBlockRegister::LBAHigh(v)) == 5,
        register_offset(CommandBlockRegister::Device(d)) == 6,
        register_offset(CommandBlockRegister::RegularStatus) == 7,
        register_offset(CommandBlockRegister::Command(c)) == 7,
{
}

} // verus!
