use vstd::prelude::*;

use crate::device::pio::{StatusRegister, bit_set};
use crate::sync::{Lock, Semaphore};

verus! {

/// Number of ATA channels the machine offers.
pub const ATA_CHANNEL_CNT: usize = 2;
/// Number of drives on one channel.
pub const DISK_CNT_PER_CHANNEL: usize = 2;
/// Bytes kept of a channel's name.
pub const IDE_CHANNEL_NAME_LEN: usize = 8;
/// Bytes kept of a disk's name.
pub const DISK_NAME_LEN: usize = 8;
/// First interrupt number the PIC delivers.
pub const INTERRUPT_NO_START: u8 = 0x20;

/// The base port of a channel.
#[derive(Debug, Clone, Copy, PartialEq, Eq, Structural)]
pub enum ChannelPortBaseEnum {
    /// Port 0x1f0.
    Primary,
    /// Port 0x170.
    Secondary,
}

impl ChannelPortBaseEnum {
    pub open spec fn spec_port(&self) -> u16 {
        match self {
            ChannelPortBaseEnum::Primary => 0x1f0,
            ChannelPortBaseEnum::Secondary => 0x170,
        }
    }

    pub fn port(&self) -> (p: u16)
        ensures
            p == self.spec_port(),
    {
        match self {
            ChannelPortBaseEnum::Primary => 0x1f0,
            ChannelPortBaseEnum::Secondary => 0x170,
        }
    }
}

/// The interrupt a channel raises: lines 14 and 15 of the PICs.
#[derive(Debug, Clone, Copy, PartialEq, Eq, Structural)]
pub enum ChannelIrqNoEnum {
    Primary,
    Secondary,
}

impl ChannelIrqNoEnum {
    pub open spec fn spec_irq(&self) -> u8 {
        match self {
            ChannelIrqNoEnum::Primary => (INTERRUPT_NO_START + 14) as u8,
            ChannelIrqNoEnum::Secondary => (INTERRUPT_NO_START + 15) as u8,
        }
    }

    pub fn irq(&self) -> (i: u8)
        ensures
            i == self.spec_irq(),
    {
        match self {
            ChannelIrqNoEnum::Primary => INTERRUPT_NO_START + 14,
            ChannelIrqNoEnum::Secondary => INTERRUPT_NO_START + 15,
        }
    }
}

/// The primary ATA channel interrupts on line 14 of the cascaded PICs and
/// the secondary on line 15, the lines numbered from `INTERRUPT_NO_START`:
/// the two channels have different interrupt numbers.
pub proof fn lemma_channel_irq_lines(c: ChannelIrqNoEnum)
    ensures
        c is Primary ==> c.spec_irq() - INTERRUPT_NO_START == 14,
        c is Secondary ==> c.spec_irq() - INTERRUPT_NO_START == 15,
        ChannelIrqNoEnum::Primary.spec_irq() != ChannelIrqNoEnum::Secondary.spec_irq(),
{
}

/// The primary channel's registers start at port 0x1F0 and the secondary's
/// at 0x170.
pub proof fn lemma_channel_ports(p: ChannelPortBaseEnum)
    ensures
        p is Primary ==> p.spec_port() == 0x1f0,
        p is Secondary ==> p.spec_port() == 0x170,
{
}

/// An ATA channel: its base port, interrupt, whether it waits for an
/// interrupt, the lock that serialises its drives and the semaphore its
/// drives wait on.
pub struct ATAChannel {
    pub name: Vec<u8>,
    pub port_base: u16,
    pub irq_no: u8,
    pub expecting_intr: bool,
    pub lock: Lock,
    pub disk_done: Semaphore,
}

impl ATAChannel {
    /// A channel named by the first `IDE_CHANNEL_NAME_LEN` bytes of `name`.
    pub fn new(name: &[u8], port_base: ChannelPortBaseEnum, irq_no: ChannelIrqNoEnum) -> (c: Self)
        requires
            name@.len() >= IDE_CHANNEL_NAME_LEN,
        ensures
            c.name@ == name@.subrange(0, IDE_CHANNEL_NAME_LEN as int),
            c.port_base == port_base.spec_port(),
            c.irq_no == irq_no.spec_irq(),
            !c.expecting_intr,
            !c.lock.locked,
            c.disk_done.value == 0,
    {
        let mut name_buf: Vec<u8> = Vec::new();
        let mut i: usize = 0;
        while i < IDE_CHANNEL_NAME_LEN
            invariant
                i <= IDE_CHANNEL_NAME_LEN,
                IDE_CHANNEL_NAME_LEN <= name@.len(),
                name_buf@ == name@.subrange(0, i as int),
            decreases IDE_CHANNEL_NAME_LEN - i,
        {
            name_buf.push(name[i]);
            assert(name_buf@ =~= name@.subrange(0, i + 1));
            i = i + 1;
        }
        ATAChannel {
            name: name_buf,
            port_base: port_base.port(),
            irq_no: irq_no.irq(),
            expecting_intr: false,
            lock: Lock::new(),
            disk_done: Semaphore::new(0),
        }
    }

    /// The channel's interrupt arrived. When the channel was waiting for it,
    /// stop waiting, wake the drive and return `true` (the caller then reads
    /// the status register); otherwise the interrupt is ignored.
    pub fn channel_ready(&mut self) -> (handled: bool)
        requires
            old(self).disk_done.value < u32::MAX,
        ensures
            handled == old(self).expecting_intr,
            !final(self).expecting_intr,
            final(self).disk_done.value == (if handled { old(self).disk_done.value + 1 } else { old(self).disk_done.value as int }),
            final(self).port_base == old(self).port_base,
            final(self).irq_no == old(self).irq_no,
            final(self).name == old(self).name,
            final(self).lock == old(self).lock,
    {
        if !self.expecting_intr {
            return false;
        }
        self.expecting_intr = false;
        self.disk_done.up();
        true
    }

    /// The channel's registers are at fixed offsets from its base port.
    pub fn data_register_port(&self) -> (p: u16)
        requires
            self.port_base + 0x206 <= u16::MAX,
        ensures
            p == self.port_base,
    {
        self.port_base
    }

    pub fn error_register_port(&self) -> (p: u16)
        requires
            self.port_base + 0x206 <= u16::MAX,
        ensures
            p == self.port_base + 1,
    {
        self.port_base + 1
    }

    pub fn sec_cnt_port(&self) -> (p: u16)
        requires
            self.port_base + 0x206 <= u16::MAX,
        ensures
            p == self.port_base + 2,
    {
        self.port_base + 2
    }

    pub fn lba_low_port(&self) -> (p: u16)
        requires
            self.port_base + 0x206 <= u16::MAX,
        ensures
            p == self.port_base + 3,
    {
        self.port_base + 3
    }

    pub fn lba_middle_port(&self) -> (p: u16)
        requires
            self.port_base + 0x206 <= u16::MAX,
        ensures
            p == self.port_base + 4,
    {
        self.port_base + 4
    }

    pub fn lba_hight_port(&self) -> (p: u16)
        requires
            self.port_base + 0x206 <= u16::MAX,
        ensures
            p == self.port_base + 5,
    {
        self.port_base + 5
    }

    pub fn dev_register_port(&self) -> (p: u16)
        requires
            self.port_base + 0x206 <= u16::MAX,
        ensures
            p == self.port_base + 6,
    {
        self.port_base + 6
    }

    pub fn status_register_port(&self) -> (p: u16)
        requires
            self.port_base + 0x206 <= u16::MAX,
        ensures
            p == self.port_base + 7,
    {
        self.port_base + 7
    }

    /// The command register shares its port with the status register.
    pub fn command_register_port(&self) -> (p: u16)
        requires
            self.port_base + 0x206 <= u16::MAX,
        ensures
            p == self.port_base + 7,
    {
        self.status_register_port()
    }

    pub fn alt_status_register_port(&self) -> (p: u16)
        requires
            self.port_base + 0x206 <= u16::MAX,
        ensures
            p == self.port_base + 0x206,
    {
        self.port_base + 0x206
    }

    /// The control register shares its port with the alternate status register.
    pub fn alt_ctrl_register_port(&self) -> (p: u16)
        requires
            self.port_base + 0x206 <= u16::MAX,
        ensures
            p == self.port_base + 0x206,
    {
        self.alt_status_register_port()
    }
}

/// One step of waiting for a drive: `None` while the status says busy (read
/// the status again), otherwise whether the drive requests data.
pub fn ready_for_read(status: StatusRegister) -> (r: Option<bool>)
    ensures
        bit_set(status.data, 7) ==> r == None::<bool>,
        !bit_set(status.data, 7) ==> r == Some(bit_set(status.data, 3)),
{
    if !status.busy() {
        if status.data_request() {
            return Some(true);
        }
        return Some(false);
    }
    None
}

/// How `ata_init` sets up one channel.
#[derive(Debug, Clone, Copy, PartialEq, Eq, Structural)]
pub struct ChannelConfig {
    pub port_base: ChannelPortBaseEnum,
    pub irq_no: ChannelIrqNoEnum,
    /// The letter (`'a'`, `'b'`, ...) in the name of the channel's first drive.
    pub first_disk_letter: u8,
    /// The letter in the name of the channel's second drive.
    pub second_disk_letter: u8,
}

/// The channel set-up for `disk_cnt` drives: one channel per two drives
/// (rounded up), the first on the primary ports and interrupt, any other on
/// the secondary ones, and drives lettered from `'a'` in order.
pub fn ata_init(disk_cnt: u8) -> (configs: Vec<ChannelConfig>)
    requires
        0 < disk_cnt <= 4,
    ensures
        configs@.len() == (disk_cnt as int + 1) / 2,
        forall|i: int| 0 <= i < configs@.len() ==> #[trigger] configs@[i] == (ChannelConfig {
            port_base: if i == 0 { ChannelPortBaseEnum::Primary } else { ChannelPortBaseEnum::Secondary },
            irq_no: if i == 0 { ChannelIrqNoEnum::Primary } else { ChannelIrqNoEnum::Secondary },
            first_disk_letter: (0x61 + 2 * i) as u8,
            second_disk_letter: (0x61 + 2 * i + 1) as u8,
        }),
{
    let channel_cnt = ((disk_cnt as usize) + 1) / 2;
    let mut configs: Vec<ChannelConfig> = Vec::new();
    let mut disk_start: u8 = 0;
    let mut channel_idx: usize = 0;
    while channel_idx < channel_cnt
        invariant
            channel_cnt == (disk_cnt as int + 1) / 2,
            channel_cnt <= 2,
            channel_idx <= channel_cnt,
            disk_start == 2 * channel_idx,
            configs@.len() == channel_idx,
            forall|i: int| 0 <= i < channel_idx ==> #[trigger] configs@[i] == (ChannelConfig {
                port_base: if i == 0 { ChannelPortBaseEnum::Primary } else { ChannelPortBaseEnum::Secondary },
                irq_no: if i == 0 { ChannelIrqNoEnum::Primary } else { ChannelIrqNoEnum::Secondary },
                first_disk_letter: (0x61 + 2 * i) as u8,
            second_disk_letter: (0x61 + 2 * i + 1) as u8,
            }),
        decreases channel_cnt - channel_idx,
    {
        let (port_base, irq_no) = if channel_idx == 0 {
            (ChannelPortBaseEnum::Primary, ChannelIrqNoEnum::Primary)
        } else {
            (ChannelPortBaseEnum::Secondary, ChannelIrqNoEnum::Secondary)
        };
        let first = 0x61u8 + disk_start;
        disk_start = disk_start + 1;
        let second = 0x61u8 + disk_start;
        disk_start = disk_start + 1;
        configs.push(ChannelConfig { port_base, irq_no, first_disk_letter: first, second_disk_letter: second });
        channel_idx = channel_idx + 1;
    }
    configs
}

/// What the identify command reports, taken from the 512-byte answer.
#[derive(Debug)]
pub struct DiskIdentifyContent {
    /// Serial number, bytes 20..40.
    pub sn: Vec<u8>,
    /// Model, bytes 54..94.
    pub module: Vec<u8>,
    /// Number of addressable sectors, bytes 120..124 (little endian).
    pub sec_cnt: u32,
}

/// The little-endian `u32` at `off` in `b`.
pub open spec fn le_u32(b: Seq<u8>, off: int) -> int {
    b[off] + 256 * b[off + 1] + 65536 * b[off + 2] + 16777216 * b[off + 3]
}

/// Reads the little-endian `u32` at `off` in `b`.
pub fn read_le_u32(b: &[u8], off: usize) -> (v: u32)
    requires
        off + 4 <= b@.len(),
    ensures
        v == le_u32(b@, off as int),
{
    (b[off] as u32) + 256 * (b[off + 1] as u32) + 65536 * (b[off + 2] as u32) + 16777216 * (b[off + 3] as u32)
}

/// The bytes `start .. start + len` of `b`, copied.
pub fn copy_bytes(b: &[u8], start: usize, len: usize) -> (out: Vec<u8>)
    requires
        start + len <= b@.len(),
    ensures
        out@ == b@.subrange(start as int, start + len),
{
    let mut out: Vec<u8> = Vec::new();
    let mut i: usize = 0;
    let n = b.len();
    while i < len
        invariant
            n == b@.len(),
            i <= len,
            start + len <= b@.len(),
            out@ == b@.subrange(start as int, start + i),
        decreases len - i,
    {
        out.push(b[start + i]);
        assert(out@ =~= b@.subrange(start as int, start + i + 1));
        i = i + 1;
    }
    out
}

impl DiskIdentifyContent {
    /// Reads the identify answer `buf` (at least 124 bytes).
    pub fn parse(buf: &[u8]) -> (c: Self)
        requires
            buf@.len() >= 124,
        ensures
            c.sn@ == buf@.subrange(20, 40),
            c.module@ == buf@.subrange(54, 94),
            c.sec_cnt == le_u32(buf@, 120),
    {
        DiskIdentifyContent {
            sn: copy_bytes(buf, 20, 20),
            module: copy_bytes(buf, 54, 40),
            sec_cnt: read_le_u32(buf, 120),
        }
    }
}

} // verus!
