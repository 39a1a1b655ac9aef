//! The command sequence of a drive transfer, one step at a time: the caller
//! carries out each action on the ports (and waits where told to) and
//! reports back what happened.

use vstd::prelude::*;

use crate::device::constant::{DATA_REGISTER_OFFSET, STATUS_REGISTER_OFFSET};
use crate::device::pio::{
    CommandBlockRegister, CommandRegister, DeviceRegister, PIOCommand, PortOp, StatusRegister, bit_set,
    device_register_value, op_sector_registers, spec_write_op, write_to_register,
};

verus! {

/// Bytes of a sector.
pub const SECTOR_BYTES: usize = 512;

/// What a transfer does with the drive.
#[derive(Debug, Clone, Copy, PartialEq, Eq, Structural)]
pub enum TransferKind {
    /// Ask the drive to describe itself: one sector of data comes back.
    Identify,
    /// Read sectors into the buffer.
    Read,
    /// Write sectors from the buffer.
    Write,
}

/// Where a transfer stands.
#[derive(Debug, Clone, Copy, PartialEq, Eq, Structural)]
pub enum TransferPhase {
    /// The registers of the current sector were handed out to be written.
    Sent,
    /// Waiting for the channel's interrupt.
    AwaitInterrupt,
    /// Reading the status until the drive is not busy.
    AwaitStatus,
    /// The current sector is moving through the data register.
    Moving,
    /// Every sector has moved.
    Done,
    /// The drive was not ready for data.
    Failed,
}

/// What the caller reports after carrying out the last action.
#[derive(Debug, Clone, Copy, PartialEq, Eq, Structural)]
pub enum TransferEvent {
    /// The action was carried out.
    Performed,
    /// The channel's interrupt came.
    Interrupt,
    /// The status register read this.
    Status(StatusRegister),
}

/// What the caller is to do next.
#[derive(Debug, Clone, PartialEq, Eq)]
pub enum TransferAction {
    /// Carry out these port writes, in order.
    Send(Vec<PortOp>),
    /// Wait for the channel's interrupt.
    WaitInterrupt,
    /// Carry out this read of the status register.
    ReadStatus(PortOp),
    /// Move one sector between the data register and the buffer, at byte
    /// `offset` of the buffer.
    MoveSector { op: PortOp, offset: usize },
    /// The transfer is complete.
    Finish,
    /// The drive is not ready for data: the transfer cannot go on.
    Fail,
    /// The event does not fit where the transfer stands: nothing to do.
    Ignore,
}

/// A transfer of `sec_cnt` sectors from `lba_start` on the drive of the
/// channel at `port_base`, one sector at a time, of which `done` have
/// moved; the buffer holds `buf_len` bytes.
#[derive(Debug, Clone, Copy, PartialEq, Eq, Structural)]
pub struct SectorTransfer {
    pub kind: TransferKind,
    pub port_base: u16,
    pub primary: bool,
    pub lba_start: u32,
    pub sec_cnt: u32,
    pub buf_len: usize,
    pub done: u32,
    pub phase: TransferPhase,
}

/// The registers written to start the command for the sector at `lba`: for
/// a read or a write, the sector's address (LBA mode, one sector) and then
/// the command; to identify, the drive select and then the command.
pub open spec fn issue_registers(kind: TransferKind, lba: int, primary: bool) -> Seq<CommandBlockRegister> {
    match kind {
        TransferKind::Identify => seq![
            CommandBlockRegister::Device(DeviceRegister { data: device_register_value(0, primary, true) as u8 }),
            CommandBlockRegister::Command(CommandRegister { data: PIOCommand::Identify.spec_code() }),
        ],
        _ => seq![
            CommandBlockRegister::LBALow((lba % 256) as u8),
            CommandBlockRegister::LBAMid(((lba / 256) % 256) as u8),
            CommandBlockRegister::LBAHigh(((lba / 65536) % 256) as u8),
            CommandBlockRegister::Device(
                DeviceRegister { data: device_register_value(((lba / 16777216) % 256) as u8, primary, true) as u8 },
            ),
            CommandBlockRegister::SectorCount(1),
            CommandBlockRegister::Command(
                CommandRegister {
                    data: if kind is Read {
                        PIOCommand::Read.spec_code()
                    } else {
                        PIOCommand::Write.spec_code()
                    },
                },
            ),
        ],
    }
}

/// `ops` are the port writes of `regs` on the channel at `port_base`.
pub open spec fn sends(ops: Seq<PortOp>, port_base: u16, regs: Seq<CommandBlockRegister>) -> bool {
    &&& ops.len() == regs.len()
    &&& forall|i: int| 0 <= i < regs.len() ==> spec_write_op(port_base, #[trigger] regs[i]) == Some(ops[i])
}

/// The read of the status register of the channel at `port_base`.
pub open spec fn status_op(port_base: u16) -> PortOp {
    PortOp::ReadByte { port: (port_base + STATUS_REGISTER_OFFSET) as u16 }
}

/// The move of one sector through the data register, for `kind`.
pub open spec fn sector_op(kind: TransferKind, port_base: u16) -> PortOp {
    if kind is Write {
        PortOp::WriteWords { port: (port_base + DATA_REGISTER_OFFSET) as u16, words: 256 }
    } else {
        PortOp::ReadWords { port: (port_base + DATA_REGISTER_OFFSET) as u16, words: 256 }
    }
}

impl SectorTransfer {
    /// The bounds a transfer keeps: the registers' ports exist, the sectors
    /// have 32-bit addresses, the buffer holds them all, and the phase
    /// fits the count of sectors moved.
    pub open spec fn wf(&self) -> bool {
        &&& self.port_base + 7 <= u16::MAX
        &&& self.lba_start + self.sec_cnt <= u32::MAX + 1
        &&& self.sec_cnt * SECTOR_BYTES <= self.buf_len
        &&& self.kind is Identify ==> self.sec_cnt == 1
        &&& self.done <= self.sec_cnt
        &&& (self.phase is Done) == (self.done == self.sec_cnt)
    }

    /// The transfer once the current sector is complete: on to the next
    /// sector, or done after the last.
    pub open spec fn advanced(self) -> Self {
        SectorTransfer {
            done: (self.done + 1) as u32,
            phase: if self.done + 1 == self.sec_cnt {
                TransferPhase::Done
            } else {
                TransferPhase::Sent
            },
            ..self
        }
    }

    /// Where the transfer stands after the event `e`.
    pub open spec fn after(self, e: TransferEvent) -> Self {
        match (self.phase, e) {
            (TransferPhase::Sent, TransferEvent::Performed) => SectorTransfer {
                phase: if self.kind is Write {
                    TransferPhase::AwaitStatus
                } else {
                    TransferPhase::AwaitInterrupt
                },
                ..self
            },
            (TransferPhase::AwaitInterrupt, TransferEvent::Interrupt) => if self.kind is Write {
                self.advanced()
            } else {
                SectorTransfer { phase: TransferPhase::AwaitStatus, ..self }
            },
            (TransferPhase::AwaitStatus, TransferEvent::Status(s)) => if bit_set(s.data, 7) {
                self
            } else if bit_set(s.data, 3) {
                SectorTransfer { phase: TransferPhase::Moving, ..self }
            } else {
                SectorTransfer { phase: TransferPhase::Failed, ..self }
            },
            (TransferPhase::Moving, TransferEvent::Performed) => if self.kind is Write {
                SectorTransfer { phase: TransferPhase::AwaitInterrupt, ..self }
            } else {
                self.advanced()
            },
            _ => self,
        }
    }

    /// `a` is what follows the completion of the current sector: the
    /// command of the next one, or the end.
    pub open spec fn next_sector_action(self, a: TransferAction) -> bool {
        if self.done + 1 == self.sec_cnt {
            a is Finish
        } else {
            a matches TransferAction::Send(ops) && sends(
                ops@,
                self.port_base,
                issue_registers(self.kind, self.lba_start + self.done + 1, self.primary),
            )
        }
    }

    /// `a` is the action that answers the event `e`: a read waits for the
    /// interrupt, then for the status, then takes the sector's data; a
    /// write waits for the status, hands over the data, then waits for
    /// the interrupt; a drive that is not busy and asks for no data fails
    /// the transfer.
    pub open spec fn answers(self, e: TransferEvent, a: TransferAction) -> bool {
        match (self.phase, e) {
            (TransferPhase::Sent, TransferEvent::Performed) => if self.kind is Write {
                a == TransferAction::ReadStatus(status_op(self.port_base))
            } else {
                a is WaitInterrupt
            },
            (TransferPhase::AwaitInterrupt, TransferEvent::Interrupt) => if self.kind is Write {
                self.next_sector_action(a)
            } else {
                a == TransferAction::ReadStatus(status_op(self.port_base))
            },
            (TransferPhase::AwaitStatus, TransferEvent::Status(s)) => if bit_set(s.data, 7) {
                a == TransferAction::ReadStatus(status_op(self.port_base))
            } else if bit_set(s.data, 3) {
                a == (TransferAction::MoveSector {
                    op: sector_op(self.kind, self.port_base),
                    offset: (self.done * SECTOR_BYTES) as usize,
                })
            } else {
                a is Fail
            },
            (TransferPhase::Moving, TransferEvent::Performed) => if self.kind is Write {
                a is WaitInterrupt
            } else {
                self.next_sector_action(a)
            },
            _ => a is Ignore,
        }
    }

    /// Starts a transfer: the command of the first sector, or, with no
    /// sectors, the end at once.
    pub fn begin(
        kind: TransferKind,
        port_base: u16,
        primary: bool,
        lba_start: u32,
        sec_cnt: u32,
        buf_len: usize,
    ) -> (r: (Self, TransferAction))
        requires
            port_base + 7 <= u16::MAX,
            lba_start + sec_cnt <= u32::MAX + 1,
            sec_cnt * SECTOR_BYTES <= buf_len,
            kind is Identify ==> sec_cnt == 1,
        ensures
            r.0.wf(),
            r.0.kind == kind && r.0.port_base == port_base && r.0.primary == primary,
            r.0.lba_start == lba_start && r.0.sec_cnt == sec_cnt && r.0.buf_len == buf_len,
            r.0.done == 0,
            sec_cnt == 0 ==> r.0.phase is Done && r.1 is Finish,
            sec_cnt > 0 ==> r.0.phase is Sent && (r.1 matches TransferAction::Send(ops) && sends(
                ops@,
                port_base,
                issue_registers(kind, lba_start as int, primary),
            )),
    {
        if sec_cnt == 0 {
            let t = SectorTransfer {
                kind,
                port_base,
                primary,
                lba_start,
                sec_cnt,
                buf_len,
                done: 0,
                phase: TransferPhase::Done,
            };
            return (t, TransferAction::Finish);
        }
        let ops = issue_ops(kind, port_base, lba_start, primary);
        let t = SectorTransfer { kind, port_base, primary, lba_start, sec_cnt, buf_len, done: 0, phase: TransferPhase::Sent };
        (t, TransferAction::Send(ops))
    }

    /// The sector just completed: moves on to the next one or ends.
    fn advance(&mut self) -> (a: TransferAction)
        requires
            old(self).wf(),
            old(self).done < old(self).sec_cnt,
        ensures
            *final(self) == old(self).advanced(),
            old(self).next_sector_action(a),
    {
        self.done = self.done + 1;
        if self.done == self.sec_cnt {
            self.phase = TransferPhase::Done;
            TransferAction::Finish
        } else {
            self.phase = TransferPhase::Sent;
            TransferAction::Send(issue_ops(self.kind, self.port_base, self.lba_start + self.done, self.primary))
        }
    }

    /// Takes the event `e` and gives the next action (see `answers` and
    /// `after`).
    pub fn step(&mut self, e: TransferEvent) -> (a: TransferAction)
        requires
            old(self).wf(),
        ensures
            final(self).wf(),
            *final(self) == old(self).after(e),
            old(self).answers(e, a),
            a is MoveSector ==> a->offset + SECTOR_BYTES <= old(self).buf_len,
    {
        let status_read = PortOp::ReadByte { port: self.port_base + STATUS_REGISTER_OFFSET };
        match (self.phase, e) {
            (TransferPhase::Sent, TransferEvent::Performed) => {
                if self.kind == TransferKind::Write {
                    self.phase = TransferPhase::AwaitStatus;
                    TransferAction::ReadStatus(status_read)
                } else {
                    self.phase = TransferPhase::AwaitInterrupt;
                    TransferAction::WaitInterrupt
                }
            },
            (TransferPhase::AwaitInterrupt, TransferEvent::Interrupt) => {
                if self.kind == TransferKind::Write {
                    self.advance()
                } else {
                    self.phase = TransferPhase::AwaitStatus;
                    TransferAction::ReadStatus(status_read)
                }
            },
            (TransferPhase::AwaitStatus, TransferEvent::Status(s)) => {
                if s.busy() {
                    TransferAction::ReadStatus(status_read)
                } else if s.data_request() {
                    self.phase = TransferPhase::Moving;
                    let port = self.port_base + DATA_REGISTER_OFFSET;
                    let op = if self.kind == TransferKind::Write {
                        PortOp::WriteWords { port, words: 256 }
                    } else {
                        PortOp::ReadWords { port, words: 256 }
                    };
                    proof {
                        assert((self.done + 1) * SECTOR_BYTES <= self.sec_cnt * SECTOR_BYTES) by (nonlinear_arith)
                            requires
                                self.done < self.sec_cnt,
                        ;
                    }
                    TransferAction::MoveSector { op, offset: self.done as usize * SECTOR_BYTES }
                } else {
                    self.phase = TransferPhase::Failed;
                    TransferAction::Fail
                }
            },
            (TransferPhase::Moving, TransferEvent::Performed) => {
                if self.kind == TransferKind::Write {
                    self.phase = TransferPhase::AwaitInterrupt;
                    TransferAction::WaitInterrupt
                } else {
                    self.advance()
                }
            },
            _ => TransferAction::Ignore,
        }
    }
}

/// The port writes that start the command for the sector at `lba`.
fn issue_ops(kind: TransferKind, port_base: u16, lba: u32, primary: bool) -> (ops: Vec<PortOp>)
    requires
        port_base + 7 <= u16::MAX,
    ensures
        sends(ops@, port_base, issue_registers(kind, lba as int, primary)),
{
    let regs: Vec<CommandBlockRegister> = match kind {
        TransferKind::Identify => {
            let mut r: Vec<CommandBlockRegister> = Vec::new();
            r.push(CommandBlockRegister::Device(DeviceRegister::new(0, primary, true)));
            r.push(CommandBlockRegister::Command(CommandRegister::new(PIOCommand::Identify)));
            r
        },
        _ => {
            let mut r = op_sector_registers(lba, 1, primary);
            let cmd = if kind == TransferKind::Read {
                PIOCommand::Read
            } else {
                PIOCommand::Write
            };
            r.push(CommandBlockRegister::Command(CommandRegister::new(cmd)));
            r
        },
    };
    let ghost want = issue_registers(kind, lba as int, primary);
    proof {
        assert(regs@ =~= want);
    }
    let mut ops: Vec<PortOp> = Vec::new();
    let mut i: usize = 0;
    while i < regs.len()
        invariant
            port_base + 7 <= u16::MAX,
            regs@ == want,
            i <= regs@.len(),
            ops@.len() == i,
            forall|j: int| 0 <= j < i ==> spec_write_op(port_base, #[trigger] want[j]) == Some(ops@[j]),
            forall|j: int|
                0 <= j < want.len() ==> !(#[trigger] want[j] is Error) && !(want[j] is RegularStatus)
                    && crate::device::pio::register_offset(want[j]) <= 7,
        decreases regs@.len() - i,
    {
        let op = write_to_register(port_base, regs[i]);
        ops.push(op);
        i = i + 1;
    }
    ops
}

} // verus!
