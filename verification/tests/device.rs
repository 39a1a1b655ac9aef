use lib::device::ata::{
    ata_init, copy_bytes, read_le_u32, ready_for_read, ATAChannel, ChannelIrqNoEnum, ChannelPortBaseEnum, DiskIdentifyContent,
};
use lib::device::drive::{main_part_init, BootSector, ExtendedScan, PartitionInfo, PartitionTableEntry, PendingEbr};
use lib::device::init::install_filesystem_for_all_part;
use lib::device::pio::{
    op_sector_registers, read_from_register, write_to_register, CommandBlockRegister, CommandRegister, DeviceRegister,
    PIOCommand, PortOp, StatusRegister,
};
use lib::device::transfer::{SectorTransfer, TransferAction, TransferEvent, TransferKind, TransferPhase};
use lib::filesystem::inode::{locate_inode, InodeLocation};
use lib::filesystem::superblock::SuperBlock;
use lib::filesystem::constant::{div_ceil, FILESYSTEM_MAGIC};

fn entry(part_type: u8, start_lba: u32, sec_cnt: u32) -> PartitionTableEntry {
    PartitionTableEntry {
        boot_indicator: 0,
        starting_head: 0,
        starting_sector: 0,
        starting_cylinder: 0,
        part_type,
        ending_head: 0,
        ending_sector: 0,
        ending_cylinder: 0,
        start_lba,
        sec_cnt,
    }
}

#[test]
fn channel_ports_and_interrupts() {
    let mut c = ATAChannel::new(b"ide0\0\0\0\0xyz", ChannelPortBaseEnum::Secondary, ChannelIrqNoEnum::Secondary);
    assert_eq!(c.name, b"ide0\0\0\0\0".to_vec());
    assert_eq!(c.port_base, 0x170);
    assert_eq!(c.irq_no, 0x2f);
    assert_eq!(c.status_register_port(), 0x177);
    assert_eq!(c.alt_status_register_port(), 0x376);
    assert!(!c.channel_ready());
    c.expecting_intr = true;
    assert!(c.channel_ready());
    assert_eq!(c.disk_done.value, 1);
    assert!(!c.expecting_intr);
}

#[test]
fn ata_init_letters_drives() {
    let cfg = ata_init(3);
    assert_eq!(cfg.len(), 2);
    assert_eq!(cfg[0].port_base, ChannelPortBaseEnum::Primary);
    assert_eq!(cfg[0].first_disk_letter, b'a');
    assert_eq!(cfg[1].irq_no, ChannelIrqNoEnum::Secondary);
    assert_eq!(cfg[1].second_disk_letter, b'd');
    assert_eq!(ata_init(1).len(), 1);
}

#[test]
fn status_register_bits() {
    assert_eq!(ready_for_read(StatusRegister { data: 0x80 }), None);
    assert_eq!(ready_for_read(StatusRegister { data: 0x08 }), Some(true));
    assert_eq!(ready_for_read(StatusRegister { data: 0x40 }), Some(false));
    assert!(StatusRegister { data: 0x88 }.busy());
}

#[test]
fn identify_answer_fields() {
    let mut buf = vec![0u8; 512];
    for i in 20..40 {
        buf[i] = b'S';
    }
    buf[54] = b'M';
    buf[120] = 0x10;
    buf[121] = 0x27;
    let id = DiskIdentifyContent::parse(&buf);
    assert_eq!(id.sn, vec![b'S'; 20]);
    assert_eq!(id.module.len(), 40);
    assert_eq!(id.module[0], b'M');
    assert_eq!(id.sec_cnt, 10000);
    assert_eq!(read_le_u32(&[1, 2, 3, 4], 0), 0x04030201);
    assert_eq!(copy_bytes(b"hello", 1, 3), b"ell".to_vec());
}

#[test]
fn register_writes() {
    let d = DeviceRegister::new(0x1f, false, true);
    assert_eq!(d.data, 0xff);
    assert_eq!(DeviceRegister::new(0x3, true, true).data, 0xe3);
    assert_eq!(CommandRegister::new(PIOCommand::Identify).data, 0xec);
    assert_eq!(write_to_register(0x1f0, CommandBlockRegister::SectorCount(4)), PortOp::WriteByte { port: 0x1f2, value: 4 });
    assert_eq!(write_to_register(0x1f0, CommandBlockRegister::Data(512)), PortOp::WriteWords { port: 0x1f0, words: 256 });
    assert_eq!(read_from_register(0x170, CommandBlockRegister::RegularStatus), PortOp::ReadByte { port: 0x177 });
    assert_eq!(read_from_register(0x170, CommandBlockRegister::Error), PortOp::ReadByte { port: 0x171 });
}

#[test]
fn sector_registers_split_the_lba() {
    let regs = op_sector_registers(0x0a12_3456, 256, true);
    assert_eq!(regs.len(), 5);
    assert_eq!(regs[0], CommandBlockRegister::LBALow(0x56));
    assert_eq!(regs[1], CommandBlockRegister::LBAMid(0x34));
    assert_eq!(regs[2], CommandBlockRegister::LBAHigh(0x12));
    assert_eq!(regs[3], CommandBlockRegister::Device(DeviceRegister { data: 0xea }));
    assert_eq!(regs[4], CommandBlockRegister::SectorCount(0));
}

#[test]
fn boot_sector_table() {
    let mut buf = vec![0u8; 512];
    buf[446 + 4] = 0x83;
    buf[446 + 8] = 0x00;
    buf[446 + 9] = 0x08;
    buf[446 + 12] = 0x10;
    buf[446 + 16 + 4] = 0x5;
    buf[510] = 0x55;
    buf[511] = 0xaa;
    let bs = BootSector::parse(&buf);
    assert_eq!(bs.sign, 0xaa55);
    assert_eq!(bs.part_table.len(), 4);
    assert_eq!(bs.part_table[0], entry(0x83, 0x800, 0x10));
    assert!(bs.part_table[1].is_extended());
    assert!(bs.part_table[2].is_empty());
    assert_eq!(PartitionTableEntry::parse(&buf, 446), entry(0x83, 0x800, 0x10));
}

#[test]
fn primary_and_extended_partitions() {
    let table = vec![entry(0x83, 2048, 100), entry(0, 0, 0), entry(0x5, 5000, 900), entry(0x83, 9000, 50)];
    let (parts, exts) = main_part_init(&table);
    assert_eq!(
        parts,
        vec![
            PartitionInfo { part_no: 0, lba_start: 2048, sec_cnt: 100 },
            PartitionInfo { part_no: 3, lba_start: 9000, sec_cnt: 50 }
        ]
    );
    assert_eq!(exts, vec![5000]);
    let mut scan = ExtendedScan::new(5000);
    let first = scan.next_record().unwrap();
    assert_eq!(first, PendingEbr { lba: 5000, part_no: 4 });
    let logical = scan.extended_part_init(first, &vec![entry(0x83, 63, 400), entry(0x5, 500, 300), entry(0, 0, 0), entry(0, 0, 0)]);
    assert_eq!(logical, vec![PartitionInfo { part_no: 4, lba_start: 5063, sec_cnt: 400 }]);
    let second = scan.next_record().unwrap();
    assert_eq!(second, PendingEbr { lba: 5500, part_no: 5 });
    let more = scan.extended_part_init(second, &vec![entry(0x83, 63, 200), entry(0, 0, 0), entry(0, 0, 0), entry(0, 0, 0)]);
    assert_eq!(more, vec![PartitionInfo { part_no: 5, lba_start: 5563, sec_cnt: 200 }]);
    assert_eq!(scan.next_record(), None);
}

#[test]
fn super_block_layout() {
    let sb = SuperBlock::new(0, 20000);
    assert_eq!(sb.magic, FILESYSTEM_MAGIC);
    assert_eq!(sb.inode_bitmap_lba, 2);
    assert_eq!(sb.inode_bitmap_secs, 1);
    assert_eq!(sb.inode_table_lba, 3);
    assert_eq!(sb.inode_table_secs, 480);
    assert_eq!(sb.block_bitmap_lba, 483);
    assert_eq!(sb.block_bitmap_secs, 5);
    assert_eq!(sb.data_lba_start, 488);
}

#[test]
fn inode_locations() {
    assert_eq!(locate_inode(100, 0), InodeLocation::new(100, 0, 1));
    assert_eq!(locate_inode(100, 8), InodeLocation::new(100, 480, 2));
    assert_eq!(locate_inode(100, 9), InodeLocation::new(101, 28, 1));
    assert_eq!(div_ceil(10, 4), 3);
    assert_eq!(div_ceil(8, 4), 2);
}

#[test]
fn file_system_on_every_partition() {
    let parts = vec![
        PartitionInfo { part_no: 0, lba_start: 2048, sec_cnt: 20000 },
        PartitionInfo { part_no: 4, lba_start: 40000, sec_cnt: 30000 },
    ];
    let all = install_filesystem_for_all_part(&parts);
    assert_eq!(all.len(), 2);
    assert_eq!(all[0].super_block.lba_start, 2048);
    assert_eq!(all[1].super_block.sec_cnt, 30000);
}

#[test]
fn formattable_partitions() {
    assert!(!lib::device::init::can_format(0, 482));
    assert!(!lib::device::init::can_format(0, 483));
    assert!(lib::device::init::can_format(0, 485));
    assert!(lib::device::init::can_format(2048, 20000));
    assert!(!lib::device::init::can_format(0xffff_c000, 20000));
}

#[test]
fn extended_record_must_fit() {
    let scan = ExtendedScan::new(5000);
    let one = vec![entry(0x83, 63, 400), entry(0, 0, 0), entry(0, 0, 0), entry(0, 0, 0)];
    assert!(scan.record_fits(PendingEbr { lba: 5000, part_no: 4 }, &one));
    assert!(!scan.record_fits(PendingEbr { lba: 5000, part_no: 8 }, &one));
    assert!(scan.record_fits(PendingEbr { lba: 5000, part_no: 8 }, &vec![entry(0, 0, 0)]));
    assert!(!scan.record_fits(PendingEbr { lba: 0xffff_fff0, part_no: 4 }, &one));
    assert!(!scan.record_fits(PendingEbr { lba: 1, part_no: 4 }, &vec![entry(0x5, 0xffff_f000, 1)]));
}

#[test]
fn partition_relative_sectors() {
    let p = PartitionInfo { part_no: 1, lba_start: 2048, sec_cnt: 100 };
    assert_eq!(p.abs_lba_start(0), 2048);
    assert_eq!(p.abs_lba_start(37), 2085);
}

#[test]
fn super_block_takes_one_sector() {
    let sb = SuperBlock::new(0, 4583);
    assert_eq!(sb.block_bitmap_secs, 2);
}

#[test]
fn data_register_at_the_top_port() {
    assert_eq!(write_to_register(0xffff, CommandBlockRegister::Data(2)), PortOp::WriteWords { port: 0xffff, words: 1 });
}

fn byte(port: u16, value: u8) -> PortOp {
    PortOp::WriteByte { port, value }
}

#[test]
fn read_transfer_goes_sector_by_sector() {
    let (mut t, a) = SectorTransfer::begin(TransferKind::Read, 0x1f0, true, 0x0102_0304, 2, 1024);
    assert_eq!(
        a,
        TransferAction::Send(vec![
            byte(0x1f3, 0x04),
            byte(0x1f4, 0x03),
            byte(0x1f5, 0x02),
            byte(0x1f6, 0xe1),
            byte(0x1f2, 1),
            byte(0x1f7, 0x20),
        ])
    );
    assert_eq!(t.step(TransferEvent::Performed), TransferAction::WaitInterrupt);
    assert_eq!(t.step(TransferEvent::Status(StatusRegister { data: 0x08 })), TransferAction::Ignore);
    assert_eq!(t.step(TransferEvent::Interrupt), TransferAction::ReadStatus(PortOp::ReadByte { port: 0x1f7 }));
    assert_eq!(
        t.step(TransferEvent::Status(StatusRegister { data: 0x80 })),
        TransferAction::ReadStatus(PortOp::ReadByte { port: 0x1f7 })
    );
    assert_eq!(
        t.step(TransferEvent::Status(StatusRegister { data: 0x08 })),
        TransferAction::MoveSector { op: PortOp::ReadWords { port: 0x1f0, words: 256 }, offset: 0 }
    );
    match t.step(TransferEvent::Performed) {
        TransferAction::Send(ops) => {
            assert_eq!(ops[0], byte(0x1f3, 0x05));
            assert_eq!(ops[5], byte(0x1f7, 0x20));
        },
        other => panic!("unexpected {:?}", other),
    }
    assert_eq!(t.done, 1);
    t.step(TransferEvent::Performed);
    t.step(TransferEvent::Interrupt);
    assert_eq!(
        t.step(TransferEvent::Status(StatusRegister { data: 0x58 })),
        TransferAction::MoveSector { op: PortOp::ReadWords { port: 0x1f0, words: 256 }, offset: 512 }
    );
    assert_eq!(t.step(TransferEvent::Performed), TransferAction::Finish);
    assert_eq!(t.phase, TransferPhase::Done);
}

#[test]
fn write_transfer_hands_data_before_the_interrupt() {
    let (mut t, a) = SectorTransfer::begin(TransferKind::Write, 0x170, false, 9, 1, 512);
    match a {
        TransferAction::Send(ops) => {
            assert_eq!(ops[3], byte(0x176, 0xf0));
            assert_eq!(ops[5], byte(0x177, 0x30));
        },
        other => panic!("unexpected {:?}", other),
    }
    assert_eq!(t.step(TransferEvent::Performed), TransferAction::ReadStatus(PortOp::ReadByte { port: 0x177 }));
    assert_eq!(
        t.step(TransferEvent::Status(StatusRegister { data: 0x08 })),
        TransferAction::MoveSector { op: PortOp::WriteWords { port: 0x170, words: 256 }, offset: 0 }
    );
    assert_eq!(t.step(TransferEvent::Performed), TransferAction::WaitInterrupt);
    assert_eq!(t.step(TransferEvent::Interrupt), TransferAction::Finish);
}

#[test]
fn transfer_fails_when_the_drive_asks_for_no_data() {
    let (mut t, _) = SectorTransfer::begin(TransferKind::Identify, 0x1f0, true, 0, 1, 512);
    assert_eq!(t.step(TransferEvent::Performed), TransferAction::WaitInterrupt);
    assert_eq!(t.step(TransferEvent::Interrupt), TransferAction::ReadStatus(PortOp::ReadByte { port: 0x1f7 }));
    assert_eq!(t.step(TransferEvent::Status(StatusRegister { data: 0x41 })), TransferAction::Fail);
    assert_eq!(t.phase, TransferPhase::Failed);
    assert_eq!(t.step(TransferEvent::Performed), TransferAction::Ignore);
}

#[test]
fn identify_selects_the_drive_and_sends_its_command() {
    let (_, a) = SectorTransfer::begin(TransferKind::Identify, 0x1f0, false, 0, 1, 512);
    assert_eq!(a, TransferAction::Send(vec![byte(0x1f6, 0xf0), byte(0x1f7, 0xec)]));
    let (t, a) = SectorTransfer::begin(TransferKind::Read, 0x1f0, true, 7, 0, 0);
    assert_eq!(a, TransferAction::Finish);
    assert_eq!(t.phase, TransferPhase::Done);
}
