//! ATA disks: PIO register encoding, channel and disk layout, partition tables.

pub mod constant;
pub mod pio;
pub mod ata;
pub mod drive;
pub mod init;
pub mod transfer;
