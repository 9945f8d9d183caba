use rust_os::disk::pio::job::{
    drive_select, identify_select, lba_byte, low_byte, Command, Job, Stage, Transfer, Wait,
};
use rust_os::disk::pio::error::Error;
use rust_os::disk::pio::status::Status;
use rust_os::disk::pio::{error, status};
use rust_os::disk::pio::{
    Bus, ControlPortRead, ControlPortWrite, Driver, IOPortRead, IOPortWrite, PortOp,
    IDENTIFY_COMMAND, LBA_MODE, READ_COMMAND, SECTOR_WORDS, WRITE_COMMAND,
};
use rust_os::disk::{
    ATA_CONTROL_PORT_PRIMARY, ATA_CONTROL_PORT_SECONDARY, ATA_IO_PORT_PRIMARY,
    ATA_IO_PORT_SECONDARY,
};
use std::collections::HashMap;
use std::collections::VecDeque;

const BSY: u8 = 0x80;
const RDY: u8 = 0x40;
const DRQ: u8 = 0x08;

/// A drive behind the ports of one bus: it keeps sectors, answers the three
/// commands, and stays busy for a few polls before each sector.
struct SimDrive {
    base: u16,
    present: bool,
    lag: u32,
    sectors: HashMap<u32, [u16; 256]>,
    identity: [u16; 256],
    registers: [u8; 8],
    busy_left: u32,
    outgoing: VecDeque<u16>,
    incoming: Vec<u16>,
    write_to: Option<u32>,
    write_left: u32,
    log: Vec<PortOp>,
}

impl SimDrive {
    fn new(base: u16, lag: u32) -> SimDrive {
        let mut identity = [0u16; 256];
        for (i, word) in identity.iter_mut().enumerate() {
            *word = 0x4000 + i as u16;
        }
        SimDrive {
            base,
            present: true,
            lag,
            sectors: HashMap::new(),
            identity,
            registers: [0; 8],
            busy_left: 0,
            outgoing: VecDeque::new(),
            incoming: Vec::new(),
            write_to: None,
            write_left: 0,
            log: Vec::new(),
        }
    }

    fn absent(base: u16) -> SimDrive {
        let mut drive = SimDrive::new(base, 0);
        drive.present = false;
        drive
    }

    fn sector(&self, lba: u32) -> [u16; 256] {
        match self.sectors.get(&lba) {
            Some(sector) => *sector,
            None => [0; 256],
        }
    }

    fn lba(&self) -> u32 {
        ((self.registers[6] as u32 & 0xF) << 24)
            | ((self.registers[5] as u32) << 16)
            | ((self.registers[4] as u32) << 8)
            | self.registers[3] as u32
    }

    fn status(&mut self) -> u8 {
        if !self.present {
            return 0;
        }
        if self.busy_left > 0 {
            self.busy_left -= 1;
            return BSY;
        }
        if !self.outgoing.is_empty() || self.write_left > 0 {
            RDY | DRQ
        } else {
            RDY
        }
    }

    fn command(&mut self, opcode: u8) {
        if !self.present {
            return;
        }
        let count = self.registers[2] as u32;
        let lba = self.lba();
        self.busy_left = self.lag;
        match opcode {
            0x20 => {
                for sector in 0..count {
                    for word in self.sector(lba + sector) {
                        self.outgoing.push_back(word);
                    }
                }
            }
            0x30 => {
                self.write_to = Some(lba);
                self.write_left = count * 256;
                self.incoming.clear();
            }
            0xEC => {
                for word in self.identity {
                    self.outgoing.push_back(word);
                }
            }
            _ => panic!("the simulated drive knows no command {opcode:#x}"),
        }
    }

    fn perform(&mut self, op: PortOp) -> u16 {
        self.log.push(op);
        match op {
            PortOp::ReadByte { port } => {
                assert_eq!(port, self.base + 7, "only the status register is read as a byte");
                self.status() as u16
            }
            PortOp::WriteByte { port, value } => {
                let register = (port - self.base) as usize;
                assert!((2..8).contains(&register));
                self.registers[register] = value;
                if register == 7 {
                    self.command(value);
                }
                0
            }
            PortOp::ReadWord { port } => {
                assert_eq!(port, self.base);
                let word = self.outgoing.pop_front().expect("the drive has no word to give");
                if self.outgoing.len() % 256 == 0 {
                    self.busy_left = self.lag;
                }
                word
            }
            PortOp::WriteWord { port, value } => {
                assert_eq!(port, self.base);
                assert!(self.write_left > 0, "the drive expects no word");
                self.incoming.push(value);
                self.write_left -= 1;
                if self.incoming.len() == 256 {
                    let lba = self.write_to.expect("a write is under way");
                    let mut sector = [0u16; 256];
                    sector.copy_from_slice(&self.incoming);
                    self.sectors.insert(lba, sector);
                    self.incoming.clear();
                    self.write_to = Some(lba + 1);
                    self.busy_left = self.lag;
                }
                0
            }
        }
    }
}

/// Runs the driver's job to its end against the drive.
fn run(driver: &mut Driver, drive: &mut SimDrive, buf: &mut [u16]) -> usize {
    assert!(buf.len() >= driver.span());
    let mut accesses = 0;
    while let Some(op) = driver.pending(buf) {
        let value = drive.perform(op);
        driver.advance(value, buf);
        accesses += 1;
        assert!(accesses < 100_000, "the job does not end");
    }
    assert!(driver.is_idle());
    accesses
}

fn ready_driver(drive: &mut SimDrive) -> Driver {
    let mut driver = Driver::new();
    let mut none: [u16; 0] = [];
    run(&mut driver, drive, &mut none);
    driver
}

fn pattern(seed: u16, words: usize) -> Vec<u16> {
    (0..words).map(|i| seed.wrapping_mul(31).wrapping_add(i as u16 * 7 + 1)).collect()
}

fn read_sectors(driver: &mut Driver, drive: &mut SimDrive, buf: &mut [u16], lba: u32, count: u8) {
    driver.read(lba, count);
    run(driver, drive, buf);
}

fn write_sectors(driver: &mut Driver, drive: &mut SimDrive, buf: &mut [u16], lba: u32, count: u8) {
    driver.write(lba, count);
    run(driver, drive, buf);
}

#[test]
fn status_flags_sit_at_their_bits() {
    for s in 0..=255u8 {
        let status = Status { val: s };
        assert_eq!(status.error(), (s & 0x01) != 0);
        assert_eq!(status.drive_request(), (s & 0x08) != 0);
        assert_eq!(status.service_request(), (s & 0x10) != 0);
        assert_eq!(status.drive_fault(), (s & 0x20) != 0);
        assert_eq!(status.ready(), (s & 0x40) != 0);
        assert_eq!(status.busy(), (s & 0x80) != 0);
    }
}

#[test]
fn status_has_agrees_with_each_flag() {
    let flags = [
        status::Bitflags::ERR,
        status::Bitflags::IDX,
        status::Bitflags::CORR,
        status::Bitflags::DRQ,
        status::Bitflags::SRV,
        status::Bitflags::DF,
        status::Bitflags::RDY,
        status::Bitflags::BSY,
    ];
    for (bit, flag) in flags.iter().enumerate() {
        assert_eq!(flag.bit() as usize, bit);
        assert_eq!(flag.mask(), 1u8 << bit);
        for s in 0..=255u8 {
            assert_eq!(Status { val: s }.has(*flag), s & (1 << bit) != 0);
        }
    }
}

#[test]
fn error_flags_sit_at_their_bits() {
    for e in 0..=255u8 {
        let error = Error { val: e };
        assert_eq!(error.address_mark_not_found(), (e & 0x01) != 0);
        assert_eq!(error.track_zero_not_found(), (e & 0x02) != 0);
        assert_eq!(error.aborted_command(), (e & 0x04) != 0);
        assert_eq!(error.media_change_request(), (e & 0x08) != 0);
        assert_eq!(error.id_not_found(), (e & 0x10) != 0);
        assert_eq!(error.media_changed(), (e & 0x20) != 0);
        assert_eq!(error.uncorrectable_data(), (e & 0x40) != 0);
        assert_eq!(error.bad_block(), (e & 0x80) != 0);
    }
}

#[test]
fn error_has_agrees_with_each_flag() {
    let flags = [
        error::Bitflags::AMNF,
        error::Bitflags::TKZNF,
        error::Bitflags::ABRT,
        error::Bitflags::MCR,
        error::Bitflags::IDNF,
        error::Bitflags::MC,
        error::Bitflags::UNC,
        error::Bitflags::BBK,
    ];
    for (bit, flag) in flags.iter().enumerate() {
        assert_eq!(flag.bit() as usize, bit);
        assert_eq!(flag.mask(), 1u8 << bit);
        for e in 0..=255u8 {
            assert_eq!(Error { val: e }.has(*flag), e & (1 << bit) != 0);
        }
    }
}

#[test]
fn register_offsets_follow_the_port_layout() {
    assert_eq!(IOPortRead::DataRegister.offset(), 0);
    assert_eq!(IOPortRead::ErrorRegister.offset(), 1);
    assert_eq!(IOPortRead::SectorCountRegister.offset(), 2);
    assert_eq!(IOPortRead::LBALow.offset(), 3);
    assert_eq!(IOPortRead::LBAMid.offset(), 4);
    assert_eq!(IOPortRead::LBAHigh.offset(), 5);
    assert_eq!(IOPortRead::DriveSelectRegister.offset(), 6);
    assert_eq!(IOPortRead::StatusRegister.offset(), 7);
    assert_eq!(IOPortWrite::DataRegister.offset(), 0);
    assert_eq!(IOPortWrite::FeaturesRegister.offset(), 1);
    assert_eq!(IOPortWrite::SectorCountRegister.offset(), 2);
    assert_eq!(IOPortWrite::SectorNumberRegister.offset(), 3);
    assert_eq!(IOPortWrite::CylinderLowRegister.offset(), 4);
    assert_eq!(IOPortWrite::CylinderHighRegister.offset(), 5);
    assert_eq!(IOPortWrite::DriveAndHeadRegister.offset(), 6);
    assert_eq!(IOPortWrite::CommandRegister.offset(), 7);
    assert_eq!(ControlPortRead::AlternateStatusRegister.offset(), 0);
    assert_eq!(ControlPortRead::DriveAddressRegister.offset(), 1);
    assert_eq!(ControlPortWrite::DeviceControlRegister.offset(), 0);
}

#[test]
fn buses_have_their_fixed_ports() {
    assert_eq!(ATA_IO_PORT_PRIMARY, 0x1F0);
    assert_eq!(ATA_IO_PORT_SECONDARY, 0x170);
    assert_eq!(ATA_CONTROL_PORT_PRIMARY, 0x3F6);
    assert_eq!(ATA_CONTROL_PORT_SECONDARY, 0x376);
    assert_eq!(Bus::Primary.io_base(), 0x1F0);
    assert_eq!(Bus::Secondary.io_base(), 0x170);
    assert_eq!(Bus::Primary.control_base(), 0x3F6);
    assert_eq!(Bus::Secondary.control_base(), 0x376);
    assert_eq!(Bus::Primary.port(7), 0x1F7);
    assert_eq!(Bus::Secondary.port(6), 0x176);
    assert_eq!(Bus::Primary.control_port(1), 0x3F7);
    assert_eq!(Bus::Secondary.control_port(0), 0x376);
}

#[test]
fn command_opcodes() {
    assert_eq!(READ_COMMAND, 0x20);
    assert_eq!(WRITE_COMMAND, 0x30);
    assert_eq!(IDENTIFY_COMMAND, 0xEC);
    assert_eq!(Command::Read.opcode(), 0x20);
    assert_eq!(Command::Write.opcode(), 0x30);
    assert_eq!(Command::Identify.opcode(), 0xEC);
    assert_eq!(SECTOR_WORDS, 256);
}

#[test]
fn drive_select_byte_for_drive_1() {
    let lba: u32 = 0x01020304;
    let expected = (1u8 << 4) | ((lba >> 24) & 0xF) as u8 | LBA_MODE;
    assert_eq!(drive_select(1, lba), expected);
    assert_eq!(drive_select(1, lba), 0x51);
    assert_eq!(LBA_MODE, 1 << 6);
}

#[test]
fn drive_select_byte_for_drive_0() {
    assert_eq!(drive_select(0, 0), 0x40);
    assert_eq!(drive_select(0, 0x0F00_0000), 0x4F);
    assert_eq!(drive_select(0, 0x0A12_3456), 0x4A);
}

#[test]
fn identify_select_byte() {
    assert_eq!(identify_select(0), 0xA0);
    assert_eq!(identify_select(1), 0xB0);
}

#[test]
fn lba_bytes_are_split_low_to_high() {
    let lba: u32 = 0x01020304;
    assert_eq!(lba_byte(lba, 0), 0x04);
    assert_eq!(lba_byte(lba, 1), 0x03);
    assert_eq!(lba_byte(lba, 2), 0x02);
    assert_eq!(lba_byte(lba, 3), 0x01);
}

#[test]
fn lba_above_28_bits_is_cut() {
    assert_eq!(drive_select(1, 0xF102_0304), drive_select(1, 0x0102_0304));
    let wide = Transfer { command: Command::Read, lba: 0xFFFF_FFFF, sector_count: 1 };
    let cut = Transfer { command: Command::Read, lba: 0x0FFF_FFFF, sector_count: 1 };
    for index in 0..6 {
        assert_eq!(
            wide.register(Bus::Primary, 0, index),
            cut.register(Bus::Primary, 0, index)
        );
    }
}

#[test]
fn low_byte_keeps_the_low_half() {
    assert_eq!(low_byte(0x1234), 0x34);
    assert_eq!(low_byte(0x00FF), 0xFF);
    assert_eq!(low_byte(0xFF00), 0x00);
}

#[test]
fn new_driver_samples_the_status_first() {
    let mut driver = Driver::new();
    assert_eq!(driver.status(), Status { val: 0 });
    assert_eq!(driver.job(), Job::Sample);
    assert!(!driver.is_idle());
    let mut none: [u16; 0] = [];
    assert_eq!(driver.pending(&none), Some(PortOp::ReadByte { port: 0x1F7 }));
    driver.advance(0x50, &mut none);
    assert!(driver.is_idle());
    assert_eq!(driver.status(), Status { val: 0x50 });
    assert_eq!(driver.pending(&none), None);
}

#[test]
fn read_status_takes_one_sample() {
    let mut drive = SimDrive::new(0x1F0, 0);
    let mut driver = ready_driver(&mut drive);
    drive.log.clear();
    drive.busy_left = 3;
    driver.read_status();
    let mut none: [u16; 0] = [];
    assert_eq!(run(&mut driver, &mut drive, &mut none), 1);
    assert_eq!(drive.log, vec![PortOp::ReadByte { port: 0x1F7 }]);
    assert!(driver.status().busy());
}

#[test]
fn wait_bsy_polls_until_not_busy() {
    let mut drive = SimDrive::new(0x1F0, 0);
    let mut driver = ready_driver(&mut drive);
    drive.log.clear();
    drive.busy_left = 5;
    driver.wait_bsy();
    assert_eq!(driver.job(), Job::Poll { until: Wait::NotBusy });
    let mut none: [u16; 0] = [];
    assert_eq!(run(&mut driver, &mut drive, &mut none), 6);
    assert_eq!(drive.log, vec![PortOp::ReadByte { port: 0x1F7 }; 6]);
    assert!(!driver.status().busy());
    assert_eq!(driver.status().val, RDY);
}

#[test]
fn wait_bsy_takes_a_sample_even_when_idle() {
    let mut drive = SimDrive::new(0x1F0, 0);
    let mut driver = ready_driver(&mut drive);
    driver.wait_bsy();
    let mut none: [u16; 0] = [];
    assert_eq!(run(&mut driver, &mut drive, &mut none), 1);
}

#[test]
fn wait_drq_polls_until_data_is_requested() {
    let mut driver = Driver::new();
    let mut none: [u16; 0] = [];
    driver.advance(0, &mut none);
    driver.wait_drq();
    assert_eq!(driver.job(), Job::Poll { until: Wait::DataRequest });
    for sample in [0x00u16, 0x80, 0x40, 0x50] {
        assert_eq!(driver.pending(&none), Some(PortOp::ReadByte { port: 0x1F7 }));
        driver.advance(sample, &mut none);
        assert!(!driver.is_idle());
        assert_eq!(driver.status().val as u16, sample);
    }
    driver.advance(0x48, &mut none);
    assert!(driver.is_idle());
    assert!(driver.status().drive_request());
}

#[test]
fn wait_rdy_polls_until_ready() {
    let mut driver = Driver::new();
    let mut none: [u16; 0] = [];
    driver.advance(0, &mut none);
    driver.wait_rdy();
    assert_eq!(driver.job(), Job::Poll { until: Wait::Ready });
    driver.advance(0x80, &mut none);
    assert!(!driver.is_idle());
    driver.advance(0x08, &mut none);
    assert!(!driver.is_idle());
    driver.advance(0x40, &mut none);
    assert!(driver.is_idle());
    assert!(driver.status().ready());
}

#[test]
fn read_follows_the_protocol_sequence() {
    let mut drive = SimDrive::new(0x1F0, 2);
    let data = pattern(3, 256);
    let mut sector = [0u16; 256];
    sector.copy_from_slice(&data);
    drive.sectors.insert(0x0102_0304, sector);
    let mut driver = ready_driver(&mut drive);
    driver.change_disk(1);
    let mut none: [u16; 0] = [];
    run(&mut driver, &mut drive, &mut none);
    drive.log.clear();
    drive.busy_left = 1;

    let mut buf = vec![0u16; 256];
    read_sectors(&mut driver, &mut drive, &mut buf, 0x0102_0304, 1);
    assert_eq!(buf, data);

    let status = PortOp::ReadByte { port: 0x1F7 };
    let mut expected = vec![
        status,
        status,
        PortOp::WriteByte { port: 0x1F6, value: 0x51 },
        PortOp::WriteByte { port: 0x1F2, value: 1 },
        PortOp::WriteByte { port: 0x1F3, value: 0x04 },
        PortOp::WriteByte { port: 0x1F4, value: 0x03 },
        PortOp::WriteByte { port: 0x1F5, value: 0x02 },
        PortOp::WriteByte { port: 0x1F7, value: 0x20 },
        // two busy samples and the one that ends the wait
        status,
        status,
        status,
        // the wait for the data request ends with its first sample
        status,
    ];
    expected.extend(vec![PortOp::ReadWord { port: 0x1F0 }; 256]);
    assert_eq!(drive.log, expected);
}

#[test]
fn write_follows_the_protocol_sequence() {
    let mut drive = SimDrive::new(0x1F0, 1);
    let mut driver = ready_driver(&mut drive);
    drive.log.clear();
    let mut buf = pattern(9, 256);
    let before = buf.clone();
    write_sectors(&mut driver, &mut drive, &mut buf, 7, 1);
    assert_eq!(buf, before);
    assert_eq!(drive.sector(7).to_vec(), before);

    let status = PortOp::ReadByte { port: 0x1F7 };
    let mut expected = vec![
        status,
        PortOp::WriteByte { port: 0x1F6, value: 0x40 },
        PortOp::WriteByte { port: 0x1F2, value: 1 },
        PortOp::WriteByte { port: 0x1F3, value: 7 },
        PortOp::WriteByte { port: 0x1F4, value: 0 },
        PortOp::WriteByte { port: 0x1F5, value: 0 },
        PortOp::WriteByte { port: 0x1F7, value: 0x30 },
        status,
        status,
        status,
    ];
    expected.extend(before.iter().map(|word| PortOp::WriteWord { port: 0x1F0, value: *word }));
    assert_eq!(drive.log, expected);
}

fn round_trip(lba: u32, count: u8, lag: u32) {
    let words = count as usize * 256;
    let mut drive = SimDrive::new(0x1F0, lag);
    for sector in 0..count as u32 {
        let mut old = [0u16; 256];
        old.copy_from_slice(&pattern(100 + sector as u16, 256));
        drive.sectors.insert(lba + sector, old);
    }
    let mut driver = ready_driver(&mut drive);

    let mut buf = vec![0u16; words];
    read_sectors(&mut driver, &mut drive, &mut buf, lba, count);
    for sector in 0..count as usize {
        assert_eq!(buf[sector * 256..(sector + 1) * 256], pattern(100 + sector as u16, 256)[..]);
    }

    let mut fresh = pattern(0xBEEF, words);
    let written = fresh.clone();
    write_sectors(&mut driver, &mut drive, &mut fresh, lba, count);
    assert_eq!(fresh, written);

    let mut back = vec![0u16; words];
    read_sectors(&mut driver, &mut drive, &mut back, lba, count);
    assert_eq!(back, written);

    // the same buffer, written and read back, is as it was
    read_sectors(&mut driver, &mut drive, &mut fresh, lba, count);
    assert_eq!(fresh, written);
}

#[test]
fn round_trip_one_sector_at_lba_0() {
    round_trip(0, 1, 0);
}

#[test]
fn round_trip_one_sector_at_lba_1() {
    round_trip(1, 1, 3);
}

#[test]
fn round_trip_four_sectors_at_lba_0() {
    round_trip(0, 4, 2);
}

#[test]
fn round_trip_four_sectors_at_lba_1() {
    round_trip(1, 4, 1);
}

#[test]
fn round_trip_at_a_high_lba() {
    round_trip(0x0ABC_DEF0, 2, 1);
}

#[test]
fn read_leaves_the_rest_of_the_buffer_alone() {
    let mut drive = SimDrive::new(0x1F0, 0);
    let mut sector = [0u16; 256];
    sector.copy_from_slice(&pattern(5, 256));
    drive.sectors.insert(3, sector);
    let mut driver = ready_driver(&mut drive);
    let mut buf = vec![0xAAAAu16; 256 + 10];
    read_sectors(&mut driver, &mut drive, &mut buf, 3, 1);
    assert_eq!(buf[..256], pattern(5, 256)[..]);
    assert_eq!(buf[256..], [0xAAAAu16; 10]);
}

#[test]
fn sector_count_zero_moves_no_data() {
    let mut drive = SimDrive::new(0x1F0, 0);
    let mut driver = ready_driver(&mut drive);
    drive.log.clear();
    let mut buf = vec![0x1111u16; 8];
    driver.read(5, 0);
    assert_eq!(driver.span(), 0);
    let accesses = run(&mut driver, &mut drive, &mut buf);
    assert_eq!(accesses, 7);
    assert_eq!(buf, vec![0x1111u16; 8]);
    assert_eq!(drive.log[6], PortOp::WriteByte { port: 0x1F7, value: 0x20 });

    drive.log.clear();
    driver.write(5, 0);
    let accesses = run(&mut driver, &mut drive, &mut buf);
    assert_eq!(accesses, 7);
    assert_eq!(buf, vec![0x1111u16; 8]);
    assert!(drive.sectors.is_empty());
}

#[test]
fn identify_without_a_drive_returns_zeros_without_waiting() {
    let mut drive = SimDrive::absent(0x1F0);
    let mut driver = ready_driver(&mut drive);
    drive.log.clear();
    let mut block = driver.identify();
    assert_eq!(block, [0u16; 256]);
    let accesses = run(&mut driver, &mut drive, &mut block);
    assert_eq!(block, [0u16; 256]);
    assert_eq!(accesses, 7);
    assert_eq!(
        drive.log,
        vec![
            PortOp::WriteByte { port: 0x1F6, value: 0xA0 },
            PortOp::WriteByte { port: 0x1F2, value: 0 },
            PortOp::WriteByte { port: 0x1F3, value: 0 },
            PortOp::WriteByte { port: 0x1F4, value: 0 },
            PortOp::WriteByte { port: 0x1F5, value: 0 },
            PortOp::WriteByte { port: 0x1F7, value: 0xEC },
            PortOp::ReadByte { port: 0x1F7 },
        ]
    );
    assert_eq!(driver.status().val, 0);
}

#[test]
fn identify_with_a_drive_returns_its_block() {
    let mut drive = SimDrive::new(0x1F0, 2);
    let mut driver = ready_driver(&mut drive);
    driver.change_disk(1);
    let mut none: [u16; 0] = [];
    run(&mut driver, &mut drive, &mut none);
    drive.log.clear();
    let mut block = driver.identify();
    assert_eq!(driver.span(), 256);
    run(&mut driver, &mut drive, &mut block);
    assert_eq!(block, drive.identity);
    assert_eq!(drive.log[0], PortOp::WriteByte { port: 0x1F6, value: 0xB0 });
    assert_eq!(drive.log[5], PortOp::WriteByte { port: 0x1F7, value: 0xEC });
    // the probe, which sees the drive busy, and then the two waits
    let polls = drive.log[6..].iter().filter(|op| matches!(op, PortOp::ReadByte { .. })).count();
    assert_eq!(polls, 1 + 2 + 1);
    let words = drive.log.iter().filter(|op| matches!(op, PortOp::ReadWord { .. })).count();
    assert_eq!(words, 256);
}

#[test]
fn transfers_on_the_secondary_bus_use_its_ports() {
    let mut drive = SimDrive::new(0x170, 1);
    let mut driver = Driver::new();
    let mut none: [u16; 0] = [];
    driver.advance(0x40, &mut none);
    driver.change_bus(Bus::Secondary);
    assert_eq!(driver.drive_address_port(), 0x377);
    let mut buf = pattern(77, 512);
    let written = buf.clone();
    write_sectors(&mut driver, &mut drive, &mut buf, 10, 2);
    let mut back = vec![0u16; 512];
    read_sectors(&mut driver, &mut drive, &mut back, 10, 2);
    assert_eq!(back, written);
    assert!(drive.log.iter().all(|op| match op {
        PortOp::ReadByte { port } => *port == 0x177,
        PortOp::WriteByte { port, .. } => (0x172..=0x177).contains(port),
        PortOp::ReadWord { port } => *port == 0x170,
        PortOp::WriteWord { port, .. } => *port == 0x170,
    }));
}

#[test]
fn change_disk_samples_the_status() {
    let mut driver = Driver::new();
    let mut none: [u16; 0] = [];
    driver.advance(0x40, &mut none);
    driver.change_disk(1);
    assert_eq!(driver.job(), Job::Sample);
    assert_eq!(driver.pending(&none), Some(PortOp::ReadByte { port: 0x1F7 }));
    driver.advance(0x58, &mut none);
    assert!(driver.is_idle());
    assert_eq!(driver.status().val, 0x58);
    driver.read(0, 1);
    let mut buf = [0u16; 256];
    driver.advance(0x40, &mut buf);
    assert_eq!(driver.pending(&buf), Some(PortOp::WriteByte { port: 0x1F6, value: 0x50 }));
}

#[test]
fn drive_selected_decodes_the_address_byte() {
    let driver = Driver::new();
    assert_eq!(driver.drive_address_port(), 0x3F7);
    assert_eq!(driver.drive_selected(0b0000_0000), None);
    assert_eq!(driver.drive_selected(0b1111_1100), None);
    assert_eq!(driver.drive_selected(0b0000_0001), Some(1));
    assert_eq!(driver.drive_selected(0b0000_0010), Some(2));
    assert_eq!(driver.drive_selected(0b0000_0011), Some(3));
    assert_eq!(driver.drive_selected(0b1111_1110), Some(2));
}

#[test]
fn current_disk_decodes_the_address_byte() {
    let driver = Driver::new();
    assert_eq!(driver.current_disk(0b1111_1110), 0);
    assert_eq!(driver.current_disk(0b1111_1100), 0);
    assert_eq!(driver.current_disk(0b1111_1101), 1);
    assert_eq!(driver.current_disk(0b0000_0001), 1);
}

#[test]
fn stages_advance_word_by_word() {
    let transfer = Transfer { command: Command::Read, lba: 0, sector_count: 2 };
    let mut buf = vec![0u16; 512];
    let mut driver = Driver::new();
    driver.advance(0x40, &mut buf);
    driver.read(0, 2);
    assert_eq!(driver.job(), Job::Transfer { transfer, stage: Stage::Settle });
    driver.advance(0x40, &mut buf);
    for index in 0..6 {
        assert_eq!(driver.job(), Job::Transfer { transfer, stage: Stage::Register { index } });
        driver.advance(0, &mut buf);
    }
    assert_eq!(driver.job(), Job::Transfer { transfer, stage: Stage::SectorBusy { sector: 0 } });
    driver.advance(0x00, &mut buf);
    assert_eq!(driver.job(), Job::Transfer { transfer, stage: Stage::SectorRequest { sector: 0 } });
    driver.advance(0x08, &mut buf);
    for word in 0..256u16 {
        assert_eq!(
            driver.job(),
            Job::Transfer { transfer, stage: Stage::Word { sector: 0, word } }
        );
        assert_eq!(driver.pending(&buf), Some(PortOp::ReadWord { port: 0x1F0 }));
        driver.advance(0x1000 + word, &mut buf);
    }
    assert_eq!(driver.job(), Job::Transfer { transfer, stage: Stage::SectorBusy { sector: 1 } });
    driver.advance(0x80, &mut buf);
    assert_eq!(driver.job(), Job::Transfer { transfer, stage: Stage::SectorBusy { sector: 1 } });
    driver.advance(0x00, &mut buf);
    assert_eq!(driver.job(), Job::Transfer { transfer, stage: Stage::SectorRequest { sector: 1 } });
    driver.advance(0x00, &mut buf);
    assert_eq!(driver.job(), Job::Transfer { transfer, stage: Stage::SectorRequest { sector: 1 } });
    driver.advance(0x08, &mut buf);
    for word in 0..256u16 {
        assert_eq!(
            driver.job(),
            Job::Transfer { transfer, stage: Stage::Word { sector: 1, word } }
        );
        driver.advance(0x2000 + word, &mut buf);
    }
    assert_eq!(driver.job(), Job::Idle);
    for word in 0..256usize {
        assert_eq!(buf[word], 0x1000 + word as u16);
        assert_eq!(buf[256 + word], 0x2000 + word as u16);
    }
}

#[test]
fn a_busy_drive_is_polled_for_as_long_as_it_takes() {
    let mut driver = Driver::new();
    let mut buf = vec![0u16; 256];
    driver.advance(0x40, &mut buf);
    driver.read(0, 1);
    for _ in 0..10_000 {
        assert_eq!(driver.pending(&buf), Some(PortOp::ReadByte { port: 0x1F7 }));
        driver.advance(0x80, &mut buf);
    }
    assert_eq!(
        driver.job(),
        Job::Transfer {
            transfer: Transfer { command: Command::Read, lba: 0, sector_count: 1 },
            stage: Stage::Settle,
        }
    );
}

#[test]
fn a_short_buffer_is_enough_until_a_word_falls_outside_it() {
    let mut drive = SimDrive::new(0x1F0, 1);
    let mut driver = ready_driver(&mut drive);
    let mut buf = vec![0u16; 300];
    driver.read(0, 2);
    assert_eq!(driver.span(), 512);
    // the command block and the first sector need no more than the buffer has
    let mut moved = 0;
    loop {
        assert_eq!(driver.sends(), None);
        let op = driver.pending(&buf).expect("the job is not done");
        let value = drive.perform(op);
        match driver.fills() {
            Some(at) if at >= buf.len() => break,
            Some(at) => {
                assert_eq!(at, moved);
                moved += 1;
            }
            None => {}
        }
        driver.advance(value, &mut buf);
    }
    assert_eq!(moved, 300);
    assert_eq!(driver.fills(), Some(300));
    assert_eq!(drive.log[7], PortOp::WriteByte { port: 0x1F7, value: 0x20 });
}

#[test]
fn a_write_names_the_word_it_sends() {
    let mut drive = SimDrive::new(0x1F0, 0);
    let mut driver = ready_driver(&mut drive);
    let mut buf = pattern(1, 256);
    driver.write(9, 1);
    let mut sent = 0;
    loop {
        if let Some(at) = driver.sends() {
            assert_eq!(at, sent);
            assert_eq!(
                driver.pending(&buf),
                Some(PortOp::WriteWord { port: 0x1F0, value: buf[at] })
            );
            sent += 1;
        }
        assert_eq!(driver.fills(), None);
        match driver.pending(&buf) {
            Some(op) => {
                let value = drive.perform(op);
                driver.advance(value, &mut buf);
            }
            None => break,
        }
    }
    assert_eq!(sent, 256);
}
