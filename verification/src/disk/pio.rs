//! Programmed I/O against an ATA drive.
//!
//! The engine never touches a port. It says which access comes next
//! ([`Driver::pending`]), the caller performs it, and the engine takes what the
//! access read ([`Driver::advance`]). What the engine asks for, and in which
//! order, is the register protocol of the drive: [`job`] gives it step by
//! step, [`protocol`] for each stretch of a command, and [`commands`] for
//! whole commands.

use crate::disk::{
    ATA_CONTROL_PORT_PRIMARY, ATA_CONTROL_PORT_SECONDARY, ATA_IO_PORT_PRIMARY,
    ATA_IO_PORT_SECONDARY,
};
use job::{Command, Job, Stage, Transfer, Wait};
use status::Status;
use vstd::prelude::*;

pub mod commands;
pub mod error;
pub mod job;
pub mod protocol;
pub mod status;

verus! {

/// Opcode of the command that writes sectors.
pub const WRITE_COMMAND: u8 = 0x30;

/// Opcode of the command that reads sectors.
pub const READ_COMMAND: u8 = 0x20;

/// Opcode of the command that asks the drive to describe itself.
pub const IDENTIFY_COMMAND: u8 = 0xEC;

/// Sixteen-bit words in one sector.
pub const SECTOR_WORDS: usize = 256;

/// The bit of the drive-select byte that chooses LBA addressing.
pub const LBA_MODE: u8 = 0x40;

/// The fixed bits of the drive-select byte that goes before an identify command.
pub const IDENTIFY_SELECT: u8 = 0xA0;

/// The registers of a bus as they are read, in the order of their ports.
#[derive(Clone, Copy, PartialEq, Eq, Structural, Debug)]
pub enum IOPortRead {
    DataRegister,
    ErrorRegister,
    SectorCountRegister,
    LBALow,
    LBAMid,
    LBAHigh,
    DriveSelectRegister,
    StatusRegister,
}

impl IOPortRead {
    /// The register's port, counted from the base of the bus.
    pub open spec fn spec_offset(self) -> u16 {
        match self {
            IOPortRead::DataRegister => 0,
            IOPortRead::ErrorRegister => 1,
            IOPortRead::SectorCountRegister => 2,
            IOPortRead::LBALow => 3,
            IOPortRead::LBAMid => 4,
            IOPortRead::LBAHigh => 5,
            IOPortRead::DriveSelectRegister => 6,
            IOPortRead::StatusRegister => 7,
        }
    }

    /// The register's port, counted from the base of the bus.
    #[verifier::when_used_as_spec(spec_offset)]
    pub fn offset(self) -> (o: u16)
        ensures
            o == self.spec_offset(),
            o < 8,
    {
        match self {
            IOPortRead::DataRegister => 0,
            IOPortRead::ErrorRegister => 1,
            IOPortRead::SectorCountRegister => 2,
            IOPortRead::LBALow => 3,
            IOPortRead::LBAMid => 4,
            IOPortRead::LBAHigh => 5,
            IOPortRead::DriveSelectRegister => 6,
            IOPortRead::StatusRegister => 7,
        }
    }
}

/// The registers of a bus as they are written, in the order of their ports.
#[derive(Clone, Copy, PartialEq, Eq, Structural, Debug)]
pub enum IOPortWrite {
    DataRegister,
    FeaturesRegister,
    SectorCountRegister,
    SectorNumberRegister,
    CylinderLowRegister,
    CylinderHighRegister,
    DriveAndHeadRegister,
    CommandRegister,
}

impl IOPortWrite {
    /// The register's port, counted from the base of the bus.
    pub open spec fn spec_offset(self) -> u16 {
        match self {
            IOPortWrite::DataRegister => 0,
            IOPortWrite::FeaturesRegister => 1,
            IOPortWrite::SectorCountRegister => 2,
            IOPortWrite::SectorNumberRegister => 3,
            IOPortWrite::CylinderLowRegister => 4,
            IOPortWrite::CylinderHighRegister => 5,
            IOPortWrite::DriveAndHeadRegister => 6,
            IOPortWrite::CommandRegister => 7,
        }
    }

    /// The register's port, counted from the base of the bus.
    #[verifier::when_used_as_spec(spec_offset)]
    pub fn offset(self) -> (o: u16)
        ensures
            o == self.spec_offset(),
            o < 8,
    {
        match self {
            IOPortWrite::DataRegister => 0,
            IOPortWrite::FeaturesRegister => 1,
            IOPortWrite::SectorCountRegister => 2,
            IOPortWrite::SectorNumberRegister => 3,
            IOPortWrite::CylinderLowRegister => 4,
            IOPortWrite::CylinderHighRegister => 5,
            IOPortWrite::DriveAndHeadRegister => 6,
            IOPortWrite::CommandRegister => 7,
        }
    }
}

/// The control registers of a bus as they are read.
#[derive(Clone, Copy, PartialEq, Eq, Structural, Debug)]
pub enum ControlPortRead {
    AlternateStatusRegister,
    DriveAddressRegister,
}

impl ControlPortRead {
    /// The register's port, counted from the control base of the bus.
    pub open spec fn spec_offset(self) -> u16 {
        match self {
            ControlPortRead::AlternateStatusRegister => 0,
            ControlPortRead::DriveAddressRegister => 1,
        }
    }

    /// The register's port, counted from the control base of the bus.
    #[verifier::when_used_as_spec(spec_offset)]
    pub fn offset(self) -> (o: u16)
        ensures
            o == self.spec_offset(),
            o < 2,
    {
        match self {
            ControlPortRead::AlternateStatusRegister => 0,
            ControlPortRead::DriveAddressRegister => 1,
        }
    }
}

/// The control registers of a bus as they are written.
#[derive(Clone, Copy, PartialEq, Eq, Structural, Debug)]
pub enum ControlPortWrite {
    DeviceControlRegister,
}

impl ControlPortWrite {
    /// The register's port, counted from the control base of the bus.
    pub open spec fn spec_offset(self) -> u16 {
        0
    }

    /// The register's port, counted from the control base of the bus.
    #[verifier::when_used_as_spec(spec_offset)]
    pub fn offset(self) -> (o: u16)
        ensures
            o == self.spec_offset(),
    {
        0
    }
}

/// One of the two buses. Each has eight command and data ports from its base
/// and two control ports from its control base.
#[derive(Clone, Copy, PartialEq, Eq, Structural, Debug)]
pub enum Bus {
    Primary,
    Secondary,
}

impl Bus {
    /// The first of the bus's eight command and data ports.
    pub open spec fn spec_io_base(self) -> u16 {
        match self {
            Bus::Primary => ATA_IO_PORT_PRIMARY,
            Bus::Secondary => ATA_IO_PORT_SECONDARY,
        }
    }

    /// The first of the bus's eight command and data ports.
    #[verifier::when_used_as_spec(spec_io_base)]
    pub fn io_base(self) -> (base: u16)
        ensures
            base == self.spec_io_base(),
            base == 0x1F0 || base == 0x170,
    {
        match self {
            Bus::Primary => ATA_IO_PORT_PRIMARY,
            Bus::Secondary => ATA_IO_PORT_SECONDARY,
        }
    }

    /// The port of the command or data register that stands `offset` ports
    /// above the base.
    pub open spec fn spec_port(self, offset: u16) -> u16 {
        (self.spec_io_base() + offset) as u16
    }

    /// The port of the command or data register that stands `offset` ports
    /// above the base.
    #[verifier::when_used_as_spec(spec_port)]
    pub fn port(self, offset: u16) -> (port: u16)
        requires
            offset < 8,
        ensures
            port == self.spec_port(offset),
            port == self.spec_io_base() + offset,
    {
        self.io_base() + offset
    }

    /// The first of the bus's two control ports.
    pub open spec fn spec_control_base(self) -> u16 {
        match self {
            Bus::Primary => ATA_CONTROL_PORT_PRIMARY,
            Bus::Secondary => ATA_CONTROL_PORT_SECONDARY,
        }
    }

    /// The first of the bus's two control ports.
    #[verifier::when_used_as_spec(spec_control_base)]
    pub fn control_base(self) -> (base: u16)
        ensures
            base == self.spec_control_base(),
            base == 0x3F6 || base == 0x376,
    {
        match self {
            Bus::Primary => ATA_CONTROL_PORT_PRIMARY,
            Bus::Secondary => ATA_CONTROL_PORT_SECONDARY,
        }
    }

    /// The port of the control register that stands `offset` ports above the
    /// control base.
    pub open spec fn spec_control_port(self, offset: u16) -> u16 {
        (self.spec_control_base() + offset) as u16
    }

    /// The port of the control register that stands `offset` ports above the
    /// control base.
    #[verifier::when_used_as_spec(spec_control_port)]
    pub fn control_port(self, offset: u16) -> (port: u16)
        requires
            offset < 2,
        ensures
            port == self.spec_control_port(offset),
            port == self.spec_control_base() + offset,
    {
        self.control_base() + offset
    }
}

/// One access to an I/O port. The engine hands these out; the caller performs
/// them, in the order in which they come.
#[derive(Clone, Copy, PartialEq, Eq, Structural, Debug)]
#[allow(inconsistent_fields)]
pub enum PortOp {
    /// Read one byte from `port`.
    ReadByte { port: u16 },
    /// Write the byte `value` to `port`.
    WriteByte { port: u16, value: u8 },
    /// Read one sixteen-bit word from `port`.
    ReadWord { port: u16 },
    /// Write the sixteen-bit word `value` to `port`.
    WriteWord { port: u16, value: u16 },
}

/// What a [`Driver`] is in contracts.
pub struct DriverView {
    /// The last status sample taken.
    pub status: Status,
    /// The index of the drive that commands select.
    pub disk: u8,
    /// The bus whose ports the accesses go to.
    pub bus: Bus,
    /// What the engine is in the middle of.
    pub job: Job,
}

/// The protocol engine of one bus.
///
/// A method that starts something (`read`, `write`, `identify`, the waits,
/// `read_status`) only sets the job. The caller then performs
/// [`pending`](Driver::pending) and hands the result to
/// [`advance`](Driver::advance), again and again, until nothing is pending.
/// Nothing bounds a wait: a drive that never clears `BSY` is polled for ever.
pub struct Driver {
    status: Status,
    disk: u8,
    bus: Bus,
    job: Job,
}

impl View for Driver {
    type V = DriverView;

    closed spec fn view(&self) -> DriverView {
        DriverView { status: self.status, disk: self.disk, bus: self.bus, job: self.job }
    }
}

impl Driver {
    #[verifier::type_invariant]
    spec fn inv(&self) -> bool {
        self.job.wf()
    }

    /// A driver for drive 0 of the primary bus. Its first job is to take a
    /// status sample; until that is done its status is 0.
    pub fn new() -> (driver: Driver)
        ensures
            driver@ == (DriverView {
                status: Status { val: 0 },
                disk: 0,
                bus: Bus::Primary,
                job: Job::Sample,
            }),
    {
        Driver { status: Status { val: 0 }, disk: 0, bus: Bus::Primary, job: Job::Sample }
    }

    /// Starts a wait for `BSY` to clear: status samples, at least one, until
    /// one has the flag clear.
    pub fn wait_bsy(&mut self)
        requires
            old(self)@.job is Idle,
        ensures
            final(self)@ == (DriverView { job: Job::Poll { until: Wait::NotBusy }, ..old(self)@ }),
    {
        self.job = Job::Poll { until: Wait::NotBusy };
    }

    /// Starts a wait for `DRQ` to be set: status samples, at least one, until
    /// one has the flag set.
    pub fn wait_drq(&mut self)
        requires
            old(self)@.job is Idle,
        ensures
            final(self)@ == (DriverView {
                job: Job::Poll { until: Wait::DataRequest },
                ..old(self)@
            }),
    {
        self.job = Job::Poll { until: Wait::DataRequest };
    }

    /// Starts a wait for `RDY` to be set: status samples, at least one, until
    /// one has the flag set.
    pub fn wait_rdy(&mut self)
        requires
            old(self)@.job is Idle,
        ensures
            final(self)@ == (DriverView { job: Job::Poll { until: Wait::Ready }, ..old(self)@ }),
    {
        self.job = Job::Poll { until: Wait::Ready };
    }

    /// Starts a read of `sector_count` sectors from block `lba` on. The job
    /// waits for `BSY` to clear, writes the command block, and for each sector
    /// waits for `BSY` clear, then for `DRQ` set, then reads the sector's 256
    /// words from the data port into the buffer, sector after sector from the
    /// buffer's start. With a count of 0 it ends after the command block.
    /// [`commands::lemma_read`] gives the whole run.
    pub fn read(&mut self, lba: u32, sector_count: u8)
        requires
            old(self)@.job is Idle,
        ensures
            final(self)@ == (DriverView {
                job: Job::Transfer {
                    transfer: Transfer { command: Command::Read, lba, sector_count },
                    stage: Stage::Settle,
                },
                ..old(self)@
            }),
    {
        self.job = Job::Transfer {
            transfer: Transfer { command: Command::Read, lba, sector_count },
            stage: Stage::Settle,
        };
    }

    /// Starts a write of `sector_count` sectors from block `lba` on. The job
    /// runs as that of [`read`](Driver::read) does, but for each sector writes
    /// 256 words from the buffer to the data port. [`commands::lemma_write`]
    /// gives the whole run.
    pub fn write(&mut self, lba: u32, sector_count: u8)
        requires
            old(self)@.job is Idle,
        ensures
            final(self)@ == (DriverView {
                job: Job::Transfer {
                    transfer: Transfer { command: Command::Write, lba, sector_count },
                    stage: Stage::Settle,
                },
                ..old(self)@
            }),
    {
        self.job = Job::Transfer {
            transfer: Transfer { command: Command::Write, lba, sector_count },
            stage: Stage::Settle,
        };
    }

    /// Starts an identify command and hands out the block for its answer, all
    /// zero. The job writes the command block at once, takes one status
    /// sample, and ends there if that sample is 0: no drive is on the bus, and
    /// the block stays zero. Else it waits for `BSY` clear, then for `DRQ` set,
    /// and reads 256 words into the block. [`commands::lemma_identify`] and
    /// [`protocol::lemma_identify_without_drive`] give the two runs.
    pub fn identify(&mut self) -> (block: [u16; 256])
        requires
            old(self)@.job is Idle,
        ensures
            final(self)@ == (DriverView {
                job: Job::Transfer {
                    transfer: Transfer { command: Command::Identify, lba: 0, sector_count: 0 },
                    stage: Stage::Register { index: 0 },
                },
                ..old(self)@
            }),
            block@ == Seq::new(SECTOR_WORDS as nat, |i: int| 0u16),
    {
        self.job = Job::Transfer {
            transfer: Transfer { command: Command::Identify, lba: 0, sector_count: 0 },
            stage: Stage::Register { index: 0 },
        };
        let block: [u16; 256] = [0;256];
        assert(block@ =~= Seq::new(SECTOR_WORDS as nat, |i: int| 0u16));
        block
    }

    /// The last status sample taken.
    pub fn status(&self) -> (sample: Status)
        ensures
            sample == self@.status,
    {
        self.status
    }

    /// Starts the taking of one status sample.
    pub fn read_status(&mut self)
        requires
            old(self)@.job is Idle,
        ensures
            final(self)@ == (DriverView { job: Job::Sample, ..old(self)@ }),
    {
        self.job = Job::Sample;
    }

    /// The port of the drive address register, which tells which drive is
    /// selected.
    pub fn drive_address_port(&self) -> (port: u16)
        ensures
            port == self@.bus.spec_control_port(
                ControlPortRead::DriveAddressRegister.spec_offset(),
            ),
    {
        self.bus.control_port(ControlPortRead::DriveAddressRegister.offset())
    }

    /// The drive that `drive_addr`, read from the drive address register,
    /// reports as selected: none where its two low bits are clear, else the
    /// two bits as they are.
    pub fn drive_selected(&self, drive_addr: u8) -> (selected: Option<u8>)
        ensures
            selected == if drive_addr & 0x3 == 0 {
                None
            } else {
                Some(drive_addr & 0x3)
            },
    {
        assert((drive_addr & 0x1 == drive_addr & 0x2) == (drive_addr & 0x3 == 0)) by (bit_vector);
        if drive_addr & 0x1 == drive_addr & 0x2 {
            None
        } else {
            Some(drive_addr & 0x3)
        }
    }

    /// Makes `disk` the drive that commands select, and starts the taking of a
    /// status sample.
    pub fn change_disk(&mut self, disk: u8)
        requires
            old(self)@.job is Idle,
        ensures
            final(self)@ == (DriverView { disk, job: Job::Sample, ..old(self)@ }),
    {
        self.disk = disk;
        self.read_status();
    }

    /// The drive that `addr`, read from the drive address register, shows as
    /// the current one: drive 0 where bit 0 is clear, else drive 1 where bit 1
    /// is clear. A byte with both bits set names no drive and is not taken.
    pub fn current_disk(&self, addr: u8) -> (disk: u8)
        requires
            addr & 1 == 0 || addr & 2 == 0,
        ensures
            disk == if addr & 1 == 0 {
                0u8
            } else {
                1u8
            },
    {
        if addr & 1 == 0 {
            0
        } else {
            1
        }
    }

    /// Makes `bus` the bus whose ports the accesses go to.
    pub fn change_bus(&mut self, bus: Bus)
        requires
            old(self)@.job is Idle,
        ensures
            final(self)@ == (DriverView { bus, ..old(self)@ }),
    {
        self.bus = bus;
    }

    /// Whether nothing is pending.
    pub fn is_idle(&self) -> (idle: bool)
        ensures
            idle == (self@.job is Idle),
    {
        match self.job {
            Job::Idle => true,
            _ => false,
        }
    }

    /// What the engine is in the middle of.
    pub fn job(&self) -> (job: Job)
        ensures
            job == self@.job,
            job.wf(),
    {
        proof {
            use_type_invariant(self);
        }
        self.job
    }

    /// The number of words, from its start, that the data buffer of the
    /// current job must hold.
    pub fn span(&self) -> (words: usize)
        ensures
            words == self@.job.spec_span(),
    {
        self.job.span()
    }

    /// The place in the buffer of the word that the pending access sends to
    /// the drive, if it sends one: the buffer must reach that far for
    /// [`pending`](Driver::pending).
    pub fn sends(&self) -> (place: Option<usize>)
        ensures
            place is Some <==> self@.job.spec_sends() is Some,
            place matches Some(at) ==> self@.job.spec_sends() == Some(at as int),
    {
        self.job.sends()
    }

    /// The place in the buffer that takes what the pending access reads from
    /// the drive, if it reads a word of data: the buffer must reach that far
    /// for [`advance`](Driver::advance).
    pub fn fills(&self) -> (place: Option<usize>)
        ensures
            place is Some <==> self@.job.spec_fills() is Some,
            place matches Some(at) ==> self@.job.spec_fills() == Some(at as int),
    {
        self.job.fills()
    }

    /// The access to perform now; none when the job is done. Where the access
    /// sends a word of the buffer, the buffer must hold that word; a buffer
    /// that holds [`span`](Driver::span) words holds every word of the job.
    pub fn pending(&self, buf: &[u16]) -> (op: Option<PortOp>)
        requires
            self@.job.spec_sends() matches Some(at) ==> at < buf@.len(),
        ensures
            op == self@.job.spec_op(self@.bus, self@.disk, buf@),
            op is None <==> self@.job is Idle,
    {
        proof {
            use_type_invariant(self);
        }
        self.job.op(self.bus, self.disk, buf)
    }

    /// Takes note that the pending access is done. `value` is what it read: a
    /// word from the data port, or a byte, in the low half, from any other
    /// port. After a write any value does. A status sample replaces the one
    /// kept; a word of data goes to its place in the buffer, which the buffer
    /// must have.
    pub fn advance(&mut self, value: u16, buf: &mut [u16])
        requires
            old(self)@.job.spec_fills() matches Some(at) ==> at < old(buf)@.len(),
        ensures
            final(self)@ == (DriverView {
                status: if old(self)@.job.spec_samples() {
                    Status { val: job::spec_low_byte(value) }
                } else {
                    old(self)@.status
                },
                job: old(self)@.job.spec_next(value),
                ..old(self)@
            }),
            final(self)@.job.wf(),
            final(buf)@ == old(self)@.job.spec_store(old(buf)@, value),
    {
        proof {
            use_type_invariant(&*self);
        }
        if self.job.samples() {
            self.status = Status { val: job::low_byte(value) };
        }
        self.job = self.job.step(value, buf);
    }
}

} // verus!
