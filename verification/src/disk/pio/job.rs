//! The register protocol as a machine.
//!
//! A [`Job`] is what the engine is in the middle of. It names the one port
//! access that comes next ([`Job::op`]), and from what that access read it
//! gives the job that follows ([`Job::step`]). Every wait is a run of status
//! reads, each deciding anew from a fresh sample.

use super::status::Status;
use super::{
    Bus, IOPortRead, IOPortWrite, PortOp, IDENTIFY_COMMAND, IDENTIFY_SELECT, LBA_MODE,
    READ_COMMAND, SECTOR_WORDS, WRITE_COMMAND,
};
use vstd::prelude::*;

verus! {

/// The byte that a byte-wide port access moved: the low half of the value.
pub open spec fn spec_low_byte(value: u16) -> u8 {
    (value & 0xFF) as u8
}

/// The byte that a byte-wide port access moved: the low half of the value.
#[verifier::when_used_as_spec(spec_low_byte)]
pub fn low_byte(value: u16) -> (byte: u8)
    ensures
        byte == spec_low_byte(value),
{
    assert(value & 0xFF < 0x100) by (bit_vector);
    (value & 0xFF) as u8
}

/// Byte `n` of a block address, byte 0 being the lowest.
pub open spec fn spec_lba_byte(lba: u32, n: u8) -> u8 {
    ((lba >> (8 * n) as u32) & 0xFF) as u8
}

/// Byte `n` of a block address, byte 0 being the lowest.
#[verifier::when_used_as_spec(spec_lba_byte)]
pub fn lba_byte(lba: u32, n: u8) -> (byte: u8)
    requires
        n < 4,
    ensures
        byte == spec_lba_byte(lba, n),
{
    let shift: u32 = (8 * n) as u32;
    assert((lba >> shift) & 0xFF < 0x100) by (bit_vector);
    ((lba >> shift) & 0xFF) as u8
}

/// The byte that selects drive `disk` for a transfer at block `lba`: the drive
/// index from bit 4 up, bits 24 to 27 of the address in the low four bits, and
/// the bit for LBA addressing. Address bits above bit 27 go nowhere.
pub open spec fn spec_drive_select(disk: u8, lba: u32) -> u8 {
    (disk << 4) | (((lba >> 24) & 0xF) as u8) | LBA_MODE
}

/// The byte that selects drive `disk` for a transfer at block `lba`.
#[verifier::when_used_as_spec(spec_drive_select)]
pub fn drive_select(disk: u8, lba: u32) -> (byte: u8)
    ensures
        byte == spec_drive_select(disk, lba),
{
    assert((lba >> 24) & 0xF < 0x10) by (bit_vector);
    let top_byte: u32 = (lba >> 24) & 0xF;
    (disk << 4) | (top_byte as u8) | LBA_MODE
}

/// The byte that selects drive `disk` for an identify command.
pub open spec fn spec_identify_select(disk: u8) -> u8 {
    IDENTIFY_SELECT | (disk << 4)
}

/// The byte that selects drive `disk` for an identify command.
#[verifier::when_used_as_spec(spec_identify_select)]
pub fn identify_select(disk: u8) -> (byte: u8)
    ensures
        byte == spec_identify_select(disk),
{
    IDENTIFY_SELECT | (disk << 4)
}

/// The commands that the engine issues.
#[derive(Clone, Copy, PartialEq, Eq, Structural, Debug)]
pub enum Command {
    Read,
    Write,
    Identify,
}

impl Command {
    /// The byte that goes to the command register.
    pub open spec fn spec_opcode(self) -> u8 {
        match self {
            Command::Read => READ_COMMAND,
            Command::Write => WRITE_COMMAND,
            Command::Identify => IDENTIFY_COMMAND,
        }
    }

    /// The byte that goes to the command register.
    #[verifier::when_used_as_spec(spec_opcode)]
    pub fn opcode(self) -> (code: u8)
        ensures
            code == self.spec_opcode(),
    {
        match self {
            Command::Read => READ_COMMAND,
            Command::Write => WRITE_COMMAND,
            Command::Identify => IDENTIFY_COMMAND,
        }
    }
}

/// What a run of status polls waits for.
#[derive(Clone, Copy, PartialEq, Eq, Structural, Debug)]
pub enum Wait {
    /// Until `BSY` is clear.
    NotBusy,
    /// Until `DRQ` is set.
    DataRequest,
    /// Until `RDY` is set.
    Ready,
}

impl Wait {
    /// Whether the sample ends the wait.
    pub open spec fn spec_met(self, sample: Status) -> bool {
        match self {
            Wait::NotBusy => !sample.busy(),
            Wait::DataRequest => sample.drive_request(),
            Wait::Ready => sample.ready(),
        }
    }

    /// Whether the sample ends the wait.
    #[verifier::when_used_as_spec(spec_met)]
    pub fn met(self, sample: Status) -> (done: bool)
        ensures
            done == self.spec_met(sample),
    {
        match self {
            Wait::NotBusy => !sample.busy(),
            Wait::DataRequest => sample.drive_request(),
            Wait::Ready => sample.ready(),
        }
    }
}

/// One command with its arguments.
#[derive(Clone, Copy, PartialEq, Eq, Structural, Debug)]
pub struct Transfer {
    pub command: Command,
    /// The first block. An identify command has none and leaves this at 0.
    pub lba: u32,
    /// The number of sectors asked for. An identify command asks for none and
    /// still moves one sector of data.
    pub sector_count: u8,
}

/// How far a transfer has come.
#[derive(Clone, Copy, PartialEq, Eq, Structural, Debug)]
pub enum Stage {
    /// Polling until `BSY` is clear, before a read or write command is set up.
    Settle,
    /// About to write register `index` of the command block. Register 5 is the
    /// command register: writing it starts the drive.
    Register { index: u8 },
    /// About to take the one status sample that follows an identify command. A
    /// sample of 0 means that no drive is there.
    Probe,
    /// Polling until `BSY` is clear, before sector `sector` moves.
    SectorBusy { sector: u8 },
    /// Polling until `DRQ` is set, before sector `sector` moves.
    SectorRequest { sector: u8 },
    /// About to move word `word` of sector `sector` through the data port.
    Word { sector: u8, word: u16 },
}

/// What the engine is in the middle of.
#[derive(Clone, Copy, PartialEq, Eq, Structural, Debug)]
pub enum Job {
    /// Nothing: no access is pending.
    Idle,
    /// Taking one status sample.
    Sample,
    /// Taking status samples until one meets `until`.
    Poll { until: Wait },
    /// Running a command.
    Transfer { transfer: Transfer, stage: Stage },
}

impl Transfer {
    /// The number of sectors whose data the command moves.
    pub open spec fn spec_sectors(self) -> nat {
        match self.command {
            Command::Identify => 1,
            _ => self.sector_count as nat,
        }
    }

    /// The number of sectors whose data the command moves.
    pub fn sectors(self) -> (n: u16)
        ensures
            n == self.spec_sectors(),
            n <= 255,
    {
        match self.command {
            Command::Identify => 1,
            _ => self.sector_count as u16,
        }
    }

    /// The transfer at `stage`.
    pub open spec fn spec_at(self, stage: Stage) -> Job {
        Job::Transfer { transfer: self, stage }
    }

    /// The transfer at `stage`.
    #[verifier::when_used_as_spec(spec_at)]
    pub(crate) fn at(self, stage: Stage) -> (job: Job)
        ensures
            job == self.spec_at(stage),
    {
        Job::Transfer { transfer: self, stage }
    }

    /// The job that stands before sector `sector`: the wait for `BSY` to clear
    /// where the command moves that sector, nothing where it does not.
    pub open spec fn spec_before_sector(self, sector: int) -> Job {
        if sector < self.spec_sectors() {
            self.spec_at(Stage::SectorBusy { sector: sector as u8 })
        } else {
            Job::Idle
        }
    }

    /// The job that stands before sector `sector`.
    pub(crate) fn before_sector(self, sector: u16) -> (job: Job)
        requires
            sector <= 255,
        ensures
            job == self.spec_before_sector(sector as int),
    {
        if sector < self.sectors() {
            self.at(Stage::SectorBusy { sector: sector as u8 })
        } else {
            Job::Idle
        }
    }

    /// The job that follows the write of the command register: the probe after
    /// an identify command, the first sector after a read or write command.
    pub open spec fn spec_after_command(self) -> Job {
        match self.command {
            Command::Identify => self.spec_at(Stage::Probe),
            _ => self.spec_before_sector(0),
        }
    }

    /// The job that follows the write of the command register.
    #[verifier::when_used_as_spec(spec_after_command)]
    pub(crate) fn after_command(self) -> (job: Job)
        ensures
            job == self.spec_after_command(),
    {
        match self.command {
            Command::Identify => self.at(Stage::Probe),
            _ => self.before_sector(0),
        }
    }

    /// The write that sets register `index` of the command block: the drive
    /// select, the sector count, the three low bytes of the block address from
    /// the lowest up, and last the command itself. Before an identify command
    /// count and address are zero.
    pub open spec fn spec_register(self, bus: Bus, disk: u8, index: u8) -> PortOp {
        let plain = self.command != Command::Identify;
        if index == 0 {
            PortOp::WriteByte {
                port: bus.spec_port(IOPortWrite::DriveAndHeadRegister.spec_offset()),
                value: if plain {
                    spec_drive_select(disk, self.lba)
                } else {
                    spec_identify_select(disk)
                },
            }
        } else if index == 1 {
            PortOp::WriteByte {
                port: bus.spec_port(IOPortWrite::SectorCountRegister.spec_offset()),
                value: if plain {
                    self.sector_count
                } else {
                    0
                },
            }
        } else if index == 2 {
            PortOp::WriteByte {
                port: bus.spec_port(IOPortRead::LBALow.spec_offset()),
                value: if plain {
                    spec_lba_byte(self.lba, 0)
                } else {
                    0
                },
            }
        } else if index == 3 {
            PortOp::WriteByte {
                port: bus.spec_port(IOPortRead::LBAMid.spec_offset()),
                value: if plain {
                    spec_lba_byte(self.lba, 1)
                } else {
                    0
                },
            }
        } else if index == 4 {
            PortOp::WriteByte {
                port: bus.spec_port(IOPortRead::LBAHigh.spec_offset()),
                value: if plain {
                    spec_lba_byte(self.lba, 2)
                } else {
                    0
                },
            }
        } else {
            PortOp::WriteByte {
                port: bus.spec_port(IOPortWrite::CommandRegister.spec_offset()),
                value: self.command.spec_opcode(),
            }
        }
    }

    /// The write that sets register `index` of the command block.
    #[verifier::when_used_as_spec(spec_register)]
    pub fn register(self, bus: Bus, disk: u8, index: u8) -> (op: PortOp)
        ensures
            op == self.spec_register(bus, disk, index),
    {
        let plain = match self.command {
            Command::Identify => false,
            _ => true,
        };
        if index == 0 {
            PortOp::WriteByte {
                port: bus.port(IOPortWrite::DriveAndHeadRegister.offset()),
                value: if plain {
                    drive_select(disk, self.lba)
                } else {
                    identify_select(disk)
                },
            }
        } else if index == 1 {
            PortOp::WriteByte {
                port: bus.port(IOPortWrite::SectorCountRegister.offset()),
                value: if plain {
                    self.sector_count
                } else {
                    0
                },
            }
        } else if index == 2 {
            PortOp::WriteByte {
                port: bus.port(IOPortRead::LBALow.offset()),
                value: if plain {
                    lba_byte(self.lba, 0)
                } else {
                    0
                },
            }
        } else if index == 3 {
            PortOp::WriteByte {
                port: bus.port(IOPortRead::LBAMid.offset()),
                value: if plain {
                    lba_byte(self.lba, 1)
                } else {
                    0
                },
            }
        } else if index == 4 {
            PortOp::WriteByte {
                port: bus.port(IOPortRead::LBAHigh.offset()),
                value: if plain {
                    lba_byte(self.lba, 2)
                } else {
                    0
                },
            }
        } else {
            PortOp::WriteByte {
                port: bus.port(IOPortWrite::CommandRegister.offset()),
                value: self.command.opcode(),
            }
        }
    }
}

/// Where word `word` of sector `sector` stands in a buffer of whole sectors.
pub open spec fn spec_word_index(sector: u8, word: u16) -> int {
    sector * SECTOR_WORDS + word
}

/// Where word `word` of sector `sector` stands in a buffer of whole sectors.
pub(crate) fn word_index(sector: u8, word: u16) -> (index: usize)
    ensures
        index == spec_word_index(sector, word),
{
    sector as usize * SECTOR_WORDS + word as usize
}

impl Job {
    /// The job holds together: a register of the command block is one of six,
    /// a sector is one that the command moves, a word is one of a sector.
    pub open spec fn wf(self) -> bool {
        match self {
            Job::Transfer { transfer, stage } => match stage {
                Stage::Settle => true,
                Stage::Register { index } => index < 6,
                Stage::Probe => true,
                Stage::SectorBusy { sector } => sector < transfer.spec_sectors(),
                Stage::SectorRequest { sector } => sector < transfer.spec_sectors(),
                Stage::Word { sector, word } => sector < transfer.spec_sectors() && word
                    < SECTOR_WORDS,
            },
            _ => true,
        }
    }

    /// The number of buffer words that belong to the job, from the start of
    /// the buffer: the sectors of its transfer, none where it runs none.
    pub open spec fn spec_span(self) -> nat {
        match self {
            Job::Transfer { transfer, .. } => transfer.spec_sectors() * SECTOR_WORDS as nat,
            _ => 0,
        }
    }

    /// The number of buffer words that belong to the job.
    pub fn span(self) -> (words: usize)
        ensures
            words == self.spec_span(),
    {
        match self {
            Job::Transfer { transfer, .. } => transfer.sectors() as usize * SECTOR_WORDS,
            _ => 0,
        }
    }

    /// Whether the pending access is a read of the status register.
    pub open spec fn spec_samples(self) -> bool {
        match self {
            Job::Idle => false,
            Job::Sample => true,
            Job::Poll { .. } => true,
            Job::Transfer { stage, .. } => match stage {
                Stage::Register { .. } => false,
                Stage::Word { .. } => false,
                _ => true,
            },
        }
    }

    /// Whether the pending access is a read of the status register.
    #[verifier::when_used_as_spec(spec_samples)]
    pub(crate) fn samples(self) -> (sampling: bool)
        ensures
            sampling == self.spec_samples(),
    {
        match self {
            Job::Idle => false,
            Job::Sample => true,
            Job::Poll { .. } => true,
            Job::Transfer { stage, .. } => match stage {
                Stage::Register { .. } => false,
                Stage::Word { .. } => false,
                _ => true,
            },
        }
    }

    /// The access that comes next on `bus` for drive `disk`, with `buf` as the
    /// data buffer; none where the job is idle. A write command takes each
    /// word from the buffer; all else leaves the buffer unread.
    pub open spec fn spec_op(self, bus: Bus, disk: u8, buf: Seq<u16>) -> Option<PortOp> {
        match self {
            Job::Idle => None,
            Job::Transfer { transfer, stage: Stage::Register { index } } => Some(
                transfer.spec_register(bus, disk, index),
            ),
            Job::Transfer { transfer, stage: Stage::Word { sector, word } } => Some(
                if transfer.command == Command::Write {
                    PortOp::WriteWord {
                        port: bus.spec_port(IOPortWrite::DataRegister.spec_offset()),
                        value: buf[spec_word_index(sector, word)],
                    }
                } else {
                    PortOp::ReadWord { port: bus.spec_port(IOPortRead::DataRegister.spec_offset()) }
                },
            ),
            _ => Some(
                PortOp::ReadByte { port: bus.spec_port(IOPortRead::StatusRegister.spec_offset()) },
            ),
        }
    }

    /// The place in the buffer of the word that the pending access sends: the
    /// word's place where the access writes a word of a sector that goes out,
    /// none where it is any other access.
    pub open spec fn spec_sends(self) -> Option<int> {
        match self {
            Job::Transfer { transfer, stage: Stage::Word { sector, word } } => if transfer.command
                == Command::Write {
                Some(spec_word_index(sector, word))
            } else {
                None
            },
            _ => None,
        }
    }

    /// The place in the buffer that takes what the pending access reads: the
    /// word's place where the access reads a word of a sector that comes in,
    /// none where it is any other access.
    pub open spec fn spec_fills(self) -> Option<int> {
        match self {
            Job::Transfer { transfer, stage: Stage::Word { sector, word } } => if transfer.command
                == Command::Write {
                None
            } else {
                Some(spec_word_index(sector, word))
            },
            _ => None,
        }
    }

    /// The place in the buffer of the word that the pending access sends.
    pub(crate) fn sends(self) -> (place: Option<usize>)
        ensures
            place is Some <==> self.spec_sends() is Some,
            place matches Some(at) ==> self.spec_sends() == Some(at as int),
    {
        match self {
            Job::Transfer { transfer, stage: Stage::Word { sector, word } } => {
                match transfer.command {
                    Command::Write => Some(word_index(sector, word)),
                    _ => None,
                }
            },
            _ => None,
        }
    }

    /// The place in the buffer that takes what the pending access reads.
    pub(crate) fn fills(self) -> (place: Option<usize>)
        ensures
            place is Some <==> self.spec_fills() is Some,
            place matches Some(at) ==> self.spec_fills() == Some(at as int),
    {
        match self {
            Job::Transfer { transfer, stage: Stage::Word { sector, word } } => {
                match transfer.command {
                    Command::Write => None,
                    _ => Some(word_index(sector, word)),
                }
            },
            _ => None,
        }
    }

    /// A buffer that holds the words of the job's span holds every word that
    /// the job sends or fills.
    pub proof fn lemma_span_holds_every_word(self, len: nat)
        requires
            self.wf(),
            self.spec_span() <= len,
        ensures
            self.spec_sends() matches Some(at) ==> 0 <= at < len,
            self.spec_fills() matches Some(at) ==> 0 <= at < len,
    {
        if let Job::Transfer { transfer, stage: Stage::Word { sector, word } } = self {
            assert(spec_word_index(sector, word) < transfer.spec_sectors() * SECTOR_WORDS)
                by (nonlinear_arith)
                requires
                    sector < transfer.spec_sectors(),
                    word < SECTOR_WORDS,
            ;
        }
    }

    /// The access that comes next.
    pub(crate) fn op(self, bus: Bus, disk: u8, buf: &[u16]) -> (next: Option<PortOp>)
        requires
            self.spec_sends() matches Some(at) ==> at < buf@.len(),
        ensures
            next == self.spec_op(bus, disk, buf@),
            next is None <==> self is Idle,
    {
        match self {
            Job::Idle => None,
            Job::Transfer { transfer, stage: Stage::Register { index } } => Some(
                transfer.register(bus, disk, index),
            ),
            Job::Transfer { transfer, stage: Stage::Word { sector, word } } => {
                match transfer.command {
                    Command::Write => {
                        Some(
                            PortOp::WriteWord {
                                port: bus.port(IOPortWrite::DataRegister.offset()),
                                value: buf[word_index(sector, word)],
                            },
                        )
                    },
                    _ => Some(
                        PortOp::ReadWord { port: bus.port(IOPortRead::DataRegister.offset()) },
                    ),
                }
            },
            _ => Some(PortOp::ReadByte { port: bus.port(IOPortRead::StatusRegister.offset()) }),
        }
    }

    /// What the job is waiting for, where it is in a wait: a run of status
    /// samples that goes on until one meets the condition.
    pub open spec fn spec_waits_for(self) -> Option<Wait> {
        match self {
            Job::Poll { until } => Some(until),
            Job::Transfer { stage: Stage::Settle, .. } => Some(Wait::NotBusy),
            Job::Transfer { stage: Stage::SectorBusy { .. }, .. } => Some(Wait::NotBusy),
            Job::Transfer { stage: Stage::SectorRequest { .. }, .. } => Some(Wait::DataRequest),
            _ => None,
        }
    }

    /// What the job is waiting for, where it is in a wait.
    #[verifier::when_used_as_spec(spec_waits_for)]
    pub(crate) fn waits_for(self) -> (until: Option<Wait>)
        ensures
            until == self.spec_waits_for(),
    {
        match self {
            Job::Poll { until } => Some(until),
            Job::Transfer { stage: Stage::Settle, .. } => Some(Wait::NotBusy),
            Job::Transfer { stage: Stage::SectorBusy { .. }, .. } => Some(Wait::NotBusy),
            Job::Transfer { stage: Stage::SectorRequest { .. }, .. } => Some(Wait::DataRequest),
            _ => None,
        }
    }

    /// The job that follows a wait once a sample has met it: the command block
    /// after the wait that goes before it, the wait for `DRQ` after a sector's
    /// wait for `BSY`, the sector's first word after its wait for `DRQ`, and
    /// nothing after a wait that stands alone.
    pub open spec fn spec_after_wait(self) -> Job {
        match self {
            Job::Transfer { transfer, stage: Stage::Settle } => transfer.spec_at(
                Stage::Register { index: 0 },
            ),
            Job::Transfer { transfer, stage: Stage::SectorBusy { sector } } => transfer.spec_at(
                Stage::SectorRequest { sector },
            ),
            Job::Transfer { transfer, stage: Stage::SectorRequest { sector } } => transfer.spec_at(
                Stage::Word { sector, word: 0 },
            ),
            _ => Job::Idle,
        }
    }

    /// The job that follows a wait once a sample has met it.
    #[verifier::when_used_as_spec(spec_after_wait)]
    pub(crate) fn after_wait(self) -> (job: Job)
        ensures
            job == self.spec_after_wait(),
    {
        match self {
            Job::Transfer { transfer, stage: Stage::Settle } => transfer.at(
                Stage::Register { index: 0 },
            ),
            Job::Transfer { transfer, stage: Stage::SectorBusy { sector } } => transfer.at(
                Stage::SectorRequest { sector },
            ),
            Job::Transfer { transfer, stage: Stage::SectorRequest { sector } } => transfer.at(
                Stage::Word { sector, word: 0 },
            ),
            _ => Job::Idle,
        }
    }

    /// The job that follows once the pending access is done and, where it was a
    /// read, has returned `value`.
    ///
    /// In a wait the value is a status sample: the wait ends if the sample
    /// meets it and goes on unchanged if not. A lone sample ends the job. A
    /// register of the command block is followed by the next, the command
    /// register by what the command calls for. The probe after an identify
    /// command ends the job on a sample of 0 and else goes on to the sector. A
    /// word is followed by the sector's next word, the last word by the next
    /// sector, the last sector by nothing.
    pub open spec fn spec_next(self, value: u16) -> Job {
        let sample = Status { val: spec_low_byte(value) };
        match self.spec_waits_for() {
            Some(until) => if until.spec_met(sample) {
                self.spec_after_wait()
            } else {
                self
            },
            None => match self {
                Job::Transfer { transfer, stage: Stage::Register { index } } => if index < 5 {
                    transfer.spec_at(Stage::Register { index: (index + 1) as u8 })
                } else {
                    transfer.spec_after_command()
                },
                Job::Transfer { transfer, stage: Stage::Probe } => if sample.val == 0 {
                    Job::Idle
                } else {
                    transfer.spec_before_sector(0)
                },
                Job::Transfer { transfer, stage: Stage::Word { sector, word } } => if word + 1
                    < SECTOR_WORDS {
                    transfer.spec_at(Stage::Word { sector, word: (word + 1) as u16 })
                } else {
                    transfer.spec_before_sector(sector + 1)
                },
                _ => Job::Idle,
            },
        }
    }

    /// The data buffer once the pending access is done and, where it was a
    /// read, has returned `value`: a word read from the data port goes to its
    /// place in its sector, and nothing else changes the buffer.
    pub open spec fn spec_store(self, buf: Seq<u16>, value: u16) -> Seq<u16> {
        match self {
            Job::Transfer { transfer, stage: Stage::Word { sector, word } } => if transfer.command
                == Command::Write {
                buf
            } else {
                buf.update(spec_word_index(sector, word), value)
            },
            _ => buf,
        }
    }

    /// Takes what the pending access read, stores it where it is a word of
    /// data, and gives the job that follows.
    pub(crate) fn step(self, value: u16, buf: &mut [u16]) -> (next: Job)
        requires
            self.wf(),
            self.spec_fills() matches Some(at) ==> at < old(buf)@.len(),
        ensures
            next == self.spec_next(value),
            next.wf(),
            final(buf)@ == self.spec_store(old(buf)@, value),
    {
        let sample = Status { val: low_byte(value) };
        match self.waits_for() {
            Some(until) => if until.met(sample) {
                self.after_wait()
            } else {
                self
            },
            None => match self {
                Job::Transfer { transfer, stage: Stage::Register { index } } => if index < 5 {
                    transfer.at(Stage::Register { index: index + 1 })
                } else {
                    transfer.after_command()
                },
                Job::Transfer { transfer, stage: Stage::Probe } => if sample.val == 0 {
                    Job::Idle
                } else {
                    transfer.before_sector(0)
                },
                Job::Transfer { transfer, stage: Stage::Word { sector, word } } => {
                    match transfer.command {
                        Command::Write => {},
                        _ => {
                            buf[word_index(sector, word)] = value;
                        },
                    }
                    if word + 1 < SECTOR_WORDS as u16 {
                        transfer.at(Stage::Word { sector, word: word + 1 })
                    } else {
                        transfer.before_sector(sector as u16 + 1)
                    }
                },
                _ => Job::Idle,
            },
        }
    }
}

} // verus!
