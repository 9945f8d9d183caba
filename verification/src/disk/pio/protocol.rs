//! What a run of the engine looks like on the wire.
//!
//! A run is a job together with the values that its accesses returned, one
//! value for each access, reads and writes alike. The functions here give the
//! job, the buffer and the accesses of a run; the lemmas say what they are for
//! each stretch of the protocol: a wait, the command block, a sector of data.

use super::job::{
    spec_drive_select, spec_identify_select, spec_lba_byte, spec_low_byte, spec_word_index,
    Command, Job, Stage, Transfer, Wait,
};
use super::status::Status;
use super::{Bus, IOPortRead, PortOp, IDENTIFY_COMMAND, READ_COMMAND, SECTOR_WORDS, WRITE_COMMAND};
use vstd::prelude::*;

verus! {

/// The port of the status register of `bus`, which is its command register too.
pub open spec fn status_port(bus: Bus) -> u16 {
    bus.spec_port(IOPortRead::StatusRegister.spec_offset())
}

/// The port of the data register of `bus`.
pub open spec fn data_port(bus: Bus) -> u16 {
    bus.spec_port(IOPortRead::DataRegister.spec_offset())
}

/// The six writes that set up and start `transfer` on drive `disk` of `bus`.
pub open spec fn command_block(transfer: Transfer, bus: Bus, disk: u8) -> Seq<PortOp> {
    Seq::new(6, |i: int| transfer.spec_register(bus, disk, i as u8))
}

/// `count` reads of the status register of `bus`.
pub open spec fn status_reads(bus: Bus, count: nat) -> Seq<PortOp> {
    Seq::new(count, |i: int| PortOp::ReadByte { port: status_port(bus) })
}

/// The samples are those of one whole wait: the last one meets the wait, and
/// none before it does.
pub open spec fn ends_wait(until: Wait, samples: Seq<u16>) -> bool {
    &&& samples.len() > 0
    &&& forall|i: int|
        0 <= i < samples.len() - 1 ==> !until.spec_met(
            Status { val: spec_low_byte(#[trigger] samples[i]) },
        )
    &&& until.spec_met(Status { val: spec_low_byte(samples.last()) })
}

/// `buf` with the words from `from` on replaced by `words`.
pub open spec fn overlay(buf: Seq<u16>, from: int, words: Seq<u16>) -> Seq<u16> {
    Seq::new(
        buf.len(),
        |i: int|
            if from <= i < from + words.len() {
                words[i - from]
            } else {
                buf[i]
            },
    )
}

impl Job {
    /// The job after a run whose accesses returned `inputs`.
    pub open spec fn after(self, inputs: Seq<u16>) -> Job
        decreases inputs.len(),
    {
        if inputs.len() == 0 {
            self
        } else {
            self.spec_next(inputs[0]).after(inputs.drop_first())
        }
    }

    /// The data buffer after a run whose accesses returned `inputs`.
    pub open spec fn buffer_after(self, buf: Seq<u16>, inputs: Seq<u16>) -> Seq<u16>
        decreases inputs.len(),
    {
        if inputs.len() == 0 {
            buf
        } else {
            self.spec_next(inputs[0]).buffer_after(
                self.spec_store(buf, inputs[0]),
                inputs.drop_first(),
            )
        }
    }

    /// The accesses of a run whose accesses returned `inputs`, in their order.
    /// Where the job ends before the inputs do, so do the accesses.
    pub open spec fn accesses(self, bus: Bus, disk: u8, buf: Seq<u16>, inputs: Seq<u16>) -> Seq<
        PortOp,
    >
        decreases inputs.len(),
    {
        if inputs.len() == 0 || self is Idle {
            Seq::empty()
        } else {
            seq![self.spec_op(bus, disk, buf).unwrap()] + self.spec_next(inputs[0]).accesses(
                bus,
                disk,
                self.spec_store(buf, inputs[0]),
                inputs.drop_first(),
            )
        }
    }
}

/// A run in two parts is the first part and then the second, begun where the
/// first left the job and the buffer.
pub proof fn lemma_run_in_two(
    job: Job,
    bus: Bus,
    disk: u8,
    buf: Seq<u16>,
    first: Seq<u16>,
    second: Seq<u16>,
)
    ensures
        job.after(first + second) == job.after(first).after(second),
        job.buffer_after(buf, first + second) == job.after(first).buffer_after(
            job.buffer_after(buf, first),
            second,
        ),
        job.accesses(bus, disk, buf, first + second) == job.accesses(bus, disk, buf, first)
            + job.after(first).accesses(bus, disk, job.buffer_after(buf, first), second),
    decreases first.len(),
{
    if first.len() == 0 {
        assert(first + second =~= second);
        assert(job.accesses(bus, disk, buf, first) =~= Seq::<PortOp>::empty());
        assert(Seq::<PortOp>::empty() + job.accesses(bus, disk, buf, second)
            =~= job.accesses(bus, disk, buf, second));
    } else {
        let whole = first + second;
        assert(whole[0] == first[0]);
        assert(whole.drop_first() =~= first.drop_first() + second);
        let next = job.spec_next(first[0]);
        let stored = job.spec_store(buf, first[0]);
        lemma_run_in_two(next, bus, disk, stored, first.drop_first(), second);
        if job is Idle {
            lemma_idle_stays(first);
            assert(job.accesses(bus, disk, buf, whole) =~= Seq::<PortOp>::empty());
            assert(job.after(first).accesses(bus, disk, job.buffer_after(buf, first), second)
                =~= Seq::<PortOp>::empty());
        } else {
            let head = seq![job.spec_op(bus, disk, buf).unwrap()];
            let a = next.accesses(bus, disk, stored, first.drop_first());
            let b = next.after(first.drop_first()).accesses(
                bus,
                disk,
                next.buffer_after(stored, first.drop_first()),
                second,
            );
            assert(head + (a + b) =~= (head + a) + b);
        }
    }
}

/// Once nothing is pending, nothing comes to be pending.
pub proof fn lemma_idle_stays(inputs: Seq<u16>)
    ensures
        Job::Idle.after(inputs) == Job::Idle,
    decreases inputs.len(),
{
    if inputs.len() > 0 {
        lemma_idle_stays(inputs.drop_first());
    }
}

/// A wait is a run of status reads that ends with the first sample that meets
/// it. However many samples it takes, the wait changes nothing in the buffer,
/// and after it comes what follows the wait.
pub proof fn lemma_wait(job: Job, bus: Bus, disk: u8, buf: Seq<u16>, samples: Seq<u16>)
    requires
        job.spec_waits_for() is Some,
        ends_wait(job.spec_waits_for().unwrap(), samples),
    ensures
        job.after(samples) == job.spec_after_wait(),
        job.buffer_after(buf, samples) == buf,
        job.accesses(bus, disk, buf, samples) == status_reads(bus, samples.len()),
    decreases samples.len(),
{
    let until = job.spec_waits_for().unwrap();
    let reads = status_reads(bus, samples.len());
    let rest = samples.drop_first();
    assert(job.spec_op(bus, disk, buf) == Some(PortOp::ReadByte { port: status_port(bus) }));
    assert(job.spec_store(buf, samples[0]) == buf);
    if samples.len() == 1 {
        let next = job.spec_after_wait();
        assert(samples[0] == samples.last());
        assert(next.after(rest) == next);
        assert(next.buffer_after(buf, rest) == buf);
        assert(next.accesses(bus, disk, buf, rest) =~= Seq::<PortOp>::empty());
        assert(job.accesses(bus, disk, buf, samples) =~= reads);
    } else {
        assert(job.spec_next(samples[0]) == job);
        assert(rest.last() == samples.last());
        assert forall|i: int| 0 <= i < rest.len() - 1 implies !until.spec_met(
            Status { val: spec_low_byte(#[trigger] rest[i]) },
        ) by {
            assert(rest[i] == samples[i + 1]);
        }
        lemma_wait(job, bus, disk, buf, rest);
        assert(job.accesses(bus, disk, buf, samples) =~= reads);
    }
}

/// While no sample meets a wait, the wait goes on: the job stays as it is.
pub proof fn lemma_wait_goes_on(job: Job, samples: Seq<u16>)
    requires
        job.spec_waits_for() is Some,
        forall|i: int|
            0 <= i < samples.len() ==> !job.spec_waits_for().unwrap().spec_met(
                Status { val: spec_low_byte(#[trigger] samples[i]) },
            ),
    ensures
        job.after(samples) == job,
    decreases samples.len(),
{
    if samples.len() > 0 {
        let rest = samples.drop_first();
        assert forall|i: int| 0 <= i < rest.len() implies !job.spec_waits_for().unwrap().spec_met(
            Status { val: spec_low_byte(#[trigger] rest[i]) },
        ) by {
            assert(rest[i] == samples[i + 1]);
        }
        lemma_wait_goes_on(job, rest);
    }
}

proof fn lemma_registers_from(
    transfer: Transfer,
    index: u8,
    bus: Bus,
    disk: u8,
    buf: Seq<u16>,
    inputs: Seq<u16>,
)
    requires
        index < 6,
        inputs.len() == 6 - index,
    ensures
        transfer.spec_at(Stage::Register { index }).after(inputs) == transfer.spec_after_command(),
        transfer.spec_at(Stage::Register { index }).buffer_after(buf, inputs) == buf,
        transfer.spec_at(Stage::Register { index }).accesses(bus, disk, buf, inputs) == Seq::new(
            (6 - index) as nat,
            |i: int| transfer.spec_register(bus, disk, (index + i) as u8),
        ),
    decreases 6 - index,
{
    let job = transfer.spec_at(Stage::Register { index });
    let rest = inputs.drop_first();
    let writes = Seq::new(
        (6 - index) as nat,
        |i: int| transfer.spec_register(bus, disk, (index + i) as u8),
    );
    assert(job.spec_store(buf, inputs[0]) == buf);
    if index == 5 {
        let next = transfer.spec_after_command();
        assert(next.after(rest) == next);
        assert(next.buffer_after(buf, rest) == buf);
        assert(next.accesses(bus, disk, buf, rest) =~= Seq::<PortOp>::empty());
        assert(job.accesses(bus, disk, buf, inputs) =~= writes);
    } else {
        let next = (index + 1) as u8;
        assert(job.spec_next(inputs[0]) == transfer.spec_at(Stage::Register { index: next }));
        lemma_registers_from(transfer, next, bus, disk, buf, rest);
        assert(job.accesses(bus, disk, buf, inputs) =~= writes);
    }
}

/// The command block is six writes in a fixed order, whatever the drive does
/// meanwhile, and the buffer has no part in it. After the sixth, which starts
/// the drive, comes what the command calls for.
pub proof fn lemma_command_block(
    transfer: Transfer,
    bus: Bus,
    disk: u8,
    buf: Seq<u16>,
    inputs: Seq<u16>,
)
    requires
        inputs.len() == 6,
    ensures
        transfer.spec_at(Stage::Register { index: 0 }).after(inputs)
            == transfer.spec_after_command(),
        transfer.spec_at(Stage::Register { index: 0 }).buffer_after(buf, inputs) == buf,
        transfer.spec_at(Stage::Register { index: 0 }).accesses(bus, disk, buf, inputs)
            == command_block(transfer, bus, disk),
{
    lemma_registers_from(transfer, 0, bus, disk, buf, inputs);
    assert(Seq::new(6, |i: int| transfer.spec_register(bus, disk, (0 + i) as u8))
        =~= command_block(transfer, bus, disk));
}

/// The command block of a read or a write, register by register: the drive
/// select, the sector count, the block address from its lowest byte up, and
/// the opcode.
pub proof fn lemma_command_block_of_transfer(transfer: Transfer, bus: Bus, disk: u8)
    requires
        transfer.command != Command::Identify,
    ensures
        command_block(transfer, bus, disk) == seq![
            PortOp::WriteByte {
                port: (bus.spec_io_base() + 6) as u16,
                value: spec_drive_select(disk, transfer.lba),
            },
            PortOp::WriteByte {
                port: (bus.spec_io_base() + 2) as u16,
                value: transfer.sector_count,
            },
            PortOp::WriteByte {
                port: (bus.spec_io_base() + 3) as u16,
                value: (transfer.lba & 0xFF) as u8,
            },
            PortOp::WriteByte {
                port: (bus.spec_io_base() + 4) as u16,
                value: ((transfer.lba >> 8) & 0xFF) as u8,
            },
            PortOp::WriteByte {
                port: (bus.spec_io_base() + 5) as u16,
                value: ((transfer.lba >> 16) & 0xFF) as u8,
            },
            PortOp::WriteByte {
                port: (bus.spec_io_base() + 7) as u16,
                value: if transfer.command == Command::Read {
                    READ_COMMAND
                } else {
                    WRITE_COMMAND
                },
            },
        ],
{
    let lba = transfer.lba;
    assert(spec_lba_byte(lba, 0) == (lba & 0xFF) as u8 && spec_lba_byte(lba, 1) == ((lba >> 8)
        & 0xFF) as u8 && spec_lba_byte(lba, 2) == ((lba >> 16) & 0xFF) as u8) by {
        assert(lba >> 0u32 == lba) by (bit_vector);
    }
    let block = command_block(transfer, bus, disk);
    assert(block[0] == transfer.spec_register(bus, disk, 0));
    assert(block[1] == transfer.spec_register(bus, disk, 1));
    assert(block[2] == transfer.spec_register(bus, disk, 2));
    assert(block[3] == transfer.spec_register(bus, disk, 3));
    assert(block[4] == transfer.spec_register(bus, disk, 4));
    assert(block[5] == transfer.spec_register(bus, disk, 5));
}

/// The command block of an identify command, register by register: the drive
/// select, zero for the count and for each byte of the address, and the
/// opcode.
pub proof fn lemma_command_block_of_identify(transfer: Transfer, bus: Bus, disk: u8)
    requires
        transfer.command == Command::Identify,
    ensures
        command_block(transfer, bus, disk) == seq![
            PortOp::WriteByte {
                port: (bus.spec_io_base() + 6) as u16,
                value: spec_identify_select(disk),
            },
            PortOp::WriteByte { port: (bus.spec_io_base() + 2) as u16, value: 0 },
            PortOp::WriteByte { port: (bus.spec_io_base() + 3) as u16, value: 0 },
            PortOp::WriteByte { port: (bus.spec_io_base() + 4) as u16, value: 0 },
            PortOp::WriteByte { port: (bus.spec_io_base() + 5) as u16, value: 0 },
            PortOp::WriteByte { port: (bus.spec_io_base() + 7) as u16, value: IDENTIFY_COMMAND },
        ],
{
    let block = command_block(transfer, bus, disk);
    assert(block[0] == transfer.spec_register(bus, disk, 0));
    assert(block[1] == transfer.spec_register(bus, disk, 1));
    assert(block[2] == transfer.spec_register(bus, disk, 2));
    assert(block[3] == transfer.spec_register(bus, disk, 3));
    assert(block[4] == transfer.spec_register(bus, disk, 4));
    assert(block[5] == transfer.spec_register(bus, disk, 5));
}

proof fn lemma_words_in_from(
    transfer: Transfer,
    sector: u8,
    word: u16,
    bus: Bus,
    disk: u8,
    buf: Seq<u16>,
    words: Seq<u16>,
)
    requires
        transfer.command != Command::Write,
        sector < transfer.spec_sectors(),
        word < SECTOR_WORDS,
        words.len() == SECTOR_WORDS - word,
        (sector + 1) * SECTOR_WORDS <= buf.len(),
    ensures
        transfer.spec_at(Stage::Word { sector, word }).after(words) == transfer.spec_before_sector(
            sector + 1,
        ),
        transfer.spec_at(Stage::Word { sector, word }).buffer_after(buf, words) == overlay(
            buf,
            spec_word_index(sector, word),
            words,
        ),
        transfer.spec_at(Stage::Word { sector, word }).accesses(bus, disk, buf, words) == Seq::new(
            words.len(),
            |i: int| PortOp::ReadWord { port: data_port(bus) },
        ),
    decreases SECTOR_WORDS - word,
{
    let job = transfer.spec_at(Stage::Word { sector, word });
    let rest = words.drop_first();
    let at = spec_word_index(sector, word);
    let stored = buf.update(at, words[0]);
    let reads = Seq::new(words.len(), |i: int| PortOp::ReadWord { port: data_port(bus) });
    assert(job.spec_store(buf, words[0]) == stored);
    assert(job.spec_op(bus, disk, buf) == Some(PortOp::ReadWord { port: data_port(bus) }));
    if word + 1 == SECTOR_WORDS {
        let next = transfer.spec_before_sector(sector + 1);
        assert(next.after(rest) == next);
        assert(next.buffer_after(stored, rest) == stored);
        assert(next.accesses(bus, disk, stored, rest) =~= Seq::<PortOp>::empty());
        assert(stored =~= overlay(buf, at, words));
        assert(job.accesses(bus, disk, buf, words) =~= reads);
    } else {
        let next = (word + 1) as u16;
        assert(job.spec_next(words[0]) == transfer.spec_at(Stage::Word { sector, word: next }));
        lemma_words_in_from(transfer, sector, next, bus, disk, stored, rest);
        assert(overlay(stored, at + 1, rest) =~= overlay(buf, at, words));
        assert(job.accesses(bus, disk, buf, words) =~= reads);
    }
}

/// A sector that comes in is 256 reads of the data port, and the words go to
/// the sector's place in the buffer in the order in which they came. Nothing
/// else in the buffer changes. After the last word comes the wait before the
/// next sector, or nothing if this sector was the last.
pub proof fn lemma_sector_in(
    transfer: Transfer,
    sector: u8,
    bus: Bus,
    disk: u8,
    buf: Seq<u16>,
    words: Seq<u16>,
)
    requires
        transfer.command != Command::Write,
        sector < transfer.spec_sectors(),
        words.len() == SECTOR_WORDS,
        (sector + 1) * SECTOR_WORDS <= buf.len(),
    ensures
        transfer.spec_at(Stage::Word { sector, word: 0 }).after(words)
            == transfer.spec_before_sector(sector + 1),
        transfer.spec_at(Stage::Word { sector, word: 0 }).buffer_after(buf, words) == overlay(
            buf,
            sector * SECTOR_WORDS,
            words,
        ),
        transfer.spec_at(Stage::Word { sector, word: 0 }).accesses(bus, disk, buf, words)
            == Seq::new(SECTOR_WORDS as nat, |i: int| PortOp::ReadWord { port: data_port(bus) }),
{
    lemma_words_in_from(transfer, sector, 0, bus, disk, buf, words);
}

proof fn lemma_words_out_from(
    transfer: Transfer,
    sector: u8,
    word: u16,
    bus: Bus,
    disk: u8,
    buf: Seq<u16>,
    inputs: Seq<u16>,
)
    requires
        transfer.command == Command::Write,
        sector < transfer.spec_sectors(),
        word < SECTOR_WORDS,
        inputs.len() == SECTOR_WORDS - word,
    ensures
        transfer.spec_at(Stage::Word { sector, word }).after(inputs) == transfer.spec_before_sector(
            sector + 1,
        ),
        transfer.spec_at(Stage::Word { sector, word }).buffer_after(buf, inputs) == buf,
        transfer.spec_at(Stage::Word { sector, word }).accesses(bus, disk, buf, inputs) == Seq::new(
            inputs.len(),
            |i: int|
                PortOp::WriteWord {
                    port: data_port(bus),
                    value: buf[spec_word_index(sector, word) + i],
                },
        ),
    decreases SECTOR_WORDS - word,
{
    let job = transfer.spec_at(Stage::Word { sector, word });
    let rest = inputs.drop_first();
    let at = spec_word_index(sector, word);
    let writes = Seq::new(
        inputs.len(),
        |i: int| PortOp::WriteWord { port: data_port(bus), value: buf[at + i] },
    );
    assert(job.spec_store(buf, inputs[0]) == buf);
    assert(job.spec_op(bus, disk, buf) == Some(
        PortOp::WriteWord { port: data_port(bus), value: buf[at] },
    ));
    if word + 1 == SECTOR_WORDS {
        let next = transfer.spec_before_sector(sector + 1);
        assert(next.after(rest) == next);
        assert(next.buffer_after(buf, rest) == buf);
        assert(next.accesses(bus, disk, buf, rest) =~= Seq::<PortOp>::empty());
        assert(job.accesses(bus, disk, buf, inputs) =~= writes);
    } else {
        let next = (word + 1) as u16;
        assert(job.spec_next(inputs[0]) == transfer.spec_at(Stage::Word { sector, word: next }));
        lemma_words_out_from(transfer, sector, next, bus, disk, buf, rest);
        assert(job.accesses(bus, disk, buf, inputs) =~= writes);
    }
}

/// A sector that goes out is 256 writes to the data port: the words of the
/// sector's place in the buffer, in their order. The buffer stays as it is.
/// After the last word comes the wait before the next sector, or nothing if
/// this sector was the last.
pub proof fn lemma_sector_out(
    transfer: Transfer,
    sector: u8,
    bus: Bus,
    disk: u8,
    buf: Seq<u16>,
    inputs: Seq<u16>,
)
    requires
        transfer.command == Command::Write,
        sector < transfer.spec_sectors(),
        inputs.len() == SECTOR_WORDS,
    ensures
        transfer.spec_at(Stage::Word { sector, word: 0 }).after(inputs)
            == transfer.spec_before_sector(sector + 1),
        transfer.spec_at(Stage::Word { sector, word: 0 }).buffer_after(buf, inputs) == buf,
        transfer.spec_at(Stage::Word { sector, word: 0 }).accesses(bus, disk, buf, inputs)
            == Seq::new(
            SECTOR_WORDS as nat,
            |i: int|
                PortOp::WriteWord { port: data_port(bus), value: buf[sector * SECTOR_WORDS + i] },
        ),
{
    lemma_words_out_from(transfer, sector, 0, bus, disk, buf, inputs);
    assert(Seq::new(
        SECTOR_WORDS as nat,
        |i: int|
            PortOp::WriteWord {
                port: data_port(bus),
                value: buf[spec_word_index(sector, 0) + i],
            },
    ) =~= Seq::new(
        SECTOR_WORDS as nat,
        |i: int| PortOp::WriteWord { port: data_port(bus), value: buf[sector * SECTOR_WORDS + i] },
    ));
}

/// An identify command that no drive answers: the status sample taken right
/// after the command block is 0, and with it the job ends. Its accesses are the
/// command block and that one sample; no wait is entered, no word is read, and
/// the buffer is as it was.
pub proof fn lemma_identify_without_drive(
    transfer: Transfer,
    bus: Bus,
    disk: u8,
    buf: Seq<u16>,
    inputs: Seq<u16>,
)
    requires
        transfer.command == Command::Identify,
        inputs.len() == 7,
        spec_low_byte(inputs[6]) == 0,
    ensures
        transfer.spec_at(Stage::Register { index: 0 }).after(inputs) == Job::Idle,
        transfer.spec_at(Stage::Register { index: 0 }).buffer_after(buf, inputs) == buf,
        transfer.spec_at(Stage::Register { index: 0 }).accesses(bus, disk, buf, inputs)
            == command_block(transfer, bus, disk) + seq![
            PortOp::ReadByte { port: status_port(bus) },
        ],
{
    let job = transfer.spec_at(Stage::Register { index: 0 });
    let block = inputs.subrange(0, 6);
    let probe = inputs.subrange(6, 7);
    assert(inputs =~= block + probe);
    lemma_command_block(transfer, bus, disk, buf, block);
    lemma_run_in_two(job, bus, disk, buf, block, probe);
    let probing = transfer.spec_at(Stage::Probe);
    let done = probe.drop_first();
    assert(probe[0] == inputs[6]);
    assert(probing.spec_next(probe[0]) == Job::Idle);
    assert(Job::Idle.after(done) == Job::Idle);
    assert(Job::Idle.buffer_after(buf, done) == buf);
    assert(Job::Idle.accesses(bus, disk, buf, done) =~= Seq::<PortOp>::empty());
    assert(probing.accesses(bus, disk, buf, probe) =~= seq![
        PortOp::ReadByte { port: status_port(bus) },
    ]);
}

/// A read or a write of no sectors ends with its command block. The drive is
/// started all the same, and no word moves.
pub proof fn lemma_no_sectors(
    transfer: Transfer,
    bus: Bus,
    disk: u8,
    buf: Seq<u16>,
    inputs: Seq<u16>,
)
    requires
        transfer.command != Command::Identify,
        transfer.sector_count == 0,
        inputs.len() == 6,
    ensures
        transfer.spec_at(Stage::Register { index: 0 }).after(inputs) == Job::Idle,
        transfer.spec_at(Stage::Register { index: 0 }).buffer_after(buf, inputs) == buf,
        transfer.spec_at(Stage::Register { index: 0 }).accesses(bus, disk, buf, inputs)
            == command_block(transfer, bus, disk),
{
    lemma_command_block(transfer, bus, disk, buf, inputs);
}

/// Of a block address only the low 28 bits reach the drive: the bits above
/// them are in no byte of the command block.
pub proof fn lemma_lba_is_cut_to_28_bits(transfer: Transfer, bus: Bus, disk: u8)
    ensures
        command_block(transfer, bus, disk) == command_block(
            Transfer { lba: transfer.lba & 0x0FFF_FFFF, ..transfer },
            bus,
            disk,
        ),
{
    let lba = transfer.lba;
    let cut = Transfer { lba: lba & 0x0FFF_FFFF, ..transfer };
    assert((lba >> 24) & 0xF == ((lba & 0x0FFF_FFFF) >> 24) & 0xF) by (bit_vector);
    assert((lba >> 0u32) & 0xFF == ((lba & 0x0FFF_FFFF) >> 0u32) & 0xFF) by (bit_vector);
    assert((lba >> 8u32) & 0xFF == ((lba & 0x0FFF_FFFF) >> 8u32) & 0xFF) by (bit_vector);
    assert((lba >> 16u32) & 0xFF == ((lba & 0x0FFF_FFFF) >> 16u32) & 0xFF) by (bit_vector);
    assert(spec_drive_select(disk, lba) == spec_drive_select(disk, cut.lba));
    assert(spec_lba_byte(lba, 0) == spec_lba_byte(cut.lba, 0));
    assert(spec_lba_byte(lba, 1) == spec_lba_byte(cut.lba, 1));
    assert(spec_lba_byte(lba, 2) == spec_lba_byte(cut.lba, 2));
    assert(command_block(transfer, bus, disk) =~= command_block(cut, bus, disk));
}

} // verus!
