//! Whole commands, from the first access to the last.
//!
//! What a drive answers during a command is cut into the parts in which the
//! engine uses it: the samples of each wait, the values after the writes of
//! the command block, and for each sector the samples of its two waits and its
//! 256 words. For answers of that shape the lemmas give the whole run: every
//! access in order, the buffer at the end, and that the job is done.

use super::job::{Command, Job, Stage, Transfer, Wait};
use super::protocol::{
    command_block, data_port, ends_wait, lemma_command_block, lemma_run_in_two, lemma_sector_in,
    lemma_sector_out, lemma_wait, overlay, status_reads,
};
use super::{Bus, PortOp, SECTOR_WORDS};
use vstd::prelude::*;

verus! {

/// What the accesses returned while one sector moved.
pub struct SectorReplies {
    /// The status samples of the wait for `BSY` to clear.
    pub busy: Seq<u16>,
    /// The status samples of the wait for `DRQ` to be set.
    pub request: Seq<u16>,
    /// What the 256 accesses to the data port returned: on a read the words of
    /// the sector, on a write nothing of meaning.
    pub words: Seq<u16>,
}

impl SectorReplies {
    /// Both waits end, each with its last sample, and there is a value for
    /// each word.
    pub open spec fn wf(self) -> bool {
        &&& ends_wait(Wait::NotBusy, self.busy)
        &&& ends_wait(Wait::DataRequest, self.request)
        &&& self.words.len() == SECTOR_WORDS
    }

    /// The replies in the order in which the accesses returned them.
    pub open spec fn inputs(self) -> Seq<u16> {
        self.busy + self.request + self.words
    }

    /// The accesses of a sector that comes in: the samples of the two waits,
    /// then 256 reads of the data port.
    pub open spec fn reads(self, bus: Bus) -> Seq<PortOp> {
        status_reads(bus, self.busy.len()) + status_reads(bus, self.request.len()) + Seq::new(
            SECTOR_WORDS as nat,
            |i: int| PortOp::ReadWord { port: data_port(bus) },
        )
    }

    /// The accesses of a sector that goes out with the words `data`: the
    /// samples of the two waits, then the words, written to the data port in
    /// their order.
    pub open spec fn writes(self, bus: Bus, data: Seq<u16>) -> Seq<PortOp> {
        status_reads(bus, self.busy.len()) + status_reads(bus, self.request.len()) + Seq::new(
            SECTOR_WORDS as nat,
            |i: int| PortOp::WriteWord { port: data_port(bus), value: data[i] },
        )
    }
}

/// Each sector's replies hold together.
pub open spec fn all_wf(sectors: Seq<SectorReplies>) -> bool {
    forall|i: int| 0 <= i < sectors.len() ==> (#[trigger] sectors[i]).wf()
}

/// The replies of all the sectors, in the order in which the accesses
/// returned them.
pub open spec fn all_inputs(sectors: Seq<SectorReplies>) -> Seq<u16>
    decreases sectors.len(),
{
    if sectors.len() == 0 {
        Seq::empty()
    } else {
        sectors[0].inputs() + all_inputs(sectors.drop_first())
    }
}

/// The words of all the sectors, sector after sector.
pub open spec fn all_words(sectors: Seq<SectorReplies>) -> Seq<u16>
    decreases sectors.len(),
{
    if sectors.len() == 0 {
        Seq::empty()
    } else {
        sectors[0].words + all_words(sectors.drop_first())
    }
}

/// The accesses of sectors that come in, sector after sector.
pub open spec fn all_reads(sectors: Seq<SectorReplies>, bus: Bus) -> Seq<PortOp>
    decreases sectors.len(),
{
    if sectors.len() == 0 {
        Seq::empty()
    } else {
        sectors[0].reads(bus) + all_reads(sectors.drop_first(), bus)
    }
}

/// The accesses of sectors that go out with the words `data`, sector after
/// sector.
pub open spec fn all_writes(sectors: Seq<SectorReplies>, bus: Bus, data: Seq<u16>) -> Seq<PortOp>
    decreases sectors.len(),
{
    if sectors.len() == 0 {
        Seq::empty()
    } else {
        sectors[0].writes(bus, data) + all_writes(
            sectors.drop_first(),
            bus,
            data.skip(SECTOR_WORDS as int),
        )
    }
}

/// The words that the accesses wrote to a data port, in their order.
pub open spec fn data_written(accesses: Seq<PortOp>) -> Seq<u16>
    decreases accesses.len(),
{
    if accesses.len() == 0 {
        Seq::empty()
    } else {
        match accesses[0] {
            PortOp::WriteWord { value, .. } => seq![value] + data_written(accesses.drop_first()),
            _ => data_written(accesses.drop_first()),
        }
    }
}

/// The sectors of whole replies hold 256 words each.
pub proof fn lemma_all_words_len(sectors: Seq<SectorReplies>)
    requires
        all_wf(sectors),
    ensures
        all_words(sectors).len() == sectors.len() * SECTOR_WORDS,
    decreases sectors.len(),
{
    if sectors.len() > 0 {
        assert(sectors[0].wf());
        let rest = sectors.drop_first();
        assert forall|i: int| 0 <= i < rest.len() implies (#[trigger] rest[i]).wf() by {
            assert(rest[i] == sectors[i + 1]);
        }
        lemma_all_words_len(rest);
    }
}

proof fn lemma_one_sector_in(
    transfer: Transfer,
    sector: u8,
    replies: SectorReplies,
    bus: Bus,
    disk: u8,
    buf: Seq<u16>,
)
    requires
        transfer.command != Command::Write,
        sector < transfer.spec_sectors(),
        replies.wf(),
        (sector + 1) * SECTOR_WORDS <= buf.len(),
    ensures
        transfer.spec_at(Stage::SectorBusy { sector }).after(replies.inputs())
            == transfer.spec_before_sector(sector + 1),
        transfer.spec_at(Stage::SectorBusy { sector }).buffer_after(buf, replies.inputs())
            == overlay(buf, sector * SECTOR_WORDS, replies.words),
        transfer.spec_at(Stage::SectorBusy { sector }).accesses(bus, disk, buf, replies.inputs())
            == replies.reads(bus),
{
    let busy = transfer.spec_at(Stage::SectorBusy { sector });
    let request = transfer.spec_at(Stage::SectorRequest { sector });
    lemma_wait(busy, bus, disk, buf, replies.busy);
    lemma_wait(request, bus, disk, buf, replies.request);
    lemma_sector_in(transfer, sector, bus, disk, buf, replies.words);
    lemma_run_in_two(busy, bus, disk, buf, replies.busy, replies.request);
    lemma_run_in_two(busy, bus, disk, buf, replies.busy + replies.request, replies.words);
}

proof fn lemma_one_sector_out(
    transfer: Transfer,
    sector: u8,
    replies: SectorReplies,
    bus: Bus,
    disk: u8,
    buf: Seq<u16>,
)
    requires
        transfer.command == Command::Write,
        sector < transfer.spec_sectors(),
        replies.wf(),
        (sector + 1) * SECTOR_WORDS <= buf.len(),
    ensures
        transfer.spec_at(Stage::SectorBusy { sector }).after(replies.inputs())
            == transfer.spec_before_sector(sector + 1),
        transfer.spec_at(Stage::SectorBusy { sector }).buffer_after(buf, replies.inputs()) == buf,
        transfer.spec_at(Stage::SectorBusy { sector }).accesses(bus, disk, buf, replies.inputs())
            == replies.writes(bus, buf.skip(sector * SECTOR_WORDS)),
{
    let busy = transfer.spec_at(Stage::SectorBusy { sector });
    let request = transfer.spec_at(Stage::SectorRequest { sector });
    lemma_wait(busy, bus, disk, buf, replies.busy);
    lemma_wait(request, bus, disk, buf, replies.request);
    lemma_sector_out(transfer, sector, bus, disk, buf, replies.words);
    lemma_run_in_two(busy, bus, disk, buf, replies.busy, replies.request);
    lemma_run_in_two(busy, bus, disk, buf, replies.busy + replies.request, replies.words);
    let data = buf.skip(sector * SECTOR_WORDS);
    assert(Seq::new(
        SECTOR_WORDS as nat,
        |i: int| PortOp::WriteWord { port: data_port(bus), value: buf[sector * SECTOR_WORDS + i] },
    ) =~= Seq::new(
        SECTOR_WORDS as nat,
        |i: int| PortOp::WriteWord { port: data_port(bus), value: data[i] },
    ));
}

/// The sectors of a read, or the one sector of an identify command, from
/// sector `first` on: for each sector the two waits and then its words, which
/// go to the buffer sector after sector. With the last word the job is done.
pub proof fn lemma_sectors_in(
    transfer: Transfer,
    first: int,
    sectors: Seq<SectorReplies>,
    bus: Bus,
    disk: u8,
    buf: Seq<u16>,
)
    requires
        transfer.command != Command::Write,
        0 <= first,
        first + sectors.len() == transfer.spec_sectors(),
        all_wf(sectors),
        transfer.spec_sectors() * SECTOR_WORDS <= buf.len(),
    ensures
        transfer.spec_before_sector(first).after(all_inputs(sectors)) == Job::Idle,
        transfer.spec_before_sector(first).buffer_after(buf, all_inputs(sectors)) == overlay(
            buf,
            first * SECTOR_WORDS,
            all_words(sectors),
        ),
        transfer.spec_before_sector(first).accesses(bus, disk, buf, all_inputs(sectors))
            == all_reads(sectors, bus),
    decreases sectors.len(),
{
    let job = transfer.spec_before_sector(first);
    if sectors.len() == 0 {
        assert(overlay(buf, first * SECTOR_WORDS, all_words(sectors)) =~= buf);
        assert(job.accesses(bus, disk, buf, all_inputs(sectors)) =~= all_reads(sectors, bus));
    } else {
        let replies = sectors[0];
        let rest = sectors.drop_first();
        let sector = first as u8;
        assert(replies.wf());
        assert forall|i: int| 0 <= i < rest.len() implies (#[trigger] rest[i]).wf() by {
            assert(rest[i] == sectors[i + 1]);
        }
        assert((sector + 1) * SECTOR_WORDS <= buf.len()) by (nonlinear_arith)
            requires
                sector + 1 <= transfer.spec_sectors(),
                transfer.spec_sectors() * SECTOR_WORDS <= buf.len(),
        ;
        lemma_one_sector_in(transfer, sector, replies, bus, disk, buf);
        let filled = overlay(buf, first * SECTOR_WORDS, replies.words);
        lemma_sectors_in(transfer, first + 1, rest, bus, disk, filled);
        lemma_run_in_two(job, bus, disk, buf, replies.inputs(), all_inputs(rest));
        lemma_all_words_len(rest);
        assert(overlay(filled, (first + 1) * SECTOR_WORDS, all_words(rest)) =~= overlay(
            buf,
            first * SECTOR_WORDS,
            all_words(sectors),
        )) by {
            assert((first + 1) * SECTOR_WORDS == first * SECTOR_WORDS + SECTOR_WORDS)
                by (nonlinear_arith);
        }
    }
}

/// The sectors of a write from sector `first` on: for each sector the two
/// waits and then its words, taken from the buffer sector after sector. The
/// buffer stays as it is, and with the last word the job is done.
pub proof fn lemma_sectors_out(
    transfer: Transfer,
    first: int,
    sectors: Seq<SectorReplies>,
    bus: Bus,
    disk: u8,
    buf: Seq<u16>,
)
    requires
        transfer.command == Command::Write,
        0 <= first,
        first + sectors.len() == transfer.spec_sectors(),
        all_wf(sectors),
        transfer.spec_sectors() * SECTOR_WORDS <= buf.len(),
    ensures
        transfer.spec_before_sector(first).after(all_inputs(sectors)) == Job::Idle,
        transfer.spec_before_sector(first).buffer_after(buf, all_inputs(sectors)) == buf,
        transfer.spec_before_sector(first).accesses(bus, disk, buf, all_inputs(sectors))
            == all_writes(sectors, bus, buf.skip(first * SECTOR_WORDS)),
    decreases sectors.len(),
{
    let job = transfer.spec_before_sector(first);
    let data = buf.skip(first * SECTOR_WORDS);
    if sectors.len() == 0 {
        assert(job.accesses(bus, disk, buf, all_inputs(sectors)) =~= all_writes(
            sectors,
            bus,
            data,
        ));
    } else {
        let replies = sectors[0];
        let rest = sectors.drop_first();
        let sector = first as u8;
        assert(replies.wf());
        assert forall|i: int| 0 <= i < rest.len() implies (#[trigger] rest[i]).wf() by {
            assert(rest[i] == sectors[i + 1]);
        }
        assert((first + 1) * SECTOR_WORDS == first * SECTOR_WORDS + SECTOR_WORDS)
            by (nonlinear_arith);
        assert((first + 1) * SECTOR_WORDS <= buf.len()) by (nonlinear_arith)
            requires
                first + 1 <= transfer.spec_sectors(),
                transfer.spec_sectors() * SECTOR_WORDS <= buf.len(),
        ;
        lemma_one_sector_out(transfer, sector, replies, bus, disk, buf);
        lemma_sectors_out(transfer, first + 1, rest, bus, disk, buf);
        lemma_run_in_two(job, bus, disk, buf, replies.inputs(), all_inputs(rest));
        assert(buf.skip((first + 1) * SECTOR_WORDS) =~= data.skip(SECTOR_WORDS as int));
    }
}

/// A whole read.
///
/// The engine polls until `BSY` is clear, writes the command block, and then
/// moves the sectors in. When it is done the buffer holds, from its start, the
/// words that the data port returned, in the order in which they came; what
/// lies behind them in the buffer is as it was.
pub proof fn lemma_read(
    lba: u32,
    sector_count: u8,
    settle: Seq<u16>,
    block: Seq<u16>,
    sectors: Seq<SectorReplies>,
    bus: Bus,
    disk: u8,
    buf: Seq<u16>,
)
    requires
        ends_wait(Wait::NotBusy, settle),
        block.len() == 6,
        sectors.len() == sector_count,
        all_wf(sectors),
        sector_count * SECTOR_WORDS <= buf.len(),
    ensures
        ({
            let transfer = Transfer { command: Command::Read, lba, sector_count };
            let job = transfer.spec_at(Stage::Settle);
            let inputs = settle + block + all_inputs(sectors);
            &&& job.after(inputs) == Job::Idle
            &&& job.buffer_after(buf, inputs) == overlay(buf, 0, all_words(sectors))
            &&& job.accesses(bus, disk, buf, inputs) == status_reads(bus, settle.len())
                + command_block(transfer, bus, disk) + all_reads(sectors, bus)
        }),
{
    let transfer = Transfer { command: Command::Read, lba, sector_count };
    let job = transfer.spec_at(Stage::Settle);
    lemma_wait(job, bus, disk, buf, settle);
    lemma_command_block(transfer, bus, disk, buf, block);
    lemma_sectors_in(transfer, 0, sectors, bus, disk, buf);
    lemma_run_in_two(job, bus, disk, buf, settle, block);
    lemma_run_in_two(job, bus, disk, buf, settle + block, all_inputs(sectors));
}

/// A whole write.
///
/// The engine polls until `BSY` is clear, writes the command block, and then
/// moves the sectors out: the words that it writes to the data port are the
/// words of the buffer from its start, in their order. The buffer stays as it
/// is.
pub proof fn lemma_write(
    lba: u32,
    sector_count: u8,
    settle: Seq<u16>,
    block: Seq<u16>,
    sectors: Seq<SectorReplies>,
    bus: Bus,
    disk: u8,
    buf: Seq<u16>,
)
    requires
        ends_wait(Wait::NotBusy, settle),
        block.len() == 6,
        sectors.len() == sector_count,
        all_wf(sectors),
        sector_count * SECTOR_WORDS <= buf.len(),
    ensures
        ({
            let transfer = Transfer { command: Command::Write, lba, sector_count };
            let job = transfer.spec_at(Stage::Settle);
            let inputs = settle + block + all_inputs(sectors);
            &&& job.after(inputs) == Job::Idle
            &&& job.buffer_after(buf, inputs) == buf
            &&& job.accesses(bus, disk, buf, inputs) == status_reads(bus, settle.len())
                + command_block(transfer, bus, disk) + all_writes(sectors, bus, buf)
            &&& data_written(job.accesses(bus, disk, buf, inputs)) == buf.take(
                sector_count * SECTOR_WORDS,
            )
        }),
{
    let transfer = Transfer { command: Command::Write, lba, sector_count };
    let job = transfer.spec_at(Stage::Settle);
    lemma_wait(job, bus, disk, buf, settle);
    lemma_command_block(transfer, bus, disk, buf, block);
    lemma_sectors_out(transfer, 0, sectors, bus, disk, buf);
    lemma_run_in_two(job, bus, disk, buf, settle, block);
    lemma_run_in_two(job, bus, disk, buf, settle + block, all_inputs(sectors));
    assert(buf.skip(0) =~= buf);
    let polls = status_reads(bus, settle.len());
    let setup = command_block(transfer, bus, disk);
    let data = all_writes(sectors, bus, buf);
    lemma_status_reads_write_no_data(bus, settle.len());
    lemma_command_block_writes_no_data(transfer, bus, disk);
    lemma_all_writes_write_the_data(sectors, bus, buf);
    lemma_data_written_in_two(polls, setup);
    lemma_data_written_in_two(polls + setup, data);
    assert(Seq::<u16>::empty() + Seq::<u16>::empty() + buf.take(sector_count * SECTOR_WORDS)
        =~= buf.take(sector_count * SECTOR_WORDS));
}

/// A whole identify command that a drive answers.
///
/// The engine writes the command block at once, takes one status sample, and,
/// that sample not being 0, waits and reads one sector: the 256 words of the
/// drive's answer, which fill the block from its start.
pub proof fn lemma_identify(
    block: Seq<u16>,
    probe: u16,
    answer: SectorReplies,
    bus: Bus,
    disk: u8,
    buf: Seq<u16>,
)
    requires
        block.len() == 6,
        super::job::spec_low_byte(probe) != 0,
        answer.wf(),
        SECTOR_WORDS <= buf.len(),
    ensures
        ({
            let transfer = Transfer { command: Command::Identify, lba: 0, sector_count: 0 };
            let job = transfer.spec_at(Stage::Register { index: 0 });
            let inputs = block + seq![probe] + answer.inputs();
            &&& job.after(inputs) == Job::Idle
            &&& job.buffer_after(buf, inputs) == overlay(buf, 0, answer.words)
            &&& job.accesses(bus, disk, buf, inputs) == command_block(transfer, bus, disk)
                + status_reads(bus, 1) + answer.reads(bus)
        }),
{
    let transfer = Transfer { command: Command::Identify, lba: 0, sector_count: 0 };
    let job = transfer.spec_at(Stage::Register { index: 0 });
    let probing = transfer.spec_at(Stage::Probe);
    let sampled = seq![probe];
    let done = sampled.drop_first();
    let next = transfer.spec_before_sector(0);
    lemma_command_block(transfer, bus, disk, buf, block);
    assert(probing.spec_next(sampled[0]) == next);
    assert(next.after(done) == next);
    assert(next.buffer_after(buf, done) == buf);
    assert(next.accesses(bus, disk, buf, done) =~= Seq::<PortOp>::empty());
    assert(probing.accesses(bus, disk, buf, sampled) =~= status_reads(bus, 1));
    lemma_one_sector_in(transfer, 0, answer, bus, disk, buf);
    lemma_run_in_two(job, bus, disk, buf, block, sampled);
    lemma_run_in_two(job, bus, disk, buf, block + sampled, answer.inputs());
}

/// The words written by two runs of accesses are those of the first and then
/// those of the second.
pub proof fn lemma_data_written_in_two(first: Seq<PortOp>, second: Seq<PortOp>)
    ensures
        data_written(first + second) == data_written(first) + data_written(second),
    decreases first.len(),
{
    if first.len() == 0 {
        assert(first + second =~= second);
        assert(Seq::<u16>::empty() + data_written(second) =~= data_written(second));
    } else {
        let whole = first + second;
        assert(whole[0] == first[0]);
        assert(whole.drop_first() =~= first.drop_first() + second);
        lemma_data_written_in_two(first.drop_first(), second);
        let a = data_written(first.drop_first());
        let b = data_written(second);
        match first[0] {
            PortOp::WriteWord { value, .. } => {
                assert(seq![value] + (a + b) =~= (seq![value] + a) + b);
            },
            _ => {},
        }
    }
}

proof fn lemma_status_reads_write_no_data(bus: Bus, count: nat)
    ensures
        data_written(status_reads(bus, count)) == Seq::<u16>::empty(),
    decreases count,
{
    if count > 0 {
        assert(status_reads(bus, count).drop_first() =~= status_reads(bus, (count - 1) as nat));
        lemma_status_reads_write_no_data(bus, (count - 1) as nat);
    }
}

proof fn lemma_byte_writes_write_no_data(accesses: Seq<PortOp>)
    requires
        forall|i: int| 0 <= i < accesses.len() ==> #[trigger] accesses[i] is WriteByte,
    ensures
        data_written(accesses) == Seq::<u16>::empty(),
    decreases accesses.len(),
{
    if accesses.len() > 0 {
        let rest = accesses.drop_first();
        assert(accesses[0] is WriteByte);
        assert forall|i: int| 0 <= i < rest.len() implies #[trigger] rest[i] is WriteByte by {
            assert(rest[i] == accesses[i + 1]);
        }
        lemma_byte_writes_write_no_data(rest);
    }
}

proof fn lemma_command_block_writes_no_data(transfer: Transfer, bus: Bus, disk: u8)
    ensures
        data_written(command_block(transfer, bus, disk)) == Seq::<u16>::empty(),
{
    lemma_byte_writes_write_no_data(command_block(transfer, bus, disk));
}

proof fn lemma_word_writes_write_their_words(bus: Bus, data: Seq<u16>, count: nat)
    requires
        count <= data.len(),
    ensures
        data_written(
            Seq::new(count, |i: int| PortOp::WriteWord { port: data_port(bus), value: data[i] }),
        ) == data.take(count as int),
    decreases count,
{
    let writes = Seq::new(
        count,
        |i: int| PortOp::WriteWord { port: data_port(bus), value: data[i] },
    );
    if count == 0 {
        assert(data.take(0) =~= Seq::<u16>::empty());
    } else {
        let rest = data.drop_first();
        assert(writes.drop_first() =~= Seq::new(
            (count - 1) as nat,
            |i: int| PortOp::WriteWord { port: data_port(bus), value: rest[i] },
        ));
        lemma_word_writes_write_their_words(bus, rest, (count - 1) as nat);
        assert(seq![data[0]] + rest.take(count - 1) =~= data.take(count as int));
    }
}

proof fn lemma_all_writes_write_the_data(sectors: Seq<SectorReplies>, bus: Bus, data: Seq<u16>)
    requires
        sectors.len() * SECTOR_WORDS <= data.len(),
    ensures
        data_written(all_writes(sectors, bus, data)) == data.take(sectors.len() * SECTOR_WORDS),
    decreases sectors.len(),
{
    if sectors.len() == 0 {
        assert(data.take(0) =~= Seq::<u16>::empty());
    } else {
        let replies = sectors[0];
        let rest = sectors.drop_first();
        let behind = data.skip(SECTOR_WORDS as int);
        assert(SECTOR_WORDS <= data.len() && rest.len() * SECTOR_WORDS <= behind.len()) by {
            assert(sectors.len() * SECTOR_WORDS == rest.len() * SECTOR_WORDS + SECTOR_WORDS)
                by (nonlinear_arith)
                requires
                    sectors.len() == rest.len() + 1,
            ;
        }
        lemma_all_writes_write_the_data(rest, bus, behind);
        let busy = status_reads(bus, replies.busy.len());
        let request = status_reads(bus, replies.request.len());
        let words = Seq::new(
            SECTOR_WORDS as nat,
            |i: int| PortOp::WriteWord { port: data_port(bus), value: data[i] },
        );
        lemma_status_reads_write_no_data(bus, replies.busy.len());
        lemma_status_reads_write_no_data(bus, replies.request.len());
        lemma_word_writes_write_their_words(bus, data, SECTOR_WORDS as nat);
        lemma_data_written_in_two(busy, request);
        lemma_data_written_in_two(busy + request, words);
        lemma_data_written_in_two(replies.writes(bus, data), all_writes(rest, bus, behind));
        assert(sectors.len() * SECTOR_WORDS == rest.len() * SECTOR_WORDS + SECTOR_WORDS)
            by (nonlinear_arith)
            requires
                sectors.len() == rest.len() + 1,
        ;
        assert(Seq::<u16>::empty() + Seq::<u16>::empty() + data.take(SECTOR_WORDS as int)
            + behind.take(rest.len() * SECTOR_WORDS) =~= data.take(
            sectors.len() * SECTOR_WORDS,
        ));
    }
}

/// Writing sectors and reading them back gives what was written.
///
/// Take a write of a buffer and then a read of as many sectors into the same
/// buffer. If the drive answers the read with the words that the write sent,
/// in their order, then the read leaves the buffer as it was: no word is lost,
/// moved or changed on the way out and back, however long the drive made the
/// engine wait.
pub proof fn lemma_write_then_read(
    lba: u32,
    sector_count: u8,
    bus: Bus,
    disk: u8,
    buf: Seq<u16>,
    out_settle: Seq<u16>,
    out_block: Seq<u16>,
    out_sectors: Seq<SectorReplies>,
    back_settle: Seq<u16>,
    back_block: Seq<u16>,
    back_sectors: Seq<SectorReplies>,
)
    requires
        ends_wait(Wait::NotBusy, out_settle),
        ends_wait(Wait::NotBusy, back_settle),
        out_block.len() == 6,
        back_block.len() == 6,
        out_sectors.len() == sector_count,
        back_sectors.len() == sector_count,
        all_wf(out_sectors),
        all_wf(back_sectors),
        sector_count * SECTOR_WORDS <= buf.len(),
        all_words(back_sectors) == data_written(
            Transfer { command: Command::Write, lba, sector_count }.spec_at(Stage::Settle).accesses(
                bus,
                disk,
                buf,
                out_settle + out_block + all_inputs(out_sectors),
            ),
        ),
    ensures
        ({
            let written = Transfer { command: Command::Write, lba, sector_count }.spec_at(
                Stage::Settle,
            );
            let read = Transfer { command: Command::Read, lba, sector_count }.spec_at(
                Stage::Settle,
            );
            let out = out_settle + out_block + all_inputs(out_sectors);
            let back = back_settle + back_block + all_inputs(back_sectors);
            read.buffer_after(written.buffer_after(buf, out), back) == buf
        }),
{
    lemma_write(lba, sector_count, out_settle, out_block, out_sectors, bus, disk, buf);
    lemma_read(lba, sector_count, back_settle, back_block, back_sectors, bus, disk, buf);
    assert(overlay(buf, 0, buf.take(sector_count * SECTOR_WORDS)) =~= buf);
}

} // verus!
