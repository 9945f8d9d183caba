//! Interrupt vectors: which routine serves which vector, and what each routine
//! does.
//!
//! The library lays the table out and says of every routine what work it does,
//! which vector it acknowledges and how it ends. The caller turns the table
//! into the processor's own, loads it, and carries the plans out.

use vstd::prelude::*;

verus! {

/// The lines that each of the two interrupt controllers has.
pub const PIC_LINES: u8 = 8;

/// The vector of line 0 of the first interrupt controller.
pub const PIC_1_OFFSET: u8 = 32;

/// The vector of line 0 of the second interrupt controller: the vectors of the
/// two controllers lie end to end.
pub const PIC_2_OFFSET: u8 = PIC_1_OFFSET + PIC_LINES;

/// The vector of the breakpoint trap.
pub const BREAKPOINT_VECTOR: u8 = 3;

/// The vector of the double fault.
pub const DOUBLE_FAULT_VECTOR: u8 = 8;

/// The vector of the page fault.
pub const PAGE_FAULT_VECTOR: u8 = 14;

/// The slot of the interrupt stack table that holds the stack kept for the
/// double fault.
pub const DOUBLE_FAULT_IST_INDEX: u16 = 0;

/// The port from which the keyboard's byte is read.
pub const KEYBOARD_DATA_PORT: u16 = 0x60;

/// The number of vectors.
pub const VECTORS: usize = 256;

/// The sixteen lines of the two interrupt controllers, in the order of their
/// vectors.
#[derive(Clone, Copy, PartialEq, Eq, Structural, Debug)]
pub enum InterruptIndex {
    /// Line 0: the interval timer.
    Timer,
    /// Line 1: the keyboard.
    Keyboard,
    /// Line 2: the cascade from the second controller.
    PIC2,
    /// Line 3: the first serial port.
    Serial1,
    /// Line 4: the second serial port.
    Serial2,
    /// Line 5: the second parallel port.
    ParallelPort2,
    /// Line 6: the floppy controller.
    Floppy,
    /// Line 7: the first parallel port.
    ParallelPort1,
    /// Line 8: the real-time clock.
    RTC,
    /// Line 9: ACPI.
    ACPI,
    /// Line 10: a line kept free.
    Unused1,
    /// Line 11: a line kept free.
    Unused2,
    /// Line 12: the mouse.
    Mouse,
    /// Line 13: the co-processor.
    CoProcessor,
    /// Line 14: the primary disk bus.
    PrimaryAta,
    /// Line 15: the secondary disk bus.
    SecondaryAta,
}

impl InterruptIndex {
    /// The number of the line, from 0 for the timer to 15 for the secondary
    /// disk bus.
    pub open spec fn spec_line(self) -> u8 {
        match self {
            InterruptIndex::Timer => 0,
            InterruptIndex::Keyboard => 1,
            InterruptIndex::PIC2 => 2,
            InterruptIndex::Serial1 => 3,
            InterruptIndex::Serial2 => 4,
            InterruptIndex::ParallelPort2 => 5,
            InterruptIndex::Floppy => 6,
            InterruptIndex::ParallelPort1 => 7,
            InterruptIndex::RTC => 8,
            InterruptIndex::ACPI => 9,
            InterruptIndex::Unused1 => 10,
            InterruptIndex::Unused2 => 11,
            InterruptIndex::Mouse => 12,
            InterruptIndex::CoProcessor => 13,
            InterruptIndex::PrimaryAta => 14,
            InterruptIndex::SecondaryAta => 15,
        }
    }

    /// The number of the line.
    #[verifier::when_used_as_spec(spec_line)]
    pub fn line(self) -> (line: u8)
        ensures
            line == self.spec_line(),
            line < 16,
    {
        match self {
            InterruptIndex::Timer => 0,
            InterruptIndex::Keyboard => 1,
            InterruptIndex::PIC2 => 2,
            InterruptIndex::Serial1 => 3,
            InterruptIndex::Serial2 => 4,
            InterruptIndex::ParallelPort2 => 5,
            InterruptIndex::Floppy => 6,
            InterruptIndex::ParallelPort1 => 7,
            InterruptIndex::RTC => 8,
            InterruptIndex::ACPI => 9,
            InterruptIndex::Unused1 => 10,
            InterruptIndex::Unused2 => 11,
            InterruptIndex::Mouse => 12,
            InterruptIndex::CoProcessor => 13,
            InterruptIndex::PrimaryAta => 14,
            InterruptIndex::SecondaryAta => 15,
        }
    }

    /// The line with the number `line`, if there is one.
    pub open spec fn spec_from_line(line: u8) -> Option<InterruptIndex> {
        match line {
            0 => Some(InterruptIndex::Timer),
            1 => Some(InterruptIndex::Keyboard),
            2 => Some(InterruptIndex::PIC2),
            3 => Some(InterruptIndex::Serial1),
            4 => Some(InterruptIndex::Serial2),
            5 => Some(InterruptIndex::ParallelPort2),
            6 => Some(InterruptIndex::Floppy),
            7 => Some(InterruptIndex::ParallelPort1),
            8 => Some(InterruptIndex::RTC),
            9 => Some(InterruptIndex::ACPI),
            10 => Some(InterruptIndex::Unused1),
            11 => Some(InterruptIndex::Unused2),
            12 => Some(InterruptIndex::Mouse),
            13 => Some(InterruptIndex::CoProcessor),
            14 => Some(InterruptIndex::PrimaryAta),
            15 => Some(InterruptIndex::SecondaryAta),
            _ => None,
        }
    }

    /// The line with the number `line`, if there is one.
    #[verifier::when_used_as_spec(spec_from_line)]
    pub fn from_line(line: u8) -> (index: Option<InterruptIndex>)
        ensures
            index == Self::spec_from_line(line),
            index is Some <==> line < 16,
            index matches Some(found) ==> found.spec_line() == line,
    {
        match line {
            0 => Some(InterruptIndex::Timer),
            1 => Some(InterruptIndex::Keyboard),
            2 => Some(InterruptIndex::PIC2),
            3 => Some(InterruptIndex::Serial1),
            4 => Some(InterruptIndex::Serial2),
            5 => Some(InterruptIndex::ParallelPort2),
            6 => Some(InterruptIndex::Floppy),
            7 => Some(InterruptIndex::ParallelPort1),
            8 => Some(InterruptIndex::RTC),
            9 => Some(InterruptIndex::ACPI),
            10 => Some(InterruptIndex::Unused1),
            11 => Some(InterruptIndex::Unused2),
            12 => Some(InterruptIndex::Mouse),
            13 => Some(InterruptIndex::CoProcessor),
            14 => Some(InterruptIndex::PrimaryAta),
            15 => Some(InterruptIndex::SecondaryAta),
            _ => None,
        }
    }

    /// The vector of the line.
    pub open spec fn spec_as_u8(self) -> u8 {
        (PIC_1_OFFSET + self.spec_line()) as u8
    }

    /// The vector of the line: the lines take the sixteen vectors from
    /// [`PIC_1_OFFSET`] on, in their order.
    #[verifier::when_used_as_spec(spec_as_u8)]
    pub fn as_u8(self) -> (vector: u8)
        ensures
            vector == self.spec_as_u8(),
            vector == PIC_1_OFFSET + self.spec_line(),
    {
        PIC_1_OFFSET + self.line()
    }

    /// The vector of the line, as an index into the table.
    pub open spec fn spec_as_usize(self) -> usize {
        self.spec_as_u8() as usize
    }

    /// The vector of the line, as an index into the table.
    #[verifier::when_used_as_spec(spec_as_usize)]
    pub fn as_usize(self) -> (vector: usize)
        ensures
            vector == self.spec_as_usize(),
            vector == PIC_1_OFFSET + self.spec_line(),
    {
        self.as_u8() as usize
    }
}

/// The routines that serve interrupts.
#[derive(Clone, Copy, PartialEq, Eq, Structural, Debug)]
pub enum Handler {
    /// Serves the breakpoint trap.
    Breakpoint,
    /// Serves the page fault.
    PageFault,
    /// Serves the double fault.
    DoubleFault,
    /// Serves a line of the interrupt controllers.
    Irq(InterruptIndex),
}

/// The work of a routine.
#[derive(Clone, Copy, PartialEq, Eq, Structural, Debug)]
pub enum Work {
    /// Print the stack frame of the interrupted code.
    Report,
    /// Print the address whose access faulted, the error flags and the stack
    /// frame.
    ReportFault,
    /// Count one tick of the timer.
    Tick,
    /// Read one byte from [`KEYBOARD_DATA_PORT`] and push it to the scancode
    /// queue. The keyboard is touched in no other way.
    Keyboard,
    /// Print that the line has fired.
    Announce,
}

/// How a routine ends.
#[derive(Clone, Copy, PartialEq, Eq, Structural, Debug)]
pub enum Exit {
    /// Return to the interrupted code.
    Resume,
    /// Halt the processor for good.
    Halt,
    /// Bring the kernel down.
    Terminate,
}

/// What a routine does, in order: its work, then the acknowledgement, then
/// its exit.
#[derive(Clone, Copy, PartialEq, Eq, Structural, Debug)]
pub struct Plan {
    pub work: Work,
    /// The vector to acknowledge at the interrupt controllers once the work is
    /// done; none for a trap or fault, which no controller sent.
    pub acknowledge: Option<u8>,
    pub exit: Exit,
}

impl Handler {
    /// What the routine does.
    ///
    /// The breakpoint trap reports and resumes. The page fault reports and
    /// halts, the double fault reports and brings the kernel down: from
    /// neither is there a way back. A routine for a line does the line's work,
    /// acknowledges the line's own vector, and resumes.
    pub open spec fn spec_plan(self) -> Plan {
        match self {
            Handler::Breakpoint => Plan {
                work: Work::Report,
                acknowledge: None,
                exit: Exit::Resume,
            },
            Handler::PageFault => Plan {
                work: Work::ReportFault,
                acknowledge: None,
                exit: Exit::Halt,
            },
            Handler::DoubleFault => Plan {
                work: Work::Report,
                acknowledge: None,
                exit: Exit::Terminate,
            },
            Handler::Irq(index) => Plan {
                work: match index {
                    InterruptIndex::Timer => Work::Tick,
                    InterruptIndex::Keyboard => Work::Keyboard,
                    _ => Work::Announce,
                },
                acknowledge: Some(index.spec_as_u8()),
                exit: Exit::Resume,
            },
        }
    }

    /// What the routine does.
    #[verifier::when_used_as_spec(spec_plan)]
    pub fn plan(self) -> (plan: Plan)
        ensures
            plan == self.spec_plan(),
    {
        match self {
            Handler::Breakpoint => Plan {
                work: Work::Report,
                acknowledge: None,
                exit: Exit::Resume,
            },
            Handler::PageFault => Plan {
                work: Work::ReportFault,
                acknowledge: None,
                exit: Exit::Halt,
            },
            Handler::DoubleFault => Plan {
                work: Work::Report,
                acknowledge: None,
                exit: Exit::Terminate,
            },
            Handler::Irq(index) => Plan {
                work: match index {
                    InterruptIndex::Timer => Work::Tick,
                    InterruptIndex::Keyboard => Work::Keyboard,
                    _ => Work::Announce,
                },
                acknowledge: Some(index.as_u8()),
                exit: Exit::Resume,
            },
        }
    }
}

/// One entry of the vector table.
#[derive(Clone, Copy, PartialEq, Eq, Structural, Debug)]
pub struct Gate {
    /// The routine that serves the vector.
    pub handler: Handler,
    /// The slot of the interrupt stack table whose stack the routine runs on;
    /// none where it runs on the stack of the interrupted code.
    pub stack_index: Option<u16>,
}

/// The entry that an installed table has at `vector`: the three traps and
/// faults at their vectors, the double fault on the stack kept for it, and one
/// routine for each of the sixteen lines. All other vectors are empty.
pub open spec fn spec_required_gate(vector: u8) -> Option<Gate> {
    if vector == BREAKPOINT_VECTOR {
        Some(Gate { handler: Handler::Breakpoint, stack_index: None })
    } else if vector == DOUBLE_FAULT_VECTOR {
        Some(Gate { handler: Handler::DoubleFault, stack_index: Some(DOUBLE_FAULT_IST_INDEX) })
    } else if vector == PAGE_FAULT_VECTOR {
        Some(Gate { handler: Handler::PageFault, stack_index: None })
    } else if vector >= PIC_1_OFFSET {
        match InterruptIndex::spec_from_line((vector - PIC_1_OFFSET) as u8) {
            Some(index) => Some(Gate { handler: Handler::Irq(index), stack_index: None }),
            None => None,
        }
    } else {
        None
    }
}

/// The entry that an installed table has at `vector`.
#[verifier::when_used_as_spec(spec_required_gate)]
pub fn required_gate(vector: u8) -> (gate: Option<Gate>)
    ensures
        gate == spec_required_gate(vector),
{
    if vector == BREAKPOINT_VECTOR {
        Some(Gate { handler: Handler::Breakpoint, stack_index: None })
    } else if vector == DOUBLE_FAULT_VECTOR {
        Some(Gate { handler: Handler::DoubleFault, stack_index: Some(DOUBLE_FAULT_IST_INDEX) })
    } else if vector == PAGE_FAULT_VECTOR {
        Some(Gate { handler: Handler::PageFault, stack_index: None })
    } else if vector >= PIC_1_OFFSET {
        match InterruptIndex::from_line(vector - PIC_1_OFFSET) {
            Some(index) => Some(Gate { handler: Handler::Irq(index), stack_index: None }),
            None => None,
        }
    } else {
        None
    }
}

/// Why a table was not installed.
#[derive(Clone, Copy, PartialEq, Eq, Structural, Debug)]
pub enum InstallError {
    /// The table is installed already. It is installed once and stays as it
    /// is from then on.
    AlreadyInstalled,
}

/// What an [`InterruptVectorTable`] is in contracts.
pub struct TableView {
    /// The entries, by vector.
    pub gates: Seq<Option<Gate>>,
    /// Whether the table has been installed.
    pub installed: bool,
}

/// The entries of an installed table.
pub open spec fn installed_gates() -> Seq<Option<Gate>> {
    Seq::new(VECTORS as nat, |vector: int| spec_required_gate(vector as u8))
}

/// The table of the 256 vectors. It starts empty, is installed once, before
/// interrupts are enabled, and does not change after that.
pub struct InterruptVectorTable {
    gates: Vec<Option<Gate>>,
    installed: bool,
}

impl View for InterruptVectorTable {
    type V = TableView;

    closed spec fn view(&self) -> TableView {
        TableView { gates: self.gates@, installed: self.installed }
    }
}

impl InterruptVectorTable {
    #[verifier::type_invariant]
    spec fn inv(&self) -> bool {
        self.gates@.len() == VECTORS
    }

    /// A table with no entry, not installed.
    pub fn new() -> (table: InterruptVectorTable)
        ensures
            table@ == (TableView {
                gates: Seq::new(VECTORS as nat, |vector: int| None),
                installed: false,
            }),
    {
        let mut gates: Vec<Option<Gate>> = Vec::new();
        let mut vector: usize = 0;
        while vector < VECTORS
            invariant
                vector <= VECTORS,
                gates@ == Seq::new(vector as nat, |v: int| None::<Gate>),
            decreases VECTORS - vector,
        {
            gates.push(None);
            vector += 1;
            assert(gates@ =~= Seq::new(vector as nat, |v: int| None::<Gate>));
        }
        InterruptVectorTable { gates, installed: false }
    }

    /// Fills in every entry that the kernel needs and marks the table as
    /// installed; the caller then loads it into the processor. A table that
    /// is installed already is refused and stays as it is.
    pub fn install(&mut self) -> (done: Result<(), InstallError>)
        ensures
            done is Ok <==> !old(self)@.installed,
            done is Ok ==> final(self)@ == (TableView {
                gates: installed_gates(),
                installed: true,
            }),
            done is Err ==> done == Err::<(), InstallError>(InstallError::AlreadyInstalled)
                && final(self)@ == old(self)@,
    {
        if self.installed {
            return Err(InstallError::AlreadyInstalled);
        }
        let mut gates: Vec<Option<Gate>> = Vec::new();
        let mut vector: usize = 0;
        while vector < VECTORS
            invariant
                vector <= VECTORS,
                gates@ == Seq::new(vector as nat, |v: int| spec_required_gate(v as u8)),
            decreases VECTORS - vector,
        {
            gates.push(required_gate(vector as u8));
            vector += 1;
            assert(gates@ =~= Seq::new(vector as nat, |v: int| spec_required_gate(v as u8)));
        }
        self.gates = gates;
        self.installed = true;
        Ok(())
    }

    /// Whether the table has been installed.
    pub fn is_installed(&self) -> (installed: bool)
        ensures
            installed == self@.installed,
    {
        self.installed
    }

    /// The entry at `vector`.
    pub fn gate(&self, vector: u8) -> (gate: Option<Gate>)
        ensures
            gate == self@.gates[vector as int],
            self@.gates.len() == VECTORS,
    {
        proof {
            use_type_invariant(self);
        }
        self.gates[vector as usize]
    }
}

/// Installs the vector table: see [`InterruptVectorTable::install`].
pub fn init_idt(table: &mut InterruptVectorTable) -> (done: Result<(), InstallError>)
    ensures
        done is Ok <==> !old(table)@.installed,
        done is Ok ==> final(table)@ == (TableView { gates: installed_gates(), installed: true }),
        done is Err ==> done == Err::<(), InstallError>(InstallError::AlreadyInstalled)
            && final(table)@ == old(table)@,
{
    table.install()
}

/// Every line of the two controllers has a routine at its own vector, and that
/// routine acknowledges this vector and no other, after its work and before it
/// resumes. The routines of the traps and faults acknowledge nothing. Only the
/// double fault runs on a stack of its own.
pub proof fn lemma_installed_routines(vector: u8)
    ensures
        spec_required_gate(vector) is Some <==> vector == BREAKPOINT_VECTOR || vector
            == DOUBLE_FAULT_VECTOR || vector == PAGE_FAULT_VECTOR || PIC_1_OFFSET <= vector
            < PIC_1_OFFSET + 2 * PIC_LINES,
        spec_required_gate(vector) matches Some(gate) ==> {
            &&& gate.handler.spec_plan().acknowledge == if vector >= PIC_1_OFFSET {
                Some(vector)
            } else {
                None
            }
            &&& gate.stack_index is Some <==> vector == DOUBLE_FAULT_VECTOR
            &&& gate.handler.spec_plan().exit == if vector == PAGE_FAULT_VECTOR {
                Exit::Halt
            } else if vector == DOUBLE_FAULT_VECTOR {
                Exit::Terminate
            } else {
                Exit::Resume
            }
        },
{
}

/// A line's routine is the entry at the line's vector.
pub proof fn lemma_line_has_its_routine(index: InterruptIndex)
    ensures
        spec_required_gate(index.spec_as_u8()) == Some(
            Gate { handler: Handler::Irq(index), stack_index: None },
        ),
        PIC_1_OFFSET <= index.spec_as_u8() < PIC_1_OFFSET + 2 * PIC_LINES,
{
}

} // verus!
