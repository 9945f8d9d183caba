//! The status register: eight flags that the drive owns and the host only reads.

use vstd::prelude::*;

verus! {

/// The flags of the status register, in the order of their bits: the first
/// variant is bit 0, the last is bit 7.
#[derive(Clone, Copy, PartialEq, Eq, Structural, Debug)]
pub enum Bitflags {
    ERR,
    IDX,
    CORR,
    DRQ,
    SRV,
    DF,
    RDY,
    BSY,
}

impl Bitflags {
    /// The number of the flag's bit, counted from the least significant.
    pub open spec fn spec_bit(self) -> u8 {
        match self {
            Bitflags::ERR => 0,
            Bitflags::IDX => 1,
            Bitflags::CORR => 2,
            Bitflags::DRQ => 3,
            Bitflags::SRV => 4,
            Bitflags::DF => 5,
            Bitflags::RDY => 6,
            Bitflags::BSY => 7,
        }
    }

    /// The number of the flag's bit, counted from the least significant.
    #[verifier::when_used_as_spec(spec_bit)]
    pub fn bit(self) -> (n: u8)
        ensures
            n == self.spec_bit(),
            n < 8,
    {
        match self {
            Bitflags::ERR => 0,
            Bitflags::IDX => 1,
            Bitflags::CORR => 2,
            Bitflags::DRQ => 3,
            Bitflags::SRV => 4,
            Bitflags::DF => 5,
            Bitflags::RDY => 6,
            Bitflags::BSY => 7,
        }
    }

    /// The byte in which the flag's bit is set and no other.
    pub open spec fn spec_mask(self) -> u8 {
        1u8 << self.spec_bit()
    }

    /// The byte in which the flag's bit is set and no other.
    #[verifier::when_used_as_spec(spec_mask)]
    pub fn mask(self) -> (m: u8)
        ensures
            m == self.spec_mask(),
    {
        1u8 << self.bit()
    }
}

/// One sample of the status register. A sample says nothing of the register a
/// moment later: every poll takes a new one.
#[derive(Clone, Copy, PartialEq, Eq, Structural, Debug)]
pub struct Status {
    pub val: u8,
}

impl Status {
    /// Whether `flag` is set in the sample.
    pub open spec fn spec_has(&self, flag: Bitflags) -> bool {
        self.val & flag.spec_mask() != 0
    }

    /// Whether `flag` is set in the sample.
    #[verifier::when_used_as_spec(spec_has)]
    pub fn has(&self, flag: Bitflags) -> (set: bool)
        ensures
            set == self.spec_has(flag),
    {
        self.val & flag.mask() != 0
    }

    /// Bit 0: the last command failed.
    pub open spec fn spec_error(&self) -> bool {
        self.val & 0x01 != 0
    }

    /// Bit 0: the last command failed.
    #[verifier::when_used_as_spec(spec_error)]
    pub fn error(&self) -> (set: bool)
        ensures
            set == (self.val & 0x01 != 0),
            set == self.has(Bitflags::ERR),
    {
        proof {
            lemma_masks();
        }
        self.val & (1 << Bitflags::ERR.bit()) > 0
    }

    /// Bit 3: the drive is ready to move a word of data.
    pub open spec fn spec_drive_request(&self) -> bool {
        self.val & 0x08 != 0
    }

    /// Bit 3: the drive is ready to move a word of data.
    #[verifier::when_used_as_spec(spec_drive_request)]
    pub fn drive_request(&self) -> (set: bool)
        ensures
            set == (self.val & 0x08 != 0),
            set == self.has(Bitflags::DRQ),
    {
        proof {
            lemma_masks();
        }
        self.val & (1 << Bitflags::DRQ.bit()) > 0
    }

    /// Bit 4: an overlapped command needs service.
    pub open spec fn spec_service_request(&self) -> bool {
        self.val & 0x10 != 0
    }

    /// Bit 4: an overlapped command needs service.
    #[verifier::when_used_as_spec(spec_service_request)]
    pub fn service_request(&self) -> (set: bool)
        ensures
            set == (self.val & 0x10 != 0),
            set == self.has(Bitflags::SRV),
    {
        proof {
            lemma_masks();
        }
        self.val & (1 << Bitflags::SRV.bit()) > 0
    }

    /// Bit 5: the drive reports a fault that sets no error flag.
    pub open spec fn spec_drive_fault(&self) -> bool {
        self.val & 0x20 != 0
    }

    /// Bit 5: the drive reports a fault that sets no error flag.
    #[verifier::when_used_as_spec(spec_drive_fault)]
    pub fn drive_fault(&self) -> (set: bool)
        ensures
            set == (self.val & 0x20 != 0),
            set == self.has(Bitflags::DF),
    {
        proof {
            lemma_masks();
        }
        self.val & (1 << Bitflags::DF.bit()) > 0
    }

    /// Bit 6: the drive is spun up and takes commands.
    pub open spec fn spec_ready(&self) -> bool {
        self.val & 0x40 != 0
    }

    /// Bit 6: the drive is spun up and takes commands.
    #[verifier::when_used_as_spec(spec_ready)]
    pub fn ready(&self) -> (set: bool)
        ensures
            set == (self.val & 0x40 != 0),
            set == self.has(Bitflags::RDY),
    {
        proof {
            lemma_masks();
        }
        self.val & (1 << Bitflags::RDY.bit()) > 0
    }

    /// Bit 7: the drive is busy and owns the registers.
    pub open spec fn spec_busy(&self) -> bool {
        self.val & 0x80 != 0
    }

    /// Bit 7: the drive is busy and owns the registers.
    #[verifier::when_used_as_spec(spec_busy)]
    pub fn busy(&self) -> (set: bool)
        ensures
            set == (self.val & 0x80 != 0),
            set == self.has(Bitflags::BSY),
    {
        proof {
            lemma_masks();
        }
        self.val & (1 << Bitflags::BSY.bit()) > 0
    }

}

/// Each flag's mask, written out.
pub proof fn lemma_masks()
    ensures
        Bitflags::ERR.spec_mask() == 0x01,
        Bitflags::IDX.spec_mask() == 0x02,
        Bitflags::CORR.spec_mask() == 0x04,
        Bitflags::DRQ.spec_mask() == 0x08,
        Bitflags::SRV.spec_mask() == 0x10,
        Bitflags::DF.spec_mask() == 0x20,
        Bitflags::RDY.spec_mask() == 0x40,
        Bitflags::BSY.spec_mask() == 0x80,
{
    assert(1u8 << 0u8 == 0x01 && 1u8 << 1u8 == 0x02 && 1u8 << 2u8 == 0x04 && 1u8 << 3u8 == 0x08
        && 1u8 << 4u8 == 0x10 && 1u8 << 5u8 == 0x20 && 1u8 << 6u8 == 0x40 && 1u8 << 7u8 == 0x80)
        by (bit_vector);
}

} // verus!
