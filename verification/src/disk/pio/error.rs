//! The error register: eight flags that say why a command failed.

use vstd::prelude::*;

verus! {

/// The flags of the error register, in the order of their bits: the first
/// variant is bit 0, the last is bit 7.
#[derive(Clone, Copy, PartialEq, Eq, Structural, Debug)]
pub enum Bitflags {
    AMNF,
    TKZNF,
    ABRT,
    MCR,
    IDNF,
    MC,
    UNC,
    BBK,
}

impl Bitflags {
    /// The number of the flag's bit, counted from the least significant.
    pub open spec fn spec_bit(self) -> u8 {
        match self {
            Bitflags::AMNF => 0,
            Bitflags::TKZNF => 1,
            Bitflags::ABRT => 2,
            Bitflags::MCR => 3,
            Bitflags::IDNF => 4,
            Bitflags::MC => 5,
            Bitflags::UNC => 6,
            Bitflags::BBK => 7,
        }
    }

    /// The number of the flag's bit, counted from the least significant.
    #[verifier::when_used_as_spec(spec_bit)]
    pub fn bit(self) -> (n: u8)
        ensures
            n == self.spec_bit(),
            n < 8,
    {
        match self {
            Bitflags::AMNF => 0,
            Bitflags::TKZNF => 1,
            Bitflags::ABRT => 2,
            Bitflags::MCR => 3,
            Bitflags::IDNF => 4,
            Bitflags::MC => 5,
            Bitflags::UNC => 6,
            Bitflags::BBK => 7,
        }
    }

    /// The byte in which the flag's bit is set and no other.
    pub open spec fn spec_mask(self) -> u8 {
        1u8 << self.spec_bit()
    }

    /// The byte in which the flag's bit is set and no other.
    #[verifier::when_used_as_spec(spec_mask)]
    pub fn mask(self) -> (m: u8)
        ensures
            m == self.spec_mask(),
    {
        1u8 << self.bit()
    }
}

/// One sample of the error register. It means something only right after a
/// status sample that has `ERR` set.
#[derive(Clone, Copy, PartialEq, Eq, Structural, Debug)]
pub struct Error {
    pub val: u8,
}

impl Error {
    /// Whether `flag` is set in the sample.
    pub open spec fn spec_has(&self, flag: Bitflags) -> bool {
        self.val & flag.spec_mask() != 0
    }

    /// Whether `flag` is set in the sample.
    #[verifier::when_used_as_spec(spec_has)]
    pub fn has(&self, flag: Bitflags) -> (set: bool)
        ensures
            set == self.spec_has(flag),
    {
        self.val & flag.mask() != 0
    }

    /// Bit 0: no address mark was found.
    pub open spec fn spec_address_mark_not_found(&self) -> bool {
        self.val & 0x01 != 0
    }

    /// Bit 0: no address mark was found.
    #[verifier::when_used_as_spec(spec_address_mark_not_found)]
    pub fn address_mark_not_found(&self) -> (set: bool)
        ensures
            set == (self.val & 0x01 != 0),
            set == self.has(Bitflags::AMNF),
    {
        proof {
            lemma_masks();
        }
        self.val & (1 << Bitflags::AMNF.bit()) > 0
    }

    /// Bit 1: track zero was not found.
    pub open spec fn spec_track_zero_not_found(&self) -> bool {
        self.val & 0x02 != 0
    }

    /// Bit 1: track zero was not found.
    #[verifier::when_used_as_spec(spec_track_zero_not_found)]
    pub fn track_zero_not_found(&self) -> (set: bool)
        ensures
            set == (self.val & 0x02 != 0),
            set == self.has(Bitflags::TKZNF),
    {
        proof {
            lemma_masks();
        }
        self.val & (1 << Bitflags::TKZNF.bit()) > 0
    }

    /// Bit 2: the command was aborted.
    pub open spec fn spec_aborted_command(&self) -> bool {
        self.val & 0x04 != 0
    }

    /// Bit 2: the command was aborted.
    #[verifier::when_used_as_spec(spec_aborted_command)]
    pub fn aborted_command(&self) -> (set: bool)
        ensures
            set == (self.val & 0x04 != 0),
            set == self.has(Bitflags::ABRT),
    {
        proof {
            lemma_masks();
        }
        self.val & (1 << Bitflags::ABRT.bit()) > 0
    }

    /// Bit 3: a change of media was requested.
    pub open spec fn spec_media_change_request(&self) -> bool {
        self.val & 0x08 != 0
    }

    /// Bit 3: a change of media was requested.
    #[verifier::when_used_as_spec(spec_media_change_request)]
    pub fn media_change_request(&self) -> (set: bool)
        ensures
            set == (self.val & 0x08 != 0),
            set == self.has(Bitflags::MCR),
    {
        proof {
            lemma_masks();
        }
        self.val & (1 << Bitflags::MCR.bit()) > 0
    }

    /// Bit 4: the sector's ID was not found.
    pub open spec fn spec_id_not_found(&self) -> bool {
        self.val & 0x10 != 0
    }

    /// Bit 4: the sector's ID was not found.
    #[verifier::when_used_as_spec(spec_id_not_found)]
    pub fn id_not_found(&self) -> (set: bool)
        ensures
            set == (self.val & 0x10 != 0),
            set == self.has(Bitflags::IDNF),
    {
        proof {
            lemma_masks();
        }
        self.val & (1 << Bitflags::IDNF.bit()) > 0
    }

    /// Bit 5: the media changed.
    pub open spec fn spec_media_changed(&self) -> bool {
        self.val & 0x20 != 0
    }

    /// Bit 5: the media changed.
    #[verifier::when_used_as_spec(spec_media_changed)]
    pub fn media_changed(&self) -> (set: bool)
        ensures
            set == (self.val & 0x20 != 0),
            set == self.has(Bitflags::MC),
    {
        proof {
            lemma_masks();
        }
        self.val & (1 << Bitflags::MC.bit()) > 0
    }

    /// Bit 6: the data holds an error that cannot be corrected.
    pub open spec fn spec_uncorrectable_data(&self) -> bool {
        self.val & 0x40 != 0
    }

    /// Bit 6: the data holds an error that cannot be corrected.
    #[verifier::when_used_as_spec(spec_uncorrectable_data)]
    pub fn uncorrectable_data(&self) -> (set: bool)
        ensures
            set == (self.val & 0x40 != 0),
            set == self.has(Bitflags::UNC),
    {
        proof {
            lemma_masks();
        }
        self.val & (1 << Bitflags::UNC.bit()) > 0
    }

    /// Bit 7: the block is marked bad.
    pub open spec fn spec_bad_block(&self) -> bool {
        self.val & 0x80 != 0
    }

    /// Bit 7: the block is marked bad.
    #[verifier::when_used_as_spec(spec_bad_block)]
    pub fn bad_block(&self) -> (set: bool)
        ensures
            set == (self.val & 0x80 != 0),
            set == self.has(Bitflags::BBK),
    {
        proof {
            lemma_masks();
        }
        self.val & (1 << Bitflags::BBK.bit()) > 0
    }

}

/// Each flag's mask, written out.
pub proof fn lemma_masks()
    ensures
        Bitflags::AMNF.spec_mask() == 0x01,
        Bitflags::TKZNF.spec_mask() == 0x02,
        Bitflags::ABRT.spec_mask() == 0x04,
        Bitflags::MCR.spec_mask() == 0x08,
        Bitflags::IDNF.spec_mask() == 0x10,
        Bitflags::MC.spec_mask() == 0x20,
        Bitflags::UNC.spec_mask() == 0x40,
        Bitflags::BBK.spec_mask() == 0x80,
{
    assert(1u8 << 0u8 == 0x01 && 1u8 << 1u8 == 0x02 && 1u8 << 2u8 == 0x04 && 1u8 << 3u8 == 0x08
        && 1u8 << 4u8 == 0x10 && 1u8 << 5u8 == 0x20 && 1u8 << 6u8 == 0x40 && 1u8 << 7u8 == 0x80)
        by (bit_vector);
}

} // verus!
