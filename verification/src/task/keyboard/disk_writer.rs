//! Text on the disk, as the text editor keeps it.
//!
//! The text is a run of bytes from the start of the disk, two to a word, the
//! low byte first. It ends before the first word that is 0; a byte of 0 is
//! never written. The writer holds the sector in which the text ends and
//! knows where in it the next byte goes. It reads and writes no sector
//! itself: it says which sector is to be read into its buffer or written from
//! it, and the caller does so.

use crate::disk::pio::SECTOR_WORDS;
use vstd::prelude::*;

verus! {

/// The two low bytes of the character's code: what of a character goes to the
/// disk.
pub open spec fn spec_code(c: char) -> u16 {
    ((c as u32) & 0xFFFF) as u16
}

/// The two low bytes of the character's code.
#[verifier::when_used_as_spec(spec_code)]
pub fn code(c: char) -> (code: u16)
    ensures
        code == spec_code(c),
{
    let wide: u32 = c as u32;
    assert(wide & 0xFFFF < 0x1_0000) by (bit_vector);
    (wide & 0xFFFF) as u16
}

/// The bytes that the words hold, two for each word, the low byte first.
pub open spec fn spec_unpack(words: Seq<u16>) -> Seq<u8> {
    Seq::new(
        2 * words.len(),
        |i: int|
            if i % 2 == 0 {
                (words[i / 2] & 0xFF) as u8
            } else {
                (words[i / 2] >> 8) as u8
            },
    )
}

/// The bytes that the words hold, two for each word, the low byte first.
pub fn unpack(words: &[u16]) -> (bytes: Vec<u8>)
    ensures
        bytes@ == spec_unpack(words@),
{
    let mut bytes: Vec<u8> = Vec::new();
    let mut at: usize = 0;
    while at < words.len()
        invariant
            at <= words@.len(),
            bytes@ == spec_unpack(words@.take(at as int)),
        decreases words@.len() - at,
    {
        let word = words[at];
        assert(word & 0xFF < 0x100 && word >> 8 < 0x100) by (bit_vector);
        bytes.push((word & 0xFF) as u8);
        bytes.push((word >> 8) as u8);
        at += 1;
        assert(bytes@ =~= spec_unpack(words@.take(at as int)));
    }
    assert(words@.take(at as int) =~= words@);
    bytes
}

/// Word `at` of the sector is 0, and no word before it is: the text ends
/// there.
pub open spec fn first_zero(buf: Seq<u16>, at: int) -> bool {
    &&& 0 <= at < buf.len()
    &&& buf[at] == 0
    &&& forall|i: int| 0 <= i < at ==> buf[i] != 0
}

/// The end of the text on the disk and the sector that holds it.
pub struct DiskWriter {
    /// The sector in which the text ends.
    pub current_lba: u32,
    /// That sector's words.
    pub current_buf: [u16; 256],
    /// The word of the sector that takes the next byte.
    pub current_buf_offset: u16,
    /// Whether that word holds a byte already, in its low half.
    pub is_in_word: bool,
}

impl DiskWriter {
    /// The next byte has a place in the buffer.
    pub open spec fn wf(&self) -> bool {
        self.current_buf_offset < SECTOR_WORDS
    }

    /// A writer at the start of an empty disk.
    pub fn new() -> (writer: DiskWriter)
        ensures
            writer.wf(),
            writer.current_lba == 0,
            writer.current_buf@ == Seq::new(SECTOR_WORDS as nat, |i: int| 0u16),
            writer.current_buf_offset == 0,
            !writer.is_in_word,
    {
        let current_buf: [u16; 256] = [0;256];
        assert(current_buf@ =~= Seq::new(SECTOR_WORDS as nat, |i: int| 0u16));
        DiskWriter { current_lba: 0, current_buf, current_buf_offset: 0, is_in_word: false }
    }

    /// Looks for the end of the text in sector `lba`, whose words are `buf`.
    ///
    /// The text ends in this sector if one of its words is 0. The next byte
    /// then goes to the first such word, or, if the word before it has its
    /// high byte free, to that high byte. The writer takes the sector as its
    /// own and the search is over. If no word is 0 the text goes on in the
    /// next sector, and the writer stays as it is.
    pub fn init(&mut self, lba: u32, buf: &[u16; 256]) -> (found: bool)
        ensures
            found <==> exists|at: int| first_zero(buf@, at),
            !found ==> *final(self) == *old(self),
            found ==> final(self).wf(),
            found ==> final(self).current_lba == lba,
            found ==> final(self).current_buf == *buf,
            forall|at: int|
                first_zero(buf@, at) ==> {
                    let back = at != 0 && buf@[at - 1] >> 8 == 0;
                    &&& final(self).current_buf_offset == if back {
                        at - 1
                    } else {
                        at
                    }
                    &&& final(self).is_in_word == (back || old(self).is_in_word)
                },
    {
        let mut at: usize = 0;
        while at < SECTOR_WORDS
            invariant
                at <= SECTOR_WORDS,
                buf@.len() == SECTOR_WORDS,
                forall|i: int| 0 <= i < at ==> buf@[i] != 0,
                *self == *old(self),
            decreases SECTOR_WORDS - at,
        {
            if buf[at] == 0 {
                assert(first_zero(buf@, at as int));
                assert forall|other: int| first_zero(buf@, other) implies other == at by {
                    if other < at {
                        assert(buf@[other] != 0);
                    }
                }
                self.current_buf_offset = at as u16;
                if at != 0 && (buf[at - 1] >> 8) == 0 {
                    self.current_buf_offset = (at - 1) as u16;
                    self.is_in_word = true;
                }
                self.current_lba = lba;
                self.current_buf = *buf;
                return true;
            }
            at += 1;
        }
        false
    }

    /// Puts the character behind the text: into the low byte of the current
    /// word, or into its high byte if the low byte is taken, which completes
    /// the word. The sector is then to be written; see
    /// [`next_sector`](DiskWriter::next_sector) for what follows a word that
    /// was the sector's last.
    pub fn put(&mut self, c: char)
        requires
            old(self).wf(),
        ensures
            final(self).current_lba == old(self).current_lba,
            final(self).current_buf@ == old(self).current_buf@.update(
                old(self).current_buf_offset as int,
                if old(self).is_in_word {
                    old(self).current_buf@[old(self).current_buf_offset as int] | (spec_code(c)
                        << 8)
                } else {
                    old(self).current_buf@[old(self).current_buf_offset as int] | spec_code(c)
                },
            ),
            final(self).current_buf_offset == if old(self).is_in_word {
                old(self).current_buf_offset + 1
            } else {
                old(self).current_buf_offset as int
            },
            final(self).is_in_word == !old(self).is_in_word,
    {
        let off = self.current_buf_offset as usize;
        if !self.is_in_word {
            self.current_buf[off] = self.current_buf[off] | code(c);
        } else {
            self.current_buf[off] = self.current_buf[off] | (code(c) << 8);
        }
        if self.is_in_word {
            self.current_buf_offset += 1;
        }
        self.is_in_word = !self.is_in_word;
    }

    /// Whether the sector is full: its last word has been completed.
    pub fn is_full(&self) -> (full: bool)
        ensures
            full == (self.current_buf_offset == SECTOR_WORDS),
    {
        self.current_buf_offset as usize == SECTOR_WORDS
    }

    /// Goes on to the sector behind a full one, at its first byte. That sector
    /// is then to be read into the buffer.
    pub fn next_sector(&mut self)
        requires
            old(self).current_lba < u32::MAX,
        ensures
            final(self).wf(),
            final(self).current_lba == old(self).current_lba + 1,
            final(self).current_buf == old(self).current_buf,
            final(self).current_buf_offset == 0,
            !final(self).is_in_word,
    {
        self.current_lba += 1;
        self.current_buf_offset = 0;
        self.is_in_word = false;
    }

    /// The first half of taking back a byte: steps back to the place of the
    /// last byte. At the very start of a sector that is not the first, the
    /// place is the last word of the sector before; the writer goes there and
    /// returns true, and that sector is then to be read into the buffer. At
    /// the start of the first sector the writer stays where it is.
    pub fn step_back(&mut self) -> (previous: bool)
        requires
            old(self).wf(),
        ensures
            final(self).wf(),
            final(self).current_buf == old(self).current_buf,
            final(self).is_in_word == old(self).is_in_word,
            previous == (old(self).current_buf_offset == 0 && !old(self).is_in_word
                && old(self).current_lba != 0),
            final(self).current_lba == if previous {
                old(self).current_lba - 1
            } else {
                old(self).current_lba as int
            },
            final(self).current_buf_offset == if previous {
                255
            } else if old(self).current_buf_offset != 0 && !old(self).is_in_word {
                old(self).current_buf_offset - 1
            } else {
                old(self).current_buf_offset as int
            },
    {
        if self.current_buf_offset == 0 && !self.is_in_word {
            if self.current_lba != 0 {
                self.current_lba -= 1;
                self.current_buf_offset = 255;
                return true;
            }
        } else if !self.is_in_word {
            self.current_buf_offset -= 1;
        }
        false
    }

    /// The second half of taking back a byte: wipes the byte at the writer's
    /// place. A byte in a low half goes with its whole word; a byte in a high
    /// half leaves the low half as it is. The sector is then to be written.
    pub fn wipe(&mut self)
        requires
            old(self).wf(),
        ensures
            final(self).wf(),
            final(self).current_lba == old(self).current_lba,
            final(self).current_buf_offset == old(self).current_buf_offset,
            final(self).is_in_word == !old(self).is_in_word,
            final(self).current_buf@ == old(self).current_buf@.update(
                old(self).current_buf_offset as int,
                if old(self).is_in_word {
                    0u16
                } else {
                    old(self).current_buf@[old(self).current_buf_offset as int] & 0xFF
                },
            ),
    {
        self.is_in_word = !self.is_in_word;
        let off = self.current_buf_offset as usize;
        if !self.is_in_word {
            self.current_buf[off] = 0;
        } else {
            self.current_buf[off] = self.current_buf[off] & 0xFF;
        }
    }

    /// The bytes of the sector's whole words of text.
    pub fn written(&self) -> (bytes: Vec<u8>)
        requires
            self.current_buf_offset <= SECTOR_WORDS,
        ensures
            bytes@ == spec_unpack(self.current_buf@.take(self.current_buf_offset as int)),
    {
        unpack(vstd::slice::slice_subrange(&self.current_buf, 0, self.current_buf_offset as usize))
    }

    /// The byte of the word that is half written, if one is.
    pub fn half_word(&self) -> (byte: Option<u8>)
        requires
            self.is_in_word ==> self.wf(),
        ensures
            byte == if self.is_in_word {
                Some((self.current_buf@[self.current_buf_offset as int] & 0xFF) as u8)
            } else {
                None
            },
    {
        if self.is_in_word {
            let word = self.current_buf[self.current_buf_offset as usize];
            assert(word & 0xFF < 0x100) by (bit_vector);
            Some((word & 0xff) as u8)
        } else {
            None
        }
    }

    /// Forgets the text: the writer goes to word 0 of sector 0 and its buffer
    /// is all zero. Whether a word counts as half written stays as it was: a
    /// writer that was in the middle of a word still is. Every sector up to the
    /// one it held is then to be written with zeros.
    pub fn clear(&mut self)
        ensures
            final(self).wf(),
            final(self).current_lba == 0,
            final(self).current_buf@ == Seq::new(SECTOR_WORDS as nat, |i: int| 0u16),
            final(self).current_buf_offset == 0,
            final(self).is_in_word == old(self).is_in_word,
    {
        let blank: [u16; 256] = [0;256];
        assert(blank@ =~= Seq::new(SECTOR_WORDS as nat, |i: int| 0u16));
        self.current_buf = blank;
        self.current_buf_offset = 0;
        self.current_lba = 0;
    }
}

} // verus!
