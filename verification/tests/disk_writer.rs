use rust_os::task::keyboard::disk_writer::{code, unpack};
use rust_os::task::keyboard::DiskWriter;

fn sector_of(text: &[u8]) -> [u16; 256] {
    let mut sector = [0u16; 256];
    for (i, byte) in text.iter().enumerate() {
        if i % 2 == 0 {
            sector[i / 2] |= *byte as u16;
        } else {
            sector[i / 2] |= (*byte as u16) << 8;
        }
    }
    sector
}

#[test]
fn trivial_assertion() {
    assert_eq!(1, 1);
}

#[test]
fn a_new_writer_is_at_the_start_of_an_empty_disk() {
    let writer = DiskWriter::new();
    assert_eq!(writer.current_lba, 0);
    assert_eq!(writer.current_buf, [0u16; 256]);
    assert_eq!(writer.current_buf_offset, 0);
    assert!(!writer.is_in_word);
    assert!(!writer.is_full());
}

#[test]
fn code_keeps_the_two_low_bytes() {
    assert_eq!(code('a'), 0x61);
    assert_eq!(code('\u{8}'), 8);
    assert_eq!(code('\u{20AC}'), 0x20AC);
    assert_eq!(code('\u{1F600}'), 0xF600);
}

#[test]
fn init_finds_the_end_after_whole_words() {
    let mut writer = DiskWriter::new();
    let sector = sector_of(b"abcd");
    assert!(writer.init(3, &sector));
    assert_eq!(writer.current_lba, 3);
    assert_eq!(writer.current_buf, sector);
    assert_eq!(writer.current_buf_offset, 2);
    assert!(!writer.is_in_word);
}

#[test]
fn init_finds_the_end_in_the_middle_of_a_word() {
    let mut writer = DiskWriter::new();
    let sector = sector_of(b"abc");
    assert!(writer.init(0, &sector));
    assert_eq!(writer.current_buf_offset, 1);
    assert!(writer.is_in_word);
}

#[test]
fn init_on_an_empty_sector_starts_at_its_first_word() {
    let mut writer = DiskWriter::new();
    assert!(writer.init(7, &[0u16; 256]));
    assert_eq!(writer.current_lba, 7);
    assert_eq!(writer.current_buf_offset, 0);
    assert!(!writer.is_in_word);
}

#[test]
fn init_passes_over_a_full_sector() {
    let mut writer = DiskWriter::new();
    let full = [0x6161u16; 256];
    assert!(!writer.init(0, &full));
    assert_eq!(writer.current_lba, 0);
    assert_eq!(writer.current_buf, [0u16; 256]);
    assert_eq!(writer.current_buf_offset, 0);
    assert!(!writer.is_in_word);
}

#[test]
fn init_keeps_the_flag_it_had_when_the_word_before_is_full() {
    let mut writer = DiskWriter::new();
    writer.is_in_word = true;
    assert!(writer.init(0, &sector_of(b"ab")));
    assert_eq!(writer.current_buf_offset, 1);
    assert!(writer.is_in_word);
}

#[test]
fn put_packs_two_bytes_into_a_word() {
    let mut writer = DiskWriter::new();
    writer.put('h');
    assert_eq!(writer.current_buf[0], 0x0068);
    assert_eq!(writer.current_buf_offset, 0);
    assert!(writer.is_in_word);
    writer.put('i');
    assert_eq!(writer.current_buf[0], 0x6968);
    assert_eq!(writer.current_buf_offset, 1);
    assert!(!writer.is_in_word);
    writer.put('!');
    assert_eq!(writer.current_buf[1], 0x0021);
    assert_eq!(writer.current_buf, sector_of(b"hi!"));
}

#[test]
fn a_sector_is_full_after_512_bytes() {
    let mut writer = DiskWriter::new();
    for i in 0..512 {
        assert!(!writer.is_full());
        writer.put(if i % 2 == 0 { 'x' } else { 'y' });
    }
    assert!(writer.is_full());
    assert_eq!(writer.current_buf, [0x7978u16; 256]);
    writer.next_sector();
    assert_eq!(writer.current_lba, 1);
    assert_eq!(writer.current_buf_offset, 0);
    assert!(!writer.is_in_word);
    assert!(!writer.is_full());
}

#[test]
fn taking_back_a_high_byte_keeps_the_low_byte() {
    let mut writer = DiskWriter::new();
    writer.put('a');
    writer.put('b');
    assert!(!writer.step_back());
    assert_eq!(writer.current_buf_offset, 0);
    writer.wipe();
    assert_eq!(writer.current_buf[0], 0x0061);
    assert_eq!(writer.current_buf_offset, 0);
    assert!(writer.is_in_word);
}

#[test]
fn taking_back_a_low_byte_clears_the_word() {
    let mut writer = DiskWriter::new();
    writer.put('a');
    assert!(!writer.step_back());
    writer.wipe();
    assert_eq!(writer.current_buf[0], 0);
    assert_eq!(writer.current_buf_offset, 0);
    assert!(!writer.is_in_word);
}

#[test]
fn taking_back_at_the_start_of_a_later_sector_goes_to_the_sector_before() {
    let mut writer = DiskWriter::new();
    assert!(writer.init(2, &[0u16; 256]));
    assert!(writer.step_back());
    assert_eq!(writer.current_lba, 1);
    assert_eq!(writer.current_buf_offset, 255);
    assert!(!writer.is_in_word);
    // the caller reads sector 1 into the buffer
    writer.current_buf = [0x6261u16; 256];
    writer.wipe();
    assert_eq!(writer.current_buf[255], 0x0061);
    assert!(writer.is_in_word);
    assert_eq!(writer.current_buf[254], 0x6261);
}

#[test]
fn taking_back_at_the_start_of_the_disk_stays_there() {
    let mut writer = DiskWriter::new();
    assert!(!writer.step_back());
    assert_eq!(writer.current_lba, 0);
    assert_eq!(writer.current_buf_offset, 0);
    writer.wipe();
    assert_eq!(writer.current_buf[0], 0);
    assert!(writer.is_in_word);
}

#[test]
fn clear_forgets_the_text() {
    let mut writer = DiskWriter::new();
    assert!(writer.init(4, &sector_of(b"hello")));
    writer.clear();
    assert_eq!(writer.current_lba, 0);
    assert_eq!(writer.current_buf, [0u16; 256]);
    assert_eq!(writer.current_buf_offset, 0);
    assert!(writer.is_in_word);
}

#[test]
fn unpack_gives_the_low_byte_first() {
    assert_eq!(unpack(&[0x6261, 0x0063]), vec![0x61, 0x62, 0x63, 0x00]);
    assert_eq!(unpack(&[]), Vec::<u8>::new());
    assert_eq!(unpack(&sector_of(b"hello")[..3]), b"hello\0".to_vec());
}

#[test]
fn written_gives_the_whole_words_of_text() {
    let mut writer = DiskWriter::new();
    assert_eq!(writer.written(), Vec::<u8>::new());
    assert_eq!(writer.half_word(), None);
    for c in "hello".chars() {
        writer.put(c);
    }
    assert_eq!(writer.written(), b"hell".to_vec());
    assert_eq!(writer.half_word(), Some(b'o'));
    writer.put('!');
    assert_eq!(writer.written(), b"hello!".to_vec());
    assert_eq!(writer.half_word(), None);
}
