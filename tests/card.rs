use psxmem::{update_checksum, validate_checksum, MCError, MemCard, BLOCK, CARD_SIZE, FRAME};

/// Title bytes for plain text: space, digits and latin letters in their double-byte form.
fn title_bytes(text: &str) -> [u8; 64] {
    let mut t = [0u8; 64];
    let mut p = 0;
    for c in text.bytes() {
        let (lead, trail) = match c {
            b' ' => (0x81, 0x40),
            b'0'..=b'9' | b'A'..=b'Z' => (0x82, c + 0x1f),
            b'a'..=b'z' => (0x82, c + 0x20),
            _ => panic!("no double-byte form in this helper"),
        };
        t[p] = lead;
        t[p + 1] = trail;
        p += 2;
    }
    t
}

/// Writes one save block: title frame with `display`, a palette, icon data and payload.
fn put_save(img: &mut [u8], block: usize, title: &str, display: u8) {
    let base = block * BLOCK;
    img[base] = b'S';
    img[base + 1] = b'C';
    img[base + 2] = display;
    img[base + 3] = 1;
    img[base + 4..base + 68].copy_from_slice(&title_bytes(title));
    for i in 0..16u16 {
        let colour: u16 = i * 0x0421;
        img[base + 96 + 2 * i as usize..base + 98 + 2 * i as usize]
            .copy_from_slice(&colour.to_le_bytes());
    }
    for i in FRAME..BLOCK {
        img[base + i] = (i % 251) as u8;
    }
}

/// A complete, consistent card image: slot 0 holds "Wild Arms", slot 1 "Tekken 3", slot 2
/// "Wild ARMS 2"; the other slots are free.
fn card_image() -> Vec<u8> {
    let mut img = vec![0u8; CARD_SIZE];
    img[0] = b'M';
    img[1] = b'C';
    for slot in 0..15 {
        let off = FRAME * (1 + slot);
        let state: u32 = if slot < 3 { 0x51 } else { 0xa0 };
        img[off..off + 4].copy_from_slice(&state.to_le_bytes());
        img[off + 4..off + 8].copy_from_slice(&8192u32.to_le_bytes());
        img[off + 8..off + 10].copy_from_slice(&0xffffu16.to_le_bytes());
        img[off + 10..off + 31].copy_from_slice(b"BASCUS-94491WILDARMS\0");
    }
    for entry in 0..20 {
        let off = FRAME * (16 + entry);
        img[off..off + 4].copy_from_slice(&0xffff_ffffu32.to_le_bytes());
    }
    img[63 * FRAME] = b'M';
    img[63 * FRAME + 1] = b'C';
    for k in 0..64 {
        update_checksum(&mut img[k * FRAME..(k + 1) * FRAME]);
    }
    put_save(&mut img, 1, "Wild Arms", 0x11);
    put_save(&mut img, 2, "Tekken 3", 0x12);
    put_save(&mut img, 3, "Wild ARMS 2", 0x13);
    img
}

#[test]
fn memcard_open() {
    let m = MemCard::open(&card_image()).unwrap();
    assert_eq!(m.info.dir_frames.len(), 15);
    assert_eq!(m.info.broken_frames.len(), 20);
    assert_eq!(m.data.len(), 15);
    assert_eq!(m.info.header.id, [b'M', b'C']);
}

#[test]
fn memcard_write() {
    let img = card_image();
    let m = MemCard::open(&img).unwrap();
    let w = m.find_game("WILD");
    assert_eq!(w.len(), 2);
    for i in &w {
        assert!(i.title_frame.decode_title().to_lowercase().contains("wild"));
    }
    let out = m.write();
    assert_eq!(out.len(), CARD_SIZE);
    assert_eq!(out, img);
}

#[test]
fn memcard_modify() {
    let mut a = MemCard::open(&card_image()).unwrap();
    a.info.header.id = [0x11, 0x22];
    let bytes = a.write();

    let mut b = MemCard::open(&bytes).unwrap();
    assert_eq!(b.info.header.id, [0x11, 0x22]);
    b.info.dir_frames[0].filesize = 4000000;
    let bytes = b.write();

    let mut c = MemCard::open(&bytes).unwrap();
    assert_eq!(c.info.dir_frames[0].filesize, 4000000);
    c.info.broken_frames[0].broken_frame = 12345;
    let bytes = c.write();

    let d = MemCard::open(&bytes).unwrap();
    assert_eq!(d.info.header.id, [0x11, 0x22]);
    assert_eq!(d.info.dir_frames[0].filesize, 4000000);
    assert_eq!(d.info.broken_frames[0].broken_frame, 12345);
}

#[test]
fn round_trip_keeps_every_field() {
    let m = MemCard::open(&card_image()).unwrap();
    let again = MemCard::open(&m.write()).unwrap();
    assert_eq!(again, m);
    assert_eq!(again.clone(), m);
    assert_eq!(again.info.header, m.info.header);
    assert_eq!(again.info.dir_frames, m.info.dir_frames);
    assert_eq!(again.info.broken_frames, m.info.broken_frames);
    assert_eq!(again.info.unused_frames, m.info.unused_frames);
    assert_eq!(again.info.wr_test_frame, m.info.wr_test_frame);
    for (x, y) in again.data.iter().zip(m.data.iter()) {
        assert_eq!(x.title_frame, y.title_frame);
        assert_eq!(x.icon_frames, y.icon_frames);
        assert_eq!(x.data_frames, y.data_frames);
    }
}

#[test]
fn edited_filesize_is_saved_with_fresh_checksum() {
    let mut m = MemCard::open(&card_image()).unwrap();
    let stale = m.info.dir_frames[2].checksum;
    m.info.dir_frames[2].filesize = 0x0001_2345;
    let bytes = m.write();
    let frame = &bytes[3 * FRAME..4 * FRAME];
    assert!(validate_checksum(frame).is_ok());
    assert_ne!(frame[127], stale);
    let again = MemCard::open(&bytes).unwrap();
    assert_eq!(again.info.dir_frames[2].filesize, 0x0001_2345);
    assert_eq!(again.info.dir_frames[2].checksum, frame[127]);
}

#[test]
fn short_input_is_truncated() {
    let img = card_image();
    assert!(matches!(MemCard::open(&img[..100]), Err(MCError::Truncated)));
    assert!(matches!(MemCard::open(&img[..CARD_SIZE - 1]), Err(MCError::Truncated)));
    assert!(matches!(MemCard::open(&[]), Err(MCError::Truncated)));
}

#[test]
fn corrupt_info_frame_is_bad_checksum() {
    let mut img = card_image();
    img[40 * FRAME + 5] ^= 0x01;
    assert!(matches!(MemCard::open(&img), Err(MCError::BadChecksum)));
    assert!(matches!(MemCard::open(&img[..BLOCK]), Err(MCError::BadChecksum)));
}

#[test]
fn save_blocks_carry_no_checksum() {
    let mut img = card_image();
    img[5 * BLOCK + 127] ^= 0xff;
    assert!(MemCard::open(&img).is_ok());
}

#[test]
fn find_game_ignores_case() {
    let m = MemCard::open(&card_image()).unwrap();
    let upper = m.find_game("WILD");
    let lower = m.find_game("wild");
    assert_eq!(upper.len(), 2);
    assert_eq!(lower.len(), 2);
    assert_eq!(upper[0].title_frame.decode_title(), "Wild Arms");
    assert_eq!(lower[0].title_frame.decode_title(), "Wild Arms");
    assert_eq!(upper[1].title_frame.decode_title(), "Wild ARMS 2");
    assert_eq!(m.find_game("arms 2").len(), 1);
    assert_eq!(m.find_game("tEKKEN").len(), 1);
    assert_eq!(m.find_game("zelda").len(), 0);
    assert_eq!(m.find_game("").len(), 15);
}

#[test]
fn find_game_returns_the_blocks_themselves() {
    let m = MemCard::open(&card_image()).unwrap();
    let found = m.find_game("tekken");
    assert_eq!(found[0].title_frame, m.data[1].title_frame);
    assert_eq!(found[0].icon_frames, m.data[1].icon_frames);
    assert_eq!(found[0].data_frames, m.data[1].data_frames);
}

#[test]
fn icon_counts_follow_display_byte() {
    let m = MemCard::open(&card_image()).unwrap();
    assert_eq!(m.data[0].icon_frames.len(), 1);
    assert_eq!(m.data[0].data_frames.len(), 62);
    assert_eq!(m.data[1].icon_frames.len(), 2);
    assert_eq!(m.data[1].data_frames.len(), 61);
    assert_eq!(m.data[2].icon_frames.len(), 3);
    assert_eq!(m.data[2].data_frames.len(), 60);
    assert_eq!(m.data[3].icon_frames.len(), 0);
    assert_eq!(m.data[3].data_frames.len(), 63);
}

#[test]
fn region_info_of_slot() {
    let m = MemCard::open(&card_image()).unwrap();
    let info = m.info.dir_frames[0].get_region_info().unwrap();
    assert_eq!(info.region, psxmem::Region::America);
    assert_eq!(info.license, psxmem::License::Sony);
    assert_eq!(info.name, "WILDARMS\0");
    assert_eq!(m.info.dir_frames[0].get_alloc_state(), psxmem::BAState::AllocFirst);
    assert_eq!(m.info.dir_frames[5].get_alloc_state(), psxmem::BAState::Free);
}

#[test]
fn export_images_of_saves() {
    let m = MemCard::open(&card_image()).unwrap();
    let one = m.data[0].export_all_images().unwrap();
    assert_eq!(one.frames_png.len(), 1);
    assert_eq!(&one.frames_png[0][..8], &[0x89, b'P', b'N', b'G', 0x0d, 0x0a, 0x1a, 0x0a]);
    assert!(one.animation_gif.is_none());
    let three = m.data[2].export_all_images().unwrap();
    assert_eq!(three.frames_png.len(), 3);
    let gif = three.animation_gif.unwrap();
    assert_eq!(&gif[..6], b"GIF89a");
    let none = m.data[3].export_all_images().unwrap();
    assert_eq!(none.frames_png.len(), 0);
    assert!(none.animation_gif.is_none());
}
