use psxmem::{
    calc_checksum, update_checksum, validate_checksum, Block, DataBlock, DirectoryFrame, Frame,
    IconDisplay, MCError, Record, TitleFrame,
};

fn title_frame(title: [u8; 64], display: u8, palette: [u16; 16]) -> TitleFrame {
    TitleFrame {
        id: [b'S', b'C'],
        display,
        block_num: 1,
        title,
        reserved: [0; 28],
        icon_palette: palette,
    }
}

fn title_of(prefix: &[u8]) -> [u8; 64] {
    let mut t = [0u8; 64];
    t[..prefix.len()].copy_from_slice(prefix);
    t
}

#[test]
fn checksum_is_xor_of_first_127_bytes() {
    let mut d = [0u8; 128];
    d[0] = 0x0f;
    d[1] = 0xf0;
    d[126] = 0x01;
    d[127] = 0xaa;
    assert_eq!(calc_checksum(&d), 0xfe);
    assert_eq!(calc_checksum(&[0x12, 0x34]), 0x26);
    assert_eq!(calc_checksum(&[]), 0);
}

#[test]
fn stamped_record_validates_and_flipped_fails() {
    let mut d = [0u8; 128];
    for (i, b) in d.iter_mut().enumerate() {
        *b = (i * 7) as u8;
    }
    assert!(matches!(validate_checksum(&d), Err(MCError::BadChecksum)));
    update_checksum(&mut d);
    assert_eq!(d[127], calc_checksum(&d));
    assert!(validate_checksum(&d).is_ok());
    for flip in [1u8, 0x80, 0xff] {
        let mut e = d;
        e[127] ^= flip;
        assert!(matches!(validate_checksum(&e), Err(MCError::BadChecksum)));
    }
}

#[test]
fn frame_load_checks_each_checksum() {
    let mut buf = vec![0u8; 3 * 128];
    for k in 0..3 {
        buf[k * 128] = k as u8 + 1;
        update_checksum(&mut buf[k * 128..(k + 1) * 128]);
    }
    let frames = Frame::load(&buf, 3).unwrap();
    assert_eq!(frames.len(), 3);
    assert_eq!(frames[2].data[0], 3);
    assert_eq!(frames[2].data[127], 3);
    assert_eq!(Frame::load(&buf, 0).unwrap().len(), 0);
    buf[2 * 128 + 10] = 9;
    assert!(matches!(Frame::load(&buf, 3), Err(MCError::BadChecksum)));
    assert_eq!(Frame::load(&buf, 2).unwrap().len(), 2);
}

#[test]
fn short_input_to_frame_loaders_is_truncated() {
    let mut buf = vec![0u8; 2 * 128 + 50];
    for k in 0..2 {
        update_checksum(&mut buf[k * 128..(k + 1) * 128]);
    }
    assert!(matches!(Frame::load(&buf, 3), Err(MCError::Truncated)));
    assert!(matches!(DirectoryFrame::load(&buf, 3), Err(MCError::Truncated)));
    assert!(matches!(psxmem::BrokenFrame::load(&buf, 5), Err(MCError::Truncated)));
    assert!(matches!(Frame::load(&[], 1), Err(MCError::Truncated)));
    assert_eq!(Frame::load(&buf, 2).unwrap().len(), 2);
    buf[130] ^= 1;
    assert!(matches!(Frame::load(&buf, 3), Err(MCError::BadChecksum)));
    assert!(matches!(DirectoryFrame::load(&buf, 3), Err(MCError::BadChecksum)));
}

#[test]
fn directory_frame_fields_are_little_endian() {
    let mut d = [0u8; 128];
    d[0..4].copy_from_slice(&[0x51, 0, 0, 0]);
    d[4..8].copy_from_slice(&[0x00, 0x20, 0x00, 0x00]);
    d[8..10].copy_from_slice(&[0x34, 0x12]);
    d[10] = b'B';
    d[127] = 0x77;
    let f = DirectoryFrame::from_bytes(&d);
    assert_eq!(f.state, 0x51);
    assert_eq!(f.filesize, 0x2000);
    assert_eq!(f.next_block, 0x1234);
    assert_eq!(f.filename[0], b'B');
    assert_eq!(f.checksum, 0x77);
    let mut out = Vec::new();
    f.write_bytes(&mut out);
    assert_eq!(out, d.to_vec());
}

#[test]
fn region_info_needs_utf8_product_id() {
    let mut d = [0u8; 128];
    d[10..31].copy_from_slice(b"BESLES-00000GAME\0\0\0\0\0");
    let f = DirectoryFrame::from_bytes(&d);
    let info = f.get_region_info().unwrap();
    assert_eq!(info.region, psxmem::Region::Europe);
    assert_eq!(info.license, psxmem::License::Licensed);
    assert_eq!(info.name, "GAME\0\0\0\0\0");
    let mut bad = f;
    bad.filename[14] = 0xff;
    bad.filename[1] = b'I';
    bad.filename[3] = b'X';
    assert!(matches!(bad.get_region_info(), Err(MCError::Utf8Error(_))));
    bad.filename[14] = b'Z';
    let info = bad.get_region_info().unwrap();
    assert_eq!(info.region, psxmem::Region::Japan);
    assert_eq!(info.license, psxmem::License::UNKNOWN);
}

#[test]
fn alloc_states() {
    let mut f = DirectoryFrame::from_bytes(&[0u8; 128]);
    let cases = [
        (0x51, psxmem::BAState::AllocFirst),
        (0x52, psxmem::BAState::AllocMid),
        (0x53, psxmem::BAState::AllocLast),
        (0xa0, psxmem::BAState::Free),
        (0xa1, psxmem::BAState::FreeFirst),
        (0xa2, psxmem::BAState::FreeMid),
        (0xa3, psxmem::BAState::FreeLast),
        (0x54, psxmem::BAState::UNKNOWN),
    ];
    for (state, expected) in cases {
        f.state = state;
        assert_eq!(f.get_alloc_state(), expected);
    }
}

#[test]
fn title_decodes_letters() {
    let t = title_frame(title_of(&[0x82, 0x60, 0x82, 0x61, 0x00, 0x00, 0x82, 0x62]), 0x11, [0; 16]);
    assert_eq!(t.decode_title(), "AB");
}

#[test]
fn title_starting_with_zero_is_empty() {
    let t = title_frame(title_of(&[0x00, 0x00, 0x82, 0x60]), 0x11, [0; 16]);
    assert_eq!(t.decode_title(), "");
}

#[test]
fn title_decodes_space_digits_and_lower_case() {
    let t = title_frame(
        title_of(&[0x82, 0x76, 0x82, 0x89, 0x81, 0x40, 0x82, 0x4f, 0x82, 0x58, 0x82, 0x81, 0x82, 0x9a]),
        0x11,
        [0; 16],
    );
    assert_eq!(t.decode_title(), "Wi 09az");
}

#[test]
fn title_skips_unknown_pairs() {
    let t = title_frame(
        title_of(&[0x81, 0x43, 0x82, 0x60, 0x82, 0x59, 0x41, 0x41, 0x82, 0x9b, 0x82, 0x61]),
        0x11,
        [0; 16],
    );
    assert_eq!(t.decode_title(), "AB");
}

#[test]
fn title_reads_whole_field_without_terminator() {
    let mut title = [0u8; 64];
    for p in 0..32 {
        title[2 * p] = 0x82;
        title[2 * p + 1] = 0x60 + (p % 26) as u8;
    }
    let t = title_frame(title, 0x11, [0; 16]);
    assert_eq!(t.decode_title(), "ABCDEFGHIJKLMNOPQRSTUVWXYZABCDEF");
}

#[test]
fn icon_display_values() {
    let mut t = title_frame([0; 64], 0x11, [0; 16]);
    assert_eq!(t.get_icon_display(), IconDisplay::OneFrame);
    t.display = 0x12;
    assert_eq!(t.get_icon_display(), IconDisplay::TwoFrames);
    t.display = 0x13;
    assert_eq!(t.get_icon_display(), IconDisplay::ThreeFrames);
    t.display = 0x03;
    assert_eq!(t.get_icon_display(), IconDisplay::UNKNOWNFrames);
}

fn block_with(title: &TitleFrame, fill: u8) -> Block {
    let mut out = Vec::new();
    title.write_bytes(&mut out);
    let mut b = Block { data: [fill; 8192] };
    b.data[..128].copy_from_slice(&out);
    b
}

#[test]
fn two_icon_block_has_61_payload_frames() {
    let t = title_frame([0; 64], 0x12, [0; 16]);
    let d = DataBlock::load_data_block(block_with(&t, 0x5a));
    assert_eq!(d.icon_frames.len(), 2);
    assert_eq!(d.data_frames.len(), 61);
    assert_eq!(d.title_frame, t);
}

#[test]
fn icon_count_is_masked_display() {
    let t = title_frame([0; 64], 0x14, [0; 16]);
    let d = DataBlock::load_data_block(block_with(&t, 1));
    assert_eq!(d.icon_frames.len(), 0);
    assert_eq!(d.data_frames.len(), 63);
    let t = title_frame([0; 64], 0x17, [0; 16]);
    let d = DataBlock::load_data_block(block_with(&t, 1));
    assert_eq!(d.icon_frames.len(), 3);
    assert_eq!(d.data_frames.len(), 60);
}

#[test]
fn data_block_writes_back_its_bytes() {
    let mut palette = [0u16; 16];
    palette[3] = 0xbeef;
    let t = title_frame(title_of(&[0x82, 0x60]), 0x12, palette);
    let mut b = block_with(&t, 0);
    for i in 128..8192 {
        b.data[i] = (i * 31 % 256) as u8;
    }
    let d = DataBlock::load_data_block(b);
    let mut out = Vec::new();
    d.write(&mut out);
    assert_eq!(out, b.data.to_vec());
    let all = DataBlock::load_all_data_blocks(&[b, b]);
    assert_eq!(all.len(), 2);
    assert_eq!(all[1].title_frame.icon_palette[3], 0xbeef);
}

#[test]
fn icon_rgba_is_1024_bytes() {
    let t = title_frame([0; 64], 0x11, [0x7fff; 16]);
    let d = DataBlock::load_data_block(block_with(&t, 0xa5));
    let rgba = d.translate_bmp_to_rgba(&Frame { data: [0x37; 128] });
    assert_eq!(rgba.len(), 1024);
    let rgba = d.translate_bmp_to_rgba(&Frame { data: [0; 128] });
    assert_eq!(rgba.len(), 1024);
}

#[test]
fn icon_rgba_scales_channels_and_orders_nibbles() {
    let mut palette = [0u16; 16];
    palette[1] = 0x001f;
    palette[2] = 0x03e0;
    palette[3] = 0x7c00;
    palette[4] = 0xffff;
    palette[5] = 0x0421;
    let t = title_frame([0; 64], 0x11, palette);
    let d = DataBlock::load_data_block(block_with(&t, 0));
    let mut data = [0u8; 128];
    data[0] = 0x21;
    data[1] = 0x43;
    data[2] = 0x05;
    let rgba = d.translate_bmp_to_rgba(&Frame { data });
    assert_eq!(&rgba[0..8], &[248, 0, 0, 255, 0, 248, 0, 255]);
    assert_eq!(&rgba[8..16], &[0, 0, 248, 255, 248, 248, 248, 255]);
    assert_eq!(&rgba[16..24], &[8, 8, 8, 255, 0, 0, 0, 255]);
    assert_eq!(&rgba[1016..1024], &[0, 0, 0, 255, 0, 0, 0, 255]);
}
