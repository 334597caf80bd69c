use mos_rpc::{
    check_write, device_location, device_name, format_mac, page_count, parse_hex64, post_buffer,
    read_buffer_len, BlockRequestError, PostBufferError, Region, Size,
};

#[test]
fn gpu_post_out_of_bounds() {
    let screen = Size { width: 100, height: 10 };
    let mut fb = vec![7u8; screen.framebuffer_size().unwrap()];
    let region = Region { x: screen.width - 10, y: 0, w: 20, h: 1 };
    let data = vec![1u8; 80];
    let r = post_buffer(&mut fb, screen, region, &data);
    assert_eq!(r, Err(PostBufferError::OutOfBounds));
    assert!(!PostBufferError::OutOfBounds.message().is_empty());
    assert!(fb.iter().all(|b| *b == 7));
}

#[test]
fn gpu_post_copies_rows() {
    let screen = Size { width: 4, height: 3 };
    let mut fb = vec![0u8; screen.framebuffer_size().unwrap()];
    assert_eq!(fb.len(), 48);
    let region = Region { x: 1, y: 1, w: 2, h: 2 };
    let data: Vec<u8> = (1..=16).collect();
    assert_eq!(post_buffer(&mut fb, screen, region, &data), Ok(()));
    assert_eq!(&fb[20..28], &data[0..8]);
    assert_eq!(&fb[36..44], &data[8..16]);
    assert!(fb[..20].iter().all(|b| *b == 0));
    assert!(fb[28..36].iter().all(|b| *b == 0));
    assert!(fb[44..].iter().all(|b| *b == 0));
}

#[test]
fn gpu_post_size_mismatch() {
    let screen = Size { width: 4, height: 3 };
    let mut fb = vec![0u8; 48];
    let r = post_buffer(&mut fb, screen, Region { x: 0, y: 0, w: 2, h: 2 }, &vec![1u8; 15]);
    assert_eq!(r, Err(PostBufferError::SizeMismatch));
    assert!(!PostBufferError::SizeMismatch.message().is_empty());
}

#[test]
fn block_sizes() {
    assert_eq!(read_buffer_len(2), Ok(1024));
    assert_eq!(read_buffer_len(u64::MAX), Err(BlockRequestError::TooLarge));
    assert_eq!(check_write(1024, 2), Ok(()));
    assert_eq!(check_write(1000, 2), Err(BlockRequestError::SizeMismatch));
    assert!(!BlockRequestError::SizeMismatch.message().is_empty());
}

#[test]
fn mmio_pages_round_up() {
    assert_eq!(page_count(0, 4096), 0);
    assert_eq!(page_count(1, 4096), 1);
    assert_eq!(page_count(4096, 4096), 1);
    assert_eq!(page_count(4097, 4096), 2);
}

#[test]
fn device_names() {
    assert_eq!(device_location(0, 1, 0), "00:01:00");
    assert_eq!(device_location(0xab, 0x1f, 7), "ab:1f:07");
    assert_eq!(device_name("blockdev.virtio.", 0, 1, 0), "blockdev.virtio.00:01:00");
    assert_eq!(format_mac(&[0x52, 0x54, 0, 0x12, 0x34, 0xff]), "52:54:00:12:34:ff");
}

#[test]
fn hex_numbers() {
    assert_eq!(parse_hex64("0xe0000000").unwrap(), 0xe000_0000);
    assert_eq!(parse_hex64("0XaB").unwrap(), 0xab);
    assert_eq!(parse_hex64("ff").unwrap(), 255);
    assert_eq!(parse_hex64("+10").unwrap(), 16);
    assert!(parse_hex64("0x").is_err());
    assert!(parse_hex64("").is_err());
    assert!(parse_hex64("0xg1").is_err());
    assert!(parse_hex64("1_0").is_err());
    assert!(parse_hex64("10000000000000000").is_err());
}
