
/// CRC-32/CKSUM, computed by the `crc` crate directly.
fn crc32_cksum(data: &[u8]) -> u32 {
    crc::Crc::<u32>::new(&crc::CRC_32_CKSUM).checksum(data)
}
use dpia::persistent::{Data, RECORD_LEN};

fn sample_bytes() -> Vec<u8> {
    let mut b = Vec::new();
    b.extend_from_slice(&7u32.to_le_bytes());
    let mut ssid = [0u8; 32];
    ssid[..6].copy_from_slice(b"garden");
    b.extend_from_slice(&ssid);
    let mut pass = [0u8; 64];
    pass[..8].copy_from_slice(b"hunter22");
    b.extend_from_slice(&pass);
    b.extend_from_slice(&0xDEAD_BEEFu32.to_le_bytes());
    b
}

#[test]
fn crc32_check_value() {
    assert_eq!(crc32_cksum(b"123456789"), 0x765E_7680);
}

#[test]
fn record_reads_back() {
    let bytes = sample_bytes();
    let d = Data::from_bytes(&bytes);
    assert_eq!(d.boot_count, 7);
    assert_eq!(&d.wanted_ssid[..6], b"garden");
    assert_eq!(&d.ssid_pass[..8], b"hunter22");
    assert_eq!(d.crc32(), 0xDEAD_BEEF);
    assert_eq!(d.to_bytes(), bytes);
    assert_eq!(Data::from_bytes(&d.to_bytes()), d);
}

#[test]
fn flash_image_carries_the_seal() {
    let d = Data::from_bytes(&sample_bytes());
    let image = d.flash_image();
    assert_eq!(image.len(), RECORD_LEN);
    let mut zeroed = image.clone();
    zeroed[100..104].copy_from_slice(&[0, 0, 0, 0]);
    let crc = crc32_cksum(&zeroed);
    assert_eq!(&image[100..104], &crc.to_le_bytes());
    assert_eq!(&image[..100], &sample_bytes()[..100]);
    let sealed = d.sealed();
    assert_eq!(sealed.crc32(), crc);
    assert_eq!(sealed.sealed(), sealed);
}
