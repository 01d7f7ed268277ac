use smolgnet::wire::crc::{crc32_gnet, crc8_gnet};

#[test]
fn check_crc8() {
    assert_eq!(crc8_gnet(b"123456789"), 0xF4);
}

#[test]
fn check_crc32() {
    assert_eq!(crc32_gnet(b"123456789"), 0xFC89_1918);
}

#[test]
fn every_single_bit_flip_changes_the_crc32() {
    let data = b"GNet CRC-32 detects single-bit errors".to_vec();
    let good = crc32_gnet(&data);
    for k in 0..data.len() {
        for m in 0..8 {
            let mut bad = data.clone();
            bad[k] ^= 1 << m;
            assert_ne!(crc32_gnet(&bad), good);
        }
    }
}
