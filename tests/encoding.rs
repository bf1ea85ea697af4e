use qrcode53bytes::bits::BitStream;
use qrcode53bytes::data::{append, encode, encode_with_mode};
use qrcode53bytes::ec::{add, generate_ec_codewords};
use qrcode53bytes::info::{
    block_ec_count, format_info, group_block_count, total_bits, total_codewords,
};
use qrcode53bytes::{ECLevel, Error, Mask, Mode, Qr, Version};

const HI_MEM6_DATA: [u8; 55] = [
    64, 118, 134, 146, 6, 214, 86, 211, 96, 236, 17, 236, 17, 236, 17, 236, 17, 236, 17, 236, 17,
    236, 17, 236, 17, 236, 17, 236, 17, 236, 17, 236, 17, 236, 17, 236, 17, 236, 17, 236, 17, 236,
    17, 236, 17, 236, 17, 236, 17, 236, 17, 236, 17, 236, 17,
];
const HI_MEM6_EC: [u8; 15] = [50, 128, 238, 140, 248, 231, 101, 95, 119, 243, 1, 66, 80, 167, 47];

const URL: &str = "https://bestia.dev/mem6/#p04.1234";
const URL_DATA: [u8; 55] = [
    66, 22, 135, 71, 71, 7, 51, 162, 242, 246, 38, 87, 55, 70, 150, 18, 230, 70, 87, 98, 246, 214,
    86, 211, 98, 242, 55, 3, 3, 66, 227, 19, 35, 51, 64, 236, 17, 236, 17, 236, 17, 236, 17, 236, 17,
    236, 17, 236, 17, 236, 17, 236, 17, 236, 17,
];
const URL_EC: [u8; 15] = [68, 100, 92, 168, 149, 254, 15, 134, 151, 67, 174, 74, 114, 63, 251];

fn bits_to_bytes(b: &BitStream, from: usize, count: usize) -> Vec<u8> {
    let mut out = Vec::new();
    for k in 0..count {
        let mut v = 0u8;
        for j in 0..8 {
            v = (v << 1) | (b.get(from + 8 * k + j) as u8);
        }
        out.push(v);
    }
    out
}

fn codewords(s: &str) -> BitStream {
    let data = encode_with_mode(s, Mode::Byte, Version::new(3), ECLevel::L).unwrap();
    add(data, Version::new(3))
}

#[test]
fn data_stream_fills_capacity() {
    for s in ["", "a", "hi mem6", URL, &"z".repeat(53)] {
        let b = encode_with_mode(s, Mode::Byte, Version::new(3), ECLevel::L).unwrap();
        assert_eq!(b.len(), 440);
    }
}

#[test]
fn data_stream_layout_hi_mem6() {
    let b = encode_with_mode("hi mem6", Mode::Byte, Version::new(3), ECLevel::L).unwrap();
    assert_eq!(b.to_bytes(), HI_MEM6_DATA.to_vec());
}

#[test]
fn encode_picks_byte_mode() {
    let (mode, b) = encode(URL, Version::new(3), ECLevel::L).unwrap();
    assert_eq!(mode, Mode::Byte);
    assert_eq!(b.to_bytes(), URL_DATA.to_vec());
}

#[test]
fn stream_with_ec_has_expected_length() {
    let b = codewords("hi mem6");
    assert_eq!(b.len(), 440 + 15 * 8 * 1 + 7);
}

#[test]
fn codewords_match_reference_hi_mem6() {
    let b = codewords("hi mem6");
    assert_eq!(bits_to_bytes(&b, 0, 55), HI_MEM6_DATA.to_vec());
    assert_eq!(bits_to_bytes(&b, 440, 15), HI_MEM6_EC.to_vec());
    for i in 560..567 {
        assert!(!b.get(i));
    }
}

#[test]
fn codewords_match_reference_url() {
    let b = codewords(URL);
    assert_eq!(bits_to_bytes(&b, 0, 55), URL_DATA.to_vec());
    assert_eq!(bits_to_bytes(&b, 440, 15), URL_EC.to_vec());
}

#[test]
fn codewords_of_empty_payload() {
    let b = codewords("");
    let data = bits_to_bytes(&b, 0, 55);
    assert_eq!(&data[..4], &[64, 0, 236, 17]);
    assert_eq!(
        bits_to_bytes(&b, 440, 15),
        vec![22, 85, 99, 16, 93, 37, 227, 241, 57, 99, 3, 170, 125, 104, 16]
    );
}

#[test]
fn ec_codewords_of_block() {
    assert_eq!(generate_ec_codewords(&HI_MEM6_DATA), HI_MEM6_EC.to_vec());
    assert_eq!(generate_ec_codewords(&URL_DATA), URL_EC.to_vec());
}

#[test]
fn payload_of_53_bytes_is_accepted() {
    let s = "x".repeat(53);
    assert!(encode_with_mode(&s, Mode::Byte, Version::new(3), ECLevel::L).is_ok());
    assert!(Qr::new(&s).is_ok());
}

#[test]
fn payload_of_54_bytes_is_too_long() {
    let s = "x".repeat(54);
    assert_eq!(
        encode_with_mode(&s, Mode::Byte, Version::new(3), ECLevel::L).err(),
        Some(Error::MessageTooLong)
    );
    assert_eq!(Qr::new(&s).err(), Some(Error::MessageTooLong));
    assert_eq!(Qr::new(&"y".repeat(500)).err(), Some(Error::MessageTooLong));
}

#[test]
fn length_counts_utf8_bytes() {
    // 27 characters of two bytes each.
    let s = "\u{e9}".repeat(27);
    assert_eq!(s.len(), 54);
    assert_eq!(Qr::new(&s).err(), Some(Error::MessageTooLong));
    let t = "\u{e9}".repeat(26);
    assert!(Qr::new(&t).is_ok());
}

#[test]
fn mode_and_level_bits() {
    let m = Mode::Byte.to_bitvec();
    assert_eq!((0..m.len()).map(|i| m.get(i)).collect::<Vec<_>>(), vec![false, true, false, false]);
    let e = ECLevel::L.to_bitvec();
    assert_eq!((0..e.len()).map(|i| e.get(i)).collect::<Vec<_>>(), vec![false, true]);
    assert!(Mode::Byte.matches("anything #"));
    assert!(Mode::in_byte(""));
    assert_eq!(Mode::from_str("abc"), Mode::Byte);
}

#[test]
fn profile_numbers() {
    assert_eq!(total_codewords(), 55);
    assert_eq!(total_bits(), 440);
    assert_eq!(group_block_count(), vec![55]);
    assert_eq!(block_ec_count(), 15);
}

#[test]
fn format_bits_of_masks() {
    let f = format_info(Mask(0));
    let bits: String = (0..f.len()).map(|i| if f.get(i) { '1' } else { '0' }).collect();
    assert_eq!(bits, "111011111000100");
    let f = format_info(Mask(7));
    let bits: String = (0..f.len()).map(|i| if f.get(i) { '1' } else { '0' }).collect();
    assert_eq!(bits, "110100101110110");
}

#[test]
fn append_writes_high_bits_first() {
    let mut b = BitStream::new();
    append(&mut b, 0b1101, 4);
    append(&mut b, 0x1ff, 2);
    let v: Vec<bool> = (0..b.len()).map(|i| b.get(i)).collect();
    assert_eq!(v, vec![true, true, false, true, true, true]);
}

#[test]
fn bit_stream_bytes_round_trip() {
    let b = BitStream::from_bytes(vec![0x80, 0x01, 0xa5]);
    assert_eq!(b.len(), 24);
    assert!(b.get(0));
    assert!(!b.get(1));
    assert!(b.get(15));
    assert_eq!(b.to_bytes(), vec![0x80, 0x01, 0xa5]);
    let mut c = BitStream::new();
    c.push(true);
    c.push(false);
    c.push(true);
    let mut d = BitStream::new();
    d.push(false);
    d.extend_from(&c);
    assert_eq!((0..d.len()).map(|i| d.get(i)).collect::<Vec<_>>(), vec![false, true, false, true]);
}

#[test]
fn version_numbers() {
    let v = Version::new(3);
    assert_eq!(v.size(), 29);
    assert_eq!(v.capacity(), 53);
    assert_eq!(v.index(), 2);
    assert_eq!(v.dark_module_pos(), (8, 21));
    assert!(!v.extra_version_areas());
    assert!(Version(7).extra_version_areas());
    assert_eq!(v.char_count_len(Mode::Byte), 8);
}
