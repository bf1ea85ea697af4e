use qrcode53bytes::bits::BitStream;
use qrcode53bytes::data::encode_with_mode;
use qrcode53bytes::ec::add;
use qrcode53bytes::mask::{apply_mask, evaluate, mask, mask_fn, masked_darkness};
use qrcode53bytes::{ECLevel, Error, Mask, Matrix, Mode, Module, Qr, QrBuilder, StringRenderer, Version, ZigZagIt};

const URL: &str = "https://bestia.dev/mem6/#p04.1234";

const FORMAT: [u16; 8] = [
    0b111011111000100,
    0b111001011110011,
    0b111110110101010,
    0b111100010011101,
    0b110011000101111,
    0b110001100011000,
    0b110110001000001,
    0b110100101110110,
];

fn layout() -> Matrix {
    let mut b = QrBuilder::new();
    b.matrix = Matrix::new(29);
    b.add_fun_patterns();
    b.matrix
}

fn placed(s: &str) -> Matrix {
    let mut b = QrBuilder::new();
    b.matrix = Matrix::new(29);
    b.add_fun_patterns();
    b.add_data(s).unwrap();
    b.matrix
}

fn stream(s: &str) -> BitStream {
    let data = encode_with_mode(s, Mode::Byte, Version::new(3), ECLevel::L).unwrap();
    add(data, Version::new(3))
}

fn is_fun(m: Module) -> bool {
    matches!(m, Module::Function(_) | Module::Reserved)
}

fn format_pos1(i: usize) -> (usize, usize) {
    match i {
        0..=5 => (i, 8),
        6 => (7, 8),
        7 => (8, 8),
        8 => (8, 7),
        _ => (8, 14 - i),
    }
}

fn format_pos2(i: usize) -> (usize, usize) {
    if i < 7 {
        (8, 28 - i)
    } else {
        (i + 14, 8)
    }
}

#[test]
fn scenario_url_renders_29_by_29() {
    let qr = Qr::new(URL).unwrap();
    assert_eq!(qr.size(), 29);
    assert_eq!(qr.matrix.size, 29);
    assert_eq!(qr.mode, Mode::Byte);
    let text = StringRenderer::new().render(&qr);
    let lines: Vec<&str> = text.lines().collect();
    assert_eq!(lines.len(), 29);
    for l in &lines {
        assert_eq!(l.chars().count(), 29);
        assert!(l.chars().all(|c| c == '.' || c == '#'));
    }
    assert!(text.contains('.') && text.contains('#'));
}

#[test]
fn every_length_up_to_capacity_builds() {
    for n in 0..=53 {
        let s = "q".repeat(n);
        let qr = Qr::new(&s).unwrap();
        assert_eq!(qr.size(), 29);
        assert!(qr.matrix.complete());
    }
}

#[test]
fn finished_grid_has_no_unknown_or_reserved() {
    let qr = Qr::new("hi mem6").unwrap();
    for y in 0..29 {
        for x in 0..29 {
            let m = qr.matrix.get(x, y);
            assert!(m != Module::Unknown && m != Module::Reserved);
        }
    }
}

#[test]
fn placement_keeps_function_cells() {
    let before = layout();
    let after = placed(URL);
    for y in 0..29 {
        for x in 0..29 {
            let m = before.get(x, y);
            if is_fun(m) {
                assert_eq!(after.get(x, y), m);
            } else {
                assert_eq!(m, Module::Unknown);
                assert!(matches!(after.get(x, y), Module::Data(_)));
            }
        }
    }
}

#[test]
fn function_layout_has_expected_shape() {
    let l = layout();
    // Finder corners and centers are dark, the inner ring light.
    assert_eq!(l.get(0, 0), Module::Function(true));
    assert_eq!(l.get(1, 1), Module::Function(false));
    assert_eq!(l.get(3, 3), Module::Function(true));
    assert_eq!(l.get(7, 7), Module::Function(false));
    assert_eq!(l.get(28, 0), Module::Function(true));
    assert_eq!(l.get(0, 28), Module::Function(true));
    // The alignment pattern.
    assert_eq!(l.get(26, 26), Module::Function(true));
    assert_eq!(l.get(25, 25), Module::Function(false));
    assert_eq!(l.get(24, 24), Module::Function(true));
    // Timing patterns and the dark module.
    assert_eq!(l.get(10, 6), Module::Function(true));
    assert_eq!(l.get(6, 11), Module::Function(false));
    assert_eq!(l.get(8, 21), Module::Function(true));
    // Reserved format areas.
    assert_eq!(l.get(8, 8), Module::Reserved);
    assert_eq!(l.get(0, 8), Module::Reserved);
    assert_eq!(l.get(28, 8), Module::Reserved);
    assert_eq!(l.get(8, 28), Module::Reserved);
    assert_eq!(l.get(6, 8), Module::Function(true));
    // Free cells.
    assert_eq!(l.get(10, 10), Module::Unknown);
    assert_eq!(l.get(23, 23), Module::Unknown);
}

#[test]
fn same_input_same_code() {
    let a = Qr::new(URL).unwrap();
    let b = Qr::new(URL).unwrap();
    assert_eq!(a.mask, b.mask);
    assert_eq!(a, b);
}

#[test]
fn format_copies_agree() {
    for s in ["", "hi mem6", URL] {
        let qr = Qr::new(s).unwrap();
        let word = FORMAT[qr.mask.0];
        for i in 0..15 {
            let (x1, y1) = format_pos1(i);
            let (x2, y2) = format_pos2(i);
            let bit = (word >> (14 - i)) & 1 == 1;
            assert_eq!(qr.matrix.get(x1, y1), Module::Function(bit));
            assert_eq!(qr.matrix.get(x2, y2), Module::Function(bit));
        }
    }
}

#[test]
fn data_reads_back_along_the_zigzag() {
    let bits = stream(URL);
    let qr = QrBuilder::new().mask(Mask(2)).into(URL).unwrap();
    assert_eq!(qr.mask, Mask(2));
    let l = layout();
    let mut it = ZigZagIt::new(29);
    let mut read = Vec::new();
    while let Some((x, y)) = it.next() {
        if is_fun(l.get(x, y)) {
            continue;
        }
        match qr.matrix.get(x, y) {
            Module::Data(v) => read.push(v != mask_fn(2, x, y)),
            other => panic!("not data at {},{}: {:?}", x, y, other),
        }
    }
    assert_eq!(read.len(), bits.len());
    for (i, v) in read.iter().enumerate() {
        assert_eq!(*v, bits.get(i));
    }
}

#[test]
fn zigzag_traversal_order() {
    let mut it = ZigZagIt::new(29);
    let first: Vec<(usize, usize)> = (0..6).map(|_| it.next().unwrap()).collect();
    assert_eq!(first, vec![(28, 28), (27, 28), (28, 27), (27, 27), (28, 26), (27, 26)]);
    let mut it = ZigZagIt::new(29);
    let mut all = Vec::new();
    while let Some(c) = it.next() {
        all.push(c);
    }
    assert_eq!(all.len(), 28 * 29);
    assert!(all.iter().all(|&(x, y)| x != 6 && x < 29 && y < 29));
    // Going up the band of columns 8 and 7, then down columns 5 and 4.
    let i = all.iter().position(|&c| c == (7, 0)).unwrap();
    assert_eq!(all[i + 1], (5, 0));
    assert_eq!(all[i + 2], (4, 0));
    assert_eq!(all[i + 3], (5, 1));
    assert_eq!(*all.last().unwrap(), (0, 28));
    assert_eq!(it.next(), None);
    let mut sorted = all.clone();
    sorted.sort();
    sorted.dedup();
    assert_eq!(sorted.len(), all.len());
}

#[test]
fn best_mask_has_lowest_penalty() {
    for s in ["hi mem6", URL] {
        let m = placed(s);
        let scores: Vec<u64> = (0..8).map(|k| evaluate(&masked_darkness(&m, k))).collect();
        let min = *scores.iter().min().unwrap();
        let first = scores.iter().position(|&v| v == min).unwrap();
        assert_eq!(mask(&m).0, first);
        assert_eq!(Qr::new(s).unwrap().mask.0, first);
    }
}

#[test]
fn explicit_mask_is_used() {
    for k in 0..8 {
        let qr = QrBuilder::new().mask(Mask(k)).into("hi mem6").unwrap();
        assert_eq!(qr.mask, Mask(k));
    }
}

#[test]
fn mask_formulas() {
    assert!(mask_fn(0, 1, 1));
    assert!(!mask_fn(0, 1, 2));
    assert!(mask_fn(1, 5, 2));
    assert!(mask_fn(2, 3, 1));
    assert!(!mask_fn(2, 4, 1));
    assert!(mask_fn(3, 1, 2));
    assert!(mask_fn(4, 3, 2));
    assert!(!mask_fn(4, 3, 0));
    assert!(mask_fn(5, 6, 1));
    assert!(!mask_fn(5, 1, 1));
    assert!(mask_fn(6, 1, 1));
    assert!(!mask_fn(6, 2, 2));
    assert!(mask_fn(7, 1, 1) == false);
    assert!(mask_fn(7, 0, 0));
}

#[test]
fn apply_mask_flips_only_data() {
    let mut m = Matrix::new(3);
    m.set(0, 0, Module::Data(false));
    m.set(1, 0, Module::Function(false));
    m.set(2, 0, Module::Data(true));
    apply_mask(Mask(0), &mut m);
    assert_eq!(m.get(0, 0), Module::Data(true));
    assert_eq!(m.get(1, 0), Module::Function(false));
    assert_eq!(m.get(2, 0), Module::Data(false));
    assert_eq!(m.get(1, 1), Module::Unknown);
}

#[test]
fn penalty_of_small_grids() {
    assert_eq!(evaluate(&vec![vec![false]]), 90);
    assert_eq!(evaluate(&vec![vec![true]]), 100);
    assert_eq!(evaluate(&vec![vec![true, false], vec![false, true]]), 0);
    // Five light rows and columns of five, sixteen light blocks, no dark.
    assert_eq!(evaluate(&vec![vec![false; 5]; 5]), 30 + 48 + 90);
    // A run of six scores four.
    let mut g = vec![vec![false; 6]; 6];
    for y in 0..6 {
        for x in 0..6 {
            g[y][x] = (x + y) % 2 == 0;
        }
    }
    g[0] = vec![true; 6];
    // Row 0: 4; columns: none; blocks: none; 21 dark of 36 is 58%.
    assert_eq!(evaluate(&g), 4 + 10);
}

#[test]
fn penalty_finder_like_pattern() {
    let row = vec![true, false, true, true, true, false, true, false, false, false, false];
    let mut g = vec![vec![false; 11]; 11];
    for y in 0..11 {
        for x in 0..11 {
            g[y][x] = (x + y) % 2 == 0;
        }
    }
    let base = evaluate(&g);
    g[5] = row;
    assert!(evaluate(&g) >= base + 40);
}

#[test]
fn incomplete_builder_is_refused() {
    assert_eq!(QrBuilder::new().into_qr().err(), Some(Error::IncompleteBuilder));
    let mut b = QrBuilder::new();
    b.matrix = Matrix::new(29);
    b.add_fun_patterns();
    b.mask_with(Mask(1));
    assert_eq!(b.into_qr().err(), Some(Error::IncompleteBuilder));
}

#[test]
fn builder_steps_by_hand() {
    let mut b = QrBuilder::new().ecl(ECLevel::L);
    assert!(b.add_all("hi mem6").is_ok());
    let dbg = b.to_dbg_string();
    assert!(!dbg.contains('?') && !dbg.contains('*'));
    let qr = b.into_qr().unwrap();
    assert_eq!(qr, Qr::new("hi mem6").unwrap());
}
