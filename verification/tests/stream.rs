use dstu8845::generator::Dstu8845Core;
use dstu8845::stream::{Dstu8845, Dstu8845_256, Dstu8845_512, InvalidLength};
use dstu8845::tables::Tables;

fn mix(x: u64) -> u64 {
    let mut z = x.wrapping_add(0x9E37_79B9_7F4A_7C15);
    z = (z ^ (z >> 30)).wrapping_mul(0xBF58_476D_1CE4_E5B9);
    z = (z ^ (z >> 27)).wrapping_mul(0x94D0_49BB_1331_11EB);
    z ^ (z >> 31)
}

fn sample_tables() -> Tables {
    let mut tb = Tables { alpha_mul: [0; 256], alpha_inv_mul: [0; 256], t: [[0; 256]; 8] };
    for b in 0..256usize {
        tb.alpha_mul[b] = mix(b as u64);
        tb.alpha_inv_mul[b] = mix(256 + b as u64);
        for k in 0..8usize {
            tb.t[k][b] = mix(512 + 256 * k as u64 + b as u64);
        }
    }
    tb
}

fn zero_tables() -> Tables {
    Tables { alpha_mul: [0; 256], alpha_inv_mul: [0; 256], t: [[0; 256]; 8] }
}

fn iv_zero() -> [u8; 32] {
    [0; 32]
}

fn iv_counting() -> [u8; 32] {
    let mut iv = [0u8; 32];
    iv[0] = 1;
    iv[8] = 2;
    iv[16] = 3;
    iv[24] = 4;
    iv
}

fn key_256_top_bit() -> [u8; 32] {
    let mut k = [0u8; 32];
    k[31] = 0x80;
    k
}

fn key_512_top_bit() -> [u8; 64] {
    let mut k = [0u8; 64];
    k[63] = 0x80;
    k
}

fn keystream_256(tb: &Tables, key: &[u8], iv: &[u8], n: usize) -> Vec<u8> {
    let mut z = vec![0u8; n];
    let mut stream = Dstu8845_256::new_from_slices(tb, key, iv).unwrap();
    stream.apply_keystream(&mut z);
    z
}

fn keystream_512(tb: &Tables, key: &[u8], iv: &[u8], n: usize) -> Vec<u8> {
    let mut z = vec![0u8; n];
    let mut stream = Dstu8845_512::new_from_slices(tb, key, iv).unwrap();
    stream.apply_keystream(&mut z);
    z
}

fn le_words(bytes: &[u8]) -> Vec<u64> {
    let mut w = Vec::new();
    for chunk in bytes.chunks(8) {
        let mut b = [0u8; 8];
        b.copy_from_slice(chunk);
        w.push(u64::from_le_bytes(b));
    }
    w
}

#[test]
fn keystream_256_top_bit_zero_iv() {
    let tb = sample_tables();
    let mut z = [0u8; 64];
    let mut encoder = Dstu8845_256::new_from_slices(&tb, &key_256_top_bit(), &iv_zero()).unwrap();
    encoder.apply_keystream(&mut z);
    let expected: [u64; 8] = [
        0xda44bc53f4333364, 0x703b2389698e833d, 0xcd81c7b34f26f420, 0x03aa7530dbe8d49f,
        0x5819835c0d9a3f38, 0xfd687918741742bf, 0x60dc304f393ebf10, 0x35cfd0d75c69f1e5,
    ];
    assert_eq!(le_words(&z), expected);
}

#[test]
fn keystream_256_top_bit_counting_iv() {
    let tb = sample_tables();
    let mut z = [0u8; 64];
    let mut encoder = Dstu8845_256::new_from_slices(&tb, &key_256_top_bit(), &iv_counting()).unwrap();
    encoder.apply_keystream(&mut z);
    let expected: [u64; 8] = [
        0xe255133be012b52a, 0x3ad20cdbadce4f67, 0x6a30c4462aa01c40, 0x34288de3ee16f95d,
        0x317dbc107c96f7c7, 0xd8ca53f3e3577d89, 0xdb2c846ef52cbae7, 0xc8268321a8ccfcda,
    ];
    assert_eq!(le_words(&z), expected);
}

#[test]
fn keystream_256_repeated_aa_zero_iv() {
    let tb = sample_tables();
    let mut z = [0u8; 64];
    let mut encoder = Dstu8845_256::new_from_slices(&tb, &[0xAA; 32], &iv_zero()).unwrap();
    encoder.apply_keystream(&mut z);
    let expected: [u64; 8] = [
        0xbefc23803cb7613c, 0xeee82e04927f5460, 0xe4824c700539772b, 0x2f0cfbbc0594f9df,
        0xdd74d34da58f97ff, 0xf6c82e27705c384e, 0xa8312badcee95edc, 0x569eec07dd08af33,
    ];
    assert_eq!(le_words(&z), expected);
}

#[test]
fn keystream_256_repeated_aa_counting_iv() {
    let tb = sample_tables();
    let mut z = [0u8; 64];
    let mut encoder = Dstu8845_256::new_from_slices(&tb, &[0xAA; 32], &iv_counting()).unwrap();
    encoder.apply_keystream(&mut z);
    let expected: [u64; 8] = [
        0x0ccd2b42c12a09ff, 0x3497be5661813ab5, 0x08abec01fc1c1b8a, 0x06aa745bb8740018,
        0x0a7ddef691c92265, 0xea2e2093cf4900e2, 0xf5601d3ad18c1f18, 0x5034216819200927,
    ];
    assert_eq!(le_words(&z), expected);
}

#[test]
fn keystream_512_top_bit_zero_iv() {
    let tb = sample_tables();
    let mut z = [0u8; 64];
    let mut encoder = Dstu8845_512::new_from_slices(&tb, &key_512_top_bit(), &iv_zero()).unwrap();
    encoder.apply_keystream(&mut z);
    let expected: [u64; 8] = [
        0xff99efa6dbe23b90, 0xdbe9efc6120bd5a8, 0x6119fb1172a60bd2, 0x5caa3f37963a110b,
        0x22b232916beb95bd, 0x2c5a0ed4128a7740, 0x23a57e0b32296546, 0xa08f1b7f6d8836bc,
    ];
    assert_eq!(le_words(&z), expected);
}

#[test]
fn keystream_512_top_bit_counting_iv() {
    let tb = sample_tables();
    let mut z = [0u8; 64];
    let mut encoder = Dstu8845_512::new_from_slices(&tb, &key_512_top_bit(), &iv_counting()).unwrap();
    encoder.apply_keystream(&mut z);
    let expected: [u64; 8] = [
        0xaa36e2631011481b, 0xc4106d0cf1ef5266, 0x6e2f2070579ff98a, 0xbf5201ce595a40af,
        0x0969a9af2cff71b1, 0xab000604337affa5, 0x6aa42c1cbbaa42dc, 0x0671f19dbdbd5e53,
    ];
    assert_eq!(le_words(&z), expected);
}

#[test]
fn keystream_512_repeated_aa_zero_iv() {
    let tb = sample_tables();
    let mut z = [0u8; 64];
    let mut encoder = Dstu8845_512::new_from_slices(&tb, &[0xAA; 64], &iv_zero()).unwrap();
    encoder.apply_keystream(&mut z);
    let expected: [u64; 8] = [
        0xbd483a871e7f11a9, 0x322702d637785a05, 0x9e0a721156c9f63b, 0x85c1d3b263cb2e97,
        0x1ac66fd11c9ef75e, 0x37400d87689112b4, 0xa36c3085cf1c5ad0, 0x424d04ccf2913ae7,
    ];
    assert_eq!(le_words(&z), expected);
}

#[test]
fn keystream_512_repeated_aa_counting_iv() {
    let tb = sample_tables();
    let mut z = [0u8; 64];
    let mut encoder = Dstu8845_512::new_from_slices(&tb, &[0xAA; 64], &iv_counting()).unwrap();
    encoder.apply_keystream(&mut z);
    let expected: [u64; 8] = [
        0x9dfdbda76f6010ae, 0x82d00e2b2930441d, 0x35a576ab8a638c6d, 0xd80cd1cb2d09d227,
        0x0650c280d6930a9f, 0xda9f577fec86c4df, 0x3de3d0a37cb9290c, 0x934aba4b568b7e67,
    ];
    assert_eq!(le_words(&z), expected);
}

#[test]
fn new_from_slices_256_rejects_other_key_lengths() {
    let tb = sample_tables();
    let iv = [0u8; 32];
    for n in [0usize, 1, 16, 31, 33, 63, 64, 65] {
        let key = vec![0x5Au8; n];
        assert_eq!(Dstu8845_256::new_from_slices(&tb, &key, &iv).err(), Some(InvalidLength));
    }
    assert!(Dstu8845_256::new_from_slices(&tb, &[0x5Au8; 32], &iv).is_ok());
}

#[test]
fn new_from_slices_512_rejects_other_key_lengths() {
    let tb = sample_tables();
    let iv = [0u8; 32];
    for n in [0usize, 1, 31, 32, 33, 63, 65, 128] {
        let key = vec![0x5Au8; n];
        assert_eq!(Dstu8845_512::new_from_slices(&tb, &key, &iv).err(), Some(InvalidLength));
    }
    assert!(Dstu8845_512::new_from_slices(&tb, &[0x5Au8; 64], &iv).is_ok());
}

#[test]
fn new_from_slices_rejects_other_iv_lengths() {
    let tb = sample_tables();
    for n in [0usize, 1, 8, 16, 31, 33, 64] {
        let iv = vec![0u8; n];
        assert_eq!(Dstu8845_256::new_from_slices(&tb, &[0x5Au8; 32], &iv).err(), Some(InvalidLength));
        assert_eq!(Dstu8845_512::new_from_slices(&tb, &[0x5Au8; 64], &iv).err(), Some(InvalidLength));
    }
}

#[test]
fn new_from_slices_rejects_when_both_lengths_are_wrong() {
    let tb = sample_tables();
    assert_eq!(Dstu8845_256::new_from_slices(&tb, &[0u8; 31], &[0u8; 33]).err(), Some(InvalidLength));
    assert_eq!(Dstu8845_512::new_from_slices(&tb, &[0u8; 65], &[0u8; 31]).err(), Some(InvalidLength));
}

#[test]
fn new_and_new_from_slices_agree() {
    let tb = sample_tables();
    let key = [0x3Cu8; 32];
    let iv = iv_counting();
    let mut a = Dstu8845_256::new(&tb, &key, &iv);
    let mut b = Dstu8845_256::new_from_slices(&tb, &key, &iv).unwrap();
    let mut x = [0u8; 200];
    let mut y = [0u8; 200];
    a.apply_keystream(&mut x);
    b.apply_keystream(&mut y);
    assert_eq!(x, y);
    let wide = [0x3Cu8; 64];
    let mut c = Dstu8845_512::new(&tb, &wide, &iv);
    let mut d = Dstu8845_512::new_from_slices(&tb, &wide, &iv).unwrap();
    c.apply_keystream(&mut x);
    d.apply_keystream(&mut y);
    assert_eq!(x, y);
}

#[test]
fn same_key_and_iv_give_the_same_keystream() {
    let tb = sample_tables();
    for n in [0usize, 1, 7, 8, 127, 128, 129, 255, 256, 257, 1000] {
        assert_eq!(
            keystream_256(&tb, &[0x5A; 32], &iv_counting(), n),
            keystream_256(&tb, &[0x5A; 32], &iv_counting(), n)
        );
        assert_eq!(
            keystream_512(&tb, &[0x5A; 64], &iv_counting(), n),
            keystream_512(&tb, &[0x5A; 64], &iv_counting(), n)
        );
    }
}

#[test]
fn shorter_keystream_is_a_prefix_of_longer() {
    let tb = sample_tables();
    let long = keystream_256(&tb, &[0x5A; 32], &iv_zero(), 700);
    for n in [0usize, 1, 64, 128, 129, 300, 699] {
        assert_eq!(keystream_256(&tb, &[0x5A; 32], &iv_zero(), n), long[..n]);
    }
}

#[test]
fn a_second_stream_restores_the_data() {
    let tb = sample_tables();
    let key = [0xC3u8; 32];
    let iv = iv_counting();
    let plain: Vec<u8> = (0..777u32).map(|i| (i * 7 + 3) as u8).collect();
    let mut data = plain.clone();
    Dstu8845_256::new_from_slices(&tb, &key, &iv).unwrap().apply_keystream(&mut data);
    assert_ne!(data, plain);
    Dstu8845_256::new_from_slices(&tb, &key, &iv).unwrap().apply_keystream(&mut data);
    assert_eq!(data, plain);
}

#[test]
fn a_second_stream_restores_hello_world() {
    let tb = sample_tables();
    let key = [0x17u8; 64];
    let iv = [0x29u8; 32];
    let mut text = b"Hello World".to_vec();
    let mut encoder = Dstu8845_512::new(&tb, &key, &iv);
    encoder.apply_keystream(text.as_mut_slice());
    assert_ne!(text.as_slice(), b"Hello World".as_slice());
    let mut decoder = Dstu8845_512::new(&tb, &key, &iv);
    decoder.apply_keystream(text.as_mut_slice());
    assert_eq!(text.as_slice(), b"Hello World".as_slice());
}

#[test]
fn the_same_stream_does_not_restore_the_data() {
    let tb = sample_tables();
    let plain = [0x42u8; 64];
    let mut data = plain;
    let mut stream = Dstu8845_256::new(&tb, &[0xC3; 32], &iv_zero());
    stream.apply_keystream(&mut data);
    stream.apply_keystream(&mut data);
    assert_ne!(data, plain);
}

#[test]
fn two_calls_of_128_equal_one_of_256() {
    let tb = sample_tables();
    let key = [0x5Au8; 32];
    let iv = iv_counting();
    let whole = keystream_256(&tb, &key, &iv, 256);
    let mut stream = Dstu8845_256::new_from_slices(&tb, &key, &iv).unwrap();
    let mut first = [0u8; 128];
    let mut second = [0u8; 128];
    stream.apply_keystream(&mut first);
    stream.apply_keystream(&mut second);
    assert_eq!(&whole[..128], &first[..]);
    assert_eq!(&whole[128..], &second[..]);
}

#[test]
fn any_split_gives_the_same_keystream() {
    let tb = sample_tables();
    let key = [0x5Au8; 64];
    let iv = iv_counting();
    let whole = keystream_512(&tb, &key, &iv, 600);
    for sizes in [
        vec![1usize; 600],
        vec![100, 156, 344],
        vec![127, 1, 128, 129, 215],
        vec![0, 600],
        vec![600, 0],
        vec![5, 0, 123, 0, 472],
        vec![128, 128, 128, 128, 88],
        vec![129, 127, 257, 87],
    ] {
        let mut stream = Dstu8845_512::new_from_slices(&tb, &key, &iv).unwrap();
        let mut got = Vec::new();
        for n in sizes {
            let mut piece = vec![0u8; n];
            stream.apply_keystream(&mut piece);
            got.extend_from_slice(&piece);
        }
        assert_eq!(got, whole);
    }
}

#[test]
fn data_in_pieces_comes_out_as_data_in_one() {
    let tb = sample_tables();
    let key = [0x77u8; 32];
    let iv = [0x99u8; 32];
    let plain: Vec<u8> = (0..500u32).map(|i| (i * 13 + 1) as u8).collect();
    let mut whole = plain.clone();
    Dstu8845_256::new(&tb, &key, &iv).apply_keystream(&mut whole);
    let mut pieces = plain.clone();
    let mut stream = Dstu8845_256::new(&tb, &key, &iv);
    let (head, tail) = pieces.split_at_mut(131);
    stream.apply_keystream(head);
    let (middle, end) = tail.split_at_mut(250);
    stream.apply_keystream(middle);
    stream.apply_keystream(end);
    assert_eq!(pieces, whole);
}

#[test]
fn apply_keystream_is_exclusive_or_with_the_keystream() {
    let tb = sample_tables();
    let key = [0x77u8; 32];
    let iv = [0x99u8; 32];
    let ks = keystream_256(&tb, &key, &iv, 300);
    let plain: Vec<u8> = (0..300u32).map(|i| (i * 31 + 5) as u8).collect();
    let mut data = plain.clone();
    Dstu8845_256::new(&tb, &key, &iv).apply_keystream(&mut data);
    for i in 0..300 {
        assert_eq!(data[i], plain[i] ^ ks[i]);
    }
}

#[test]
fn empty_buffer_changes_nothing() {
    let tb = sample_tables();
    let mut stream = Dstu8845_256::new(&tb, &[0x5A; 32], &iv_zero());
    let mut nothing: [u8; 0] = [];
    stream.apply_keystream(&mut nothing);
    stream.apply_keystream(&mut nothing);
    let mut z = [0u8; 64];
    stream.apply_keystream(&mut z);
    assert_eq!(z.to_vec(), keystream_256(&tb, &[0x5A; 32], &iv_zero(), 64));
}

#[test]
fn keystream_is_the_blocks_of_the_core_in_order() {
    let tb = sample_tables();
    let key = [0x5Au8; 32];
    let iv = iv_counting();
    let mut core = Dstu8845Core::<4>::new(&tb, key, iv);
    let mut blocks = Vec::new();
    for _ in 0..3 {
        blocks.extend_from_slice(&core.next_block());
    }
    assert_eq!(keystream_256(&tb, &key, &iv, 384), blocks);
}

#[test]
fn from_core_starts_at_the_next_block_of_the_core() {
    let tb = sample_tables();
    let key = [0x5Au8; 64];
    let iv = iv_counting();
    let mut core = Dstu8845Core::<8>::new(&tb, key, iv);
    core.next_block();
    let mut stream = Dstu8845::from_core(core);
    let mut z = [0u8; 50];
    stream.apply_keystream(&mut z);
    assert_eq!(&z[..], &keystream_512(&tb, &key, &iv, 178)[128..]);
}

#[test]
fn one_flipped_bit_changes_nearly_every_byte_of_the_first_block() {
    let tb = sample_tables();
    let key = [0x5Au8; 32];
    let iv = iv_counting();
    let base = keystream_256(&tb, &key, &iv, 128);
    for bit in [0usize, 7, 8, 63, 64, 100, 128, 200, 255] {
        let mut k = key;
        k[bit / 8] ^= 1 << (bit % 8);
        let other = keystream_256(&tb, &k, &iv, 128);
        assert!((0..128).filter(|&i| other[i] != base[i]).count() >= 120);
        let mut v = iv;
        v[bit / 8] ^= 1 << (bit % 8);
        let other = keystream_256(&tb, &key, &v, 128);
        assert!((0..128).filter(|&i| other[i] != base[i]).count() >= 120);
    }
}

#[test]
fn zeroize_blanks_pending_keystream_and_key() {
    let tb = sample_tables();
    let mut stream = Dstu8845_256::new(&tb, &[0x5A; 32], &iv_counting());
    let mut z = [0u8; 10];
    stream.apply_keystream(&mut z);
    assert_ne!(z, [0u8; 10]);
    stream.zeroize();
    let mut after = [0u8; 300];
    stream.apply_keystream(&mut after[..246]);
    assert_eq!(&after[..246], &[0u8; 246][..]);
    let mut wide = Dstu8845_512::new(&tb, &[0x5A; 64], &iv_counting());
    wide.apply_keystream(&mut z);
    wide.zeroize();
    let mut after = [0xFFu8; 118];
    wide.apply_keystream(&mut after);
    assert_eq!(after, [0xFFu8; 118]);
}

#[test]
fn zeroize_before_any_use_leaves_nothing_pending() {
    let tb = sample_tables();
    let mut a = Dstu8845_256::new(&tb, &[0x5A; 32], &iv_counting());
    a.zeroize();
    let mut b = Dstu8845::from_core({
        let mut core = Dstu8845Core::<4>::new(&tb, [0x33; 32], iv_zero());
        core.zeroize();
        core
    });
    let mut x = [0u8; 200];
    let mut y = [0u8; 200];
    a.apply_keystream(&mut x);
    b.apply_keystream(&mut y);
    assert_eq!(x, y);
    assert_eq!(&x[..128], &[0u8; 128][..]);
    assert_ne!(&x[128..], &[0u8; 72][..]);
}
