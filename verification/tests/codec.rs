use libtardis::codec::{decode, encode, seal_frame};
use libtardis::crypto::NonceSeq;
use libtardis::error::{CodecError, EncodeError, TardisError};
use libtardis::lz4::{can_frame, is_decompressible, MAX_FF_RUN};
use libtardis::serialization::TardisResource;
use ring::aead::{
    Aad, BoundKey, LessSafeKey, Nonce, NonceSequence, OpeningKey, SealingKey, UnboundKey,
    CHACHA20_POLY1305,
};
use ring::error::Unspecified;

const KEY: [u8; 32] = [
    1, 2, 3, 4, 5, 6, 7, 8, 9, 10, 11, 12, 13, 14, 15, 16, 17, 18, 19, 20, 21, 22, 23, 24, 25, 26,
    27, 28, 29, 30, 31, 32,
];

struct Counting(NonceSeq);

impl NonceSequence for Counting {
    fn advance(&mut self) -> Result<Nonce, Unspecified> {
        self.0.advance().map(Nonce::assume_unique_for_key).ok_or(Unspecified)
    }
}

fn seal_raw(key: &[u8; 32], plain: &[u8]) -> Vec<u8> {
    let key = LessSafeKey::new(UnboundKey::new(&CHACHA20_POLY1305, key).unwrap());
    let nonce = Nonce::assume_unique_for_key([0, 0, 0, 0, 0, 0, 0, 0, 0, 0, 0, 1]);
    let mut data = plain.to_vec();
    key.seal_in_place_append_tag(nonce, Aad::empty(), &mut data).unwrap();
    data
}

#[test]
fn decode_undoes_encode() {
    for guest in [&b""[..], &b"a"[..], &b"\x00\x00\x00\x00"[..], &b"the quick brown fox"[..]] {
        let sealed = encode(&KEY, guest).unwrap();
        assert_eq!(decode(&KEY, &sealed).unwrap(), guest.to_vec());
    }
}

#[test]
fn encode_is_a_function_of_key_and_guest() {
    let guest = b"some guest bytes, some guest bytes, some guest bytes";
    assert_eq!(encode(&KEY, guest).unwrap(), encode(&KEY, guest).unwrap());
    assert_ne!(encode(&KEY, guest).unwrap(), encode(&[0u8; 32], guest).unwrap());
}

#[test]
fn sealed_data_is_frame_plus_tag() {
    let guest = b"\x00\x00\x00\x00";
    let sealed = encode(&KEY, guest).unwrap();
    let frame = lz4_flex::compress_prepend_size(guest);
    assert_eq!(sealed.len(), frame.len() + 16);
    assert_ne!(&sealed[..frame.len()], &frame[..]);
    assert_eq!(sealed, seal_raw(&KEY, &frame));
}

#[test]
fn frame_inside_is_size_prepended_lz4() {
    let guest: Vec<u8> = (0..2000u32).map(|i| (i % 7) as u8).collect();
    let mut sealed = encode(&KEY, &guest).unwrap();
    let key = LessSafeKey::new(UnboundKey::new(&CHACHA20_POLY1305, &KEY).unwrap());
    let nonce = Nonce::assume_unique_for_key([0, 0, 0, 0, 0, 0, 0, 0, 0, 0, 0, 1]);
    let frame = key.open_in_place(nonce, Aad::empty(), &mut sealed).unwrap().to_vec();
    assert_eq!(&frame[..4], &2000u32.to_le_bytes());
    assert_ne!(frame, guest);
    assert!(frame.len() < guest.len());
    assert_eq!(lz4_flex::decompress_size_prepended(&frame).unwrap(), guest);
}

#[test]
fn bound_keys_with_the_nonce_sequence_agree() {
    let guest = b"wire compatible".to_vec();
    let mut data = lz4_flex::compress_prepend_size(&guest);
    let unbound = UnboundKey::new(&CHACHA20_POLY1305, &KEY).unwrap();
    let mut sealing = SealingKey::new(unbound, Counting(NonceSeq::new(1)));
    sealing.seal_in_place_append_tag(Aad::from(b""), &mut data).unwrap();
    assert_eq!(data, encode(&KEY, &guest).unwrap());
    assert_eq!(decode(&KEY, &data).unwrap(), guest);

    let mut sealed = encode(&KEY, &guest).unwrap();
    let unbound = UnboundKey::new(&CHACHA20_POLY1305, &KEY).unwrap();
    let mut opening = OpeningKey::new(unbound, Counting(NonceSeq::new(1)));
    let frame = opening.open_in_place(Aad::from(b""), &mut sealed).unwrap();
    assert_eq!(lz4_flex::decompress_size_prepended(frame).unwrap(), guest);
}

#[test]
fn key_of_wrong_length_is_a_bad_key() {
    let sealed = encode(&KEY, b"guest").unwrap();
    assert_eq!(decode(&KEY[..31], &sealed), Err(CodecError::BadKey));
    assert_eq!(decode(&[], &sealed), Err(CodecError::BadKey));
    assert_eq!(decode(&[0u8; 33], &sealed), Err(CodecError::BadKey));
}

#[test]
fn flipping_any_bit_of_the_data_fails_authentication() {
    let sealed = encode(&KEY, b"\x00\x00\x00\x00").unwrap();
    for i in 0..sealed.len() {
        for bit in 0..8 {
            let mut tampered = sealed.clone();
            tampered[i] ^= 1 << bit;
            assert_eq!(decode(&KEY, &tampered), Err(CodecError::AuthFailure));
        }
    }
}

#[test]
fn another_key_fails_authentication() {
    let resource = TardisResource::compress_with_key(b"guest bytes", KEY).unwrap();
    let mut other = KEY;
    other[0] ^= 1;
    let swapped = TardisResource { key: other, data: resource.data.clone() };
    assert_eq!(swapped.decompress(), Err(CodecError::AuthFailure));
    let swapped = TardisResource { key: [0u8; 32], data: resource.data.clone() };
    assert_eq!(swapped.decompress(), Err(CodecError::AuthFailure));
    assert_eq!(resource.decompress().unwrap(), b"guest bytes".to_vec());
}

#[test]
fn truncated_data_fails_authentication() {
    let sealed = encode(&KEY, b"guest").unwrap();
    assert_eq!(decode(&KEY, &sealed[..sealed.len() - 1]), Err(CodecError::AuthFailure));
    assert_eq!(decode(&KEY, &sealed[..15]), Err(CodecError::AuthFailure));
    assert_eq!(decode(&KEY, &[]), Err(CodecError::AuthFailure));
}

#[test]
fn authenticated_garbage_fails_decompression() {
    let sealed = seal_raw(&KEY, &[0xff, 0xff, 0x00, 0x00, 0xf0]);
    assert_eq!(decode(&KEY, &sealed), Err(CodecError::DecompressFailure));
    let sealed = seal_raw(&KEY, &[1, 2]);
    assert_eq!(decode(&KEY, &sealed), Err(CodecError::DecompressFailure));
    let sealed = seal_raw(&KEY, b"");
    assert_eq!(decode(&KEY, &sealed), Err(CodecError::DecompressFailure));
}

fn frame_with_run(run: usize) -> Vec<u8> {
    let mut frame = vec![0u8, 0, 0, 0, 0xf0];
    frame.resize(5 + run, 0xff);
    frame.push(0x01);
    frame
}

#[test]
fn frame_whose_length_overflows_fails_decompression() {
    let sealed = seal_raw(&KEY, &frame_with_run(16_843_009));
    assert_eq!(decode(&KEY, &sealed), Err(CodecError::DecompressFailure));
    let resource = TardisResource { key: KEY, data: sealed };
    assert_eq!(resource.decompress(), Err(CodecError::DecompressFailure));
}

#[test]
fn frame_with_the_longest_run_allowed_reaches_the_decompressor() {
    let frame = frame_with_run(MAX_FF_RUN - 1);
    assert!(is_decompressible(&frame));
    assert!(lz4_flex::decompress_size_prepended(&frame).is_err());
    assert_eq!(decode(&KEY, &seal_raw(&KEY, &frame)), Err(CodecError::DecompressFailure));
}

#[test]
fn frames_kept_from_the_decompressor() {
    assert_eq!(MAX_FF_RUN, 1 << 23);
    assert!(!is_decompressible(&[]));
    assert!(!is_decompressible(&[0, 0, 0]));
    assert!(is_decompressible(&[0, 0, 0, 0]));
    assert!(is_decompressible(&[0xff, 0xff, 0xff, 0x7f, 0x00]));
    assert!(is_decompressible(&lz4_flex::compress_prepend_size(b"an ordinary guest")));
    assert!(is_decompressible(&frame_with_run(MAX_FF_RUN - 1)));
    assert!(!is_decompressible(&frame_with_run(MAX_FF_RUN)));
    assert!(!is_decompressible(&frame_with_run(MAX_FF_RUN + 5)));
    let mut two_runs = frame_with_run(MAX_FF_RUN - 1);
    two_runs.extend_from_slice(&frame_with_run(MAX_FF_RUN - 1)[5..]);
    assert!(is_decompressible(&two_runs));
    let mut late_run = vec![0u8; 100];
    late_run.resize(100 + MAX_FF_RUN, 0xff);
    assert!(!is_decompressible(&late_run));
}

#[test]
fn seal_frame_seals_what_can_be_read_back() {
    let frame = lz4_flex::compress_prepend_size(b"guest");
    let sealed = seal_frame(&KEY, frame.clone()).unwrap();
    assert_eq!(sealed.len(), frame.len() + 16);
    assert_eq!(sealed, seal_raw(&KEY, &frame));
    assert_eq!(sealed, encode(&KEY, b"guest").unwrap());
    assert_eq!(seal_frame(&KEY, vec![1, 2]), Err(EncodeError::UnreadableFrame));
    assert_eq!(seal_frame(&KEY, Vec::new()), Err(EncodeError::UnreadableFrame));
    assert_eq!(
        seal_frame(&KEY, frame_with_run(MAX_FF_RUN)),
        Err(EncodeError::UnreadableFrame)
    );
}

#[test]
fn guest_of_one_repeated_byte_round_trips() {
    let guest = vec![0xffu8; 3_000_000];
    let sealed = encode(&KEY, &guest).unwrap();
    assert!(sealed.len() < 20_000);
    assert_eq!(decode(&KEY, &sealed).unwrap(), guest);
}

#[test]
fn empty_data_under_a_zero_key_fails_authentication() {
    let (resource, used) = TardisResource::from_bytes(&[0u8; 40], 0).unwrap();
    assert_eq!(used, 40);
    assert_eq!(resource.key, [0u8; 32]);
    assert!(resource.is_empty());
    assert_eq!(resource.decompress(), Err(CodecError::AuthFailure));
    assert_eq!(decode(&[0u8; 32], &[]), Err(CodecError::AuthFailure));
    assert_eq!(decode(&[0u8; 32], &[0u8; 15]), Err(CodecError::AuthFailure));
}

#[test]
fn authenticated_frame_decodes_whoever_sealed_it() {
    let frame = lz4_flex::compress_prepend_size(b"sealed elsewhere");
    let sealed = seal_raw(&KEY, &frame);
    assert_eq!(decode(&KEY, &sealed).unwrap(), b"sealed elsewhere".to_vec());
}

#[test]
fn compress_with_key_keeps_the_key() {
    let resource = TardisResource::compress_with_key(b"guest", KEY).unwrap();
    assert_eq!(resource.key, KEY);
    assert_eq!(resource.data, encode(&KEY, b"guest").unwrap());
}

#[test]
fn compress_draws_a_fresh_key_each_time() {
    let a = TardisResource::compress(b"guest").unwrap();
    let b = TardisResource::compress(b"guest").unwrap();
    assert_ne!(a.key, b.key);
    assert_ne!(a.key, [0u8; 32]);
    assert_ne!(a.data, b.data);
    assert_eq!(a.decompress().unwrap(), b"guest".to_vec());
    assert_eq!(b.decompress().unwrap(), b"guest".to_vec());
}

#[test]
fn guests_beyond_the_length_prefix_cannot_be_framed() {
    assert!(can_frame(0));
    assert!(can_frame(0xffff_ffff));
    assert!(!can_frame(0x1_0000_0000));
    assert!(!can_frame(usize::MAX));
}

#[test]
fn codec_errors_in_the_loader_taxonomy() {
    assert!(matches!(TardisError::from_codec(CodecError::AuthFailure), TardisError::AuthFailure));
    assert!(matches!(
        TardisError::from_codec(CodecError::DecompressFailure),
        TardisError::DecompressFailure
    ));
    assert!(matches!(TardisError::from_codec(CodecError::BadKey), TardisError::ContainerMalformed));
}

#[test]
fn exit_codes_are_distinct_and_nonzero() {
    assert_eq!(TardisError::FilesystemError("x".to_string()).exit_code(), 1);
    assert_eq!(TardisError::ContainerMalformed.exit_code(), 2);
    assert_eq!(TardisError::AuthFailure.exit_code(), 3);
    assert_eq!(TardisError::DecompressFailure.exit_code(), 4);
    assert_eq!(TardisError::IoFailure.exit_code(), 5);
    assert_eq!(TardisError::SyscallFailure.exit_code(), 6);
}
