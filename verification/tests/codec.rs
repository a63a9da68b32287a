use twinkle::errors::{Failure, FrameError};
use twinkle::request::{usize_to_bytes, Request};
use twinkle::response::decode;
use twinkle::types::{BUF_SIZE, HEADER_LEN, MAX_KEY_LEN, UUID_LEN};

const ID: u128 = 0x0011_2233_4455_6677_8899_aabb_ccdd_eeff;

const ID_BYTES: [u8; 16] = [
    0x00, 0x11, 0x22, 0x33, 0x44, 0x55, 0x66, 0x77, 0x88, 0x99, 0xaa, 0xbb, 0xcc, 0xdd, 0xee, 0xff,
];

fn frame_of(opcode: u8, tail: &[u8]) -> Vec<u8> {
    let mut f = vec![opcode];
    f.extend_from_slice(&ID_BYTES);
    f.extend_from_slice(tail);
    f
}

#[test]
fn key_length_prefix_is_big_endian() {
    assert_eq!(usize_to_bytes(0), Ok([0, 0]));
    assert_eq!(usize_to_bytes(4), Ok([0, 4]));
    assert_eq!(usize_to_bytes(258), Ok([1, 2]));
    assert_eq!(usize_to_bytes(0xabcd), Ok([0xab, 0xcd]));
    assert_eq!(usize_to_bytes(65535), Ok([0xff, 0xff]));
}

#[test]
fn key_length_over_two_bytes_is_refused() {
    assert_eq!(usize_to_bytes(65536), Err(Failure::KeyTooLong));
    assert_eq!(usize_to_bytes(usize::MAX), Err(Failure::KeyTooLong));
}

#[test]
fn constants_match_the_wire_format() {
    assert_eq!(UUID_LEN, 16);
    assert_eq!(HEADER_LEN, 17);
    assert_eq!(MAX_KEY_LEN, 65535);
    assert_eq!(BUF_SIZE, 64 * 1024);
}

#[test]
fn ping_frame_is_opcode_and_id() {
    let p = Request::Ping.encode(ID).unwrap();
    assert_eq!(p.uuid, ID);
    assert_eq!(p.cont, frame_of(0x01, &[]));
    assert_eq!(p.cont.len(), 17);
}

#[test]
fn get_frame_holds_length_and_key() {
    let p = Request::Get(b"hoge".to_vec()).encode(ID).unwrap();
    assert_eq!(p.uuid, ID);
    assert_eq!(p.cont, frame_of(0x02, &[0, 4, b'h', b'o', b'g', b'e']));
}

#[test]
fn set_frame_holds_length_key_and_value() {
    let p = Request::Put(b"fuga".to_vec(), b"foo".to_vec()).encode(ID).unwrap();
    assert_eq!(p.uuid, ID);
    assert_eq!(p.cont, frame_of(0x03, &[0, 4, b'f', b'u', b'g', b'a', b'f', b'o', b'o']));
}

#[test]
fn unset_frame_holds_length_and_key() {
    let p = Request::Unset(b"hoge".to_vec()).encode(ID).unwrap();
    assert_eq!(p.cont, frame_of(0x04, &[0, 4, b'h', b'o', b'g', b'e']));
}

#[test]
fn empty_key_and_value_encode() {
    let p = Request::Put(vec![], vec![]).encode(ID).unwrap();
    assert_eq!(p.cont, frame_of(0x03, &[0, 0]));
    let p = Request::Get(vec![]).encode(ID).unwrap();
    assert_eq!(p.cont, frame_of(0x02, &[0, 0]));
}

#[test]
fn id_bytes_agree_with_the_uuid_crate() {
    let id: u128 = 0x936D_A01F_9ABD_4D9D_80C7_02AF_85C8_22A8;
    let p = Request::Ping.encode(id).unwrap();
    assert_eq!(&p.cont[1..17], uuid::Uuid::from_u128(id).as_bytes());
}

#[test]
fn longest_key_encodes() {
    let key = vec![0x5a; 65535];
    let p = Request::Get(key.clone()).encode(ID).unwrap();
    assert_eq!(p.cont.len(), 17 + 2 + 65535);
    assert_eq!(&p.cont[17..19], &[0xff, 0xff]);
    assert_eq!(&p.cont[19..], &key[..]);
}

#[test]
fn key_too_long_is_refused_by_encode() {
    let key = vec![0u8; 65536];
    assert_eq!(Request::Get(key.clone()).encode(ID), Err(Failure::KeyTooLong));
    assert_eq!(Request::Unset(key.clone()).encode(ID), Err(Failure::KeyTooLong));
    assert_eq!(Request::Put(key, b"v".to_vec()).encode(ID), Err(Failure::KeyTooLong));
}

#[test]
fn key_too_long_is_refused_by_issue() {
    let key = vec![0u8; 70000];
    assert_eq!(Request::Get(key.clone()).issue(), Err(Failure::KeyTooLong));
    assert_eq!(Request::Put(key, vec![]).issue(), Err(Failure::KeyTooLong));
}

#[test]
fn large_value_encodes() {
    let val = vec![7u8; 100_000];
    let p = Request::Put(b"k".to_vec(), val.clone()).encode(ID).unwrap();
    assert_eq!(p.cont.len(), 17 + 2 + 1 + 100_000);
    assert_eq!(&p.cont[20..], &val[..]);
}

#[test]
fn issue_draws_a_random_version_4_id() {
    let p = Request::Ping.issue().unwrap();
    let u = uuid::Uuid::from_u128(p.uuid);
    assert_eq!(u.get_version_num(), 4);
    assert_eq!(u.get_variant(), Some(uuid::Variant::RFC4122));
    assert_eq!(p.cont[7] >> 4, 4);
    assert_eq!(p.cont[9] >> 6, 2);
}

#[test]
fn issue_writes_its_id_into_the_frame() {
    let p = Request::Get(b"hoge".to_vec()).issue().unwrap();
    assert_eq!(p.cont[0], 0x02);
    assert_eq!(&p.cont[1..17], &p.uuid.to_be_bytes());
    assert_eq!(&p.cont[17..], &[0, 4, b'h', b'o', b'g', b'e']);
    assert_eq!(Request::Get(b"hoge".to_vec()).encode(p.uuid).unwrap(), p);
}

#[test]
fn issue_draws_a_new_id_each_time() {
    let a = Request::Ping.issue().unwrap();
    let b = Request::Ping.issue().unwrap();
    assert_ne!(a.uuid, b.uuid);
}

#[test]
fn set_round_trips_through_the_codec() {
    let key = b"fuga".to_vec();
    let val = b"foo".to_vec();
    let p = Request::Put(key.clone(), val.clone()).encode(ID).unwrap();
    assert_eq!(p.cont[0], 0x03);
    assert_eq!(Request::parse(&p.cont), Ok((ID, Request::Put(key, val))));
}

#[test]
fn every_request_round_trips() {
    let requests = vec![
        Request::Ping,
        Request::Get(b"hoge".to_vec()),
        Request::Get(vec![]),
        Request::Put(b"fuga".to_vec(), b"foo".to_vec()),
        Request::Put(vec![0xff; 300], vec![0; 1000]),
        Request::Put(vec![], vec![]),
        Request::Unset(b"hoge".to_vec()),
        Request::Unset(vec![1; 65535]),
    ];
    for (i, r) in requests.into_iter().enumerate() {
        let id = ID ^ (i as u128);
        let p = r.clone().encode(id).unwrap();
        assert_eq!(Request::parse(&p.cont), Ok((id, r)));
    }
}

#[test]
fn issued_request_round_trips() {
    let r = Request::Put(b"fuga".to_vec(), b"foo".to_vec());
    let p = r.clone().issue().unwrap();
    assert_eq!(Request::parse(&p.cont), Ok((p.uuid, r)));
}

#[test]
fn parse_refuses_short_frames() {
    assert_eq!(Request::parse(&[]), Err(FrameError::Truncated));
    assert_eq!(Request::parse(&[0x01]), Err(FrameError::Truncated));
    assert_eq!(Request::parse(&frame_of(0x01, &[])[..16]), Err(FrameError::Truncated));
    assert_eq!(Request::parse(&frame_of(0x02, &[])), Err(FrameError::Truncated));
    assert_eq!(Request::parse(&frame_of(0x02, &[0])), Err(FrameError::Truncated));
    assert_eq!(
        Request::parse(&frame_of(0x02, &[0, 4, b'h', b'o', b'g'])),
        Err(FrameError::Truncated)
    );
    assert_eq!(Request::parse(&frame_of(0x03, &[1, 0, 9])), Err(FrameError::Truncated));
}

#[test]
fn parse_refuses_what_the_format_does_not_allow() {
    assert_eq!(Request::parse(&frame_of(0x00, &[])), Err(FrameError::Malformed));
    assert_eq!(Request::parse(&frame_of(0x05, &[0, 0])), Err(FrameError::Malformed));
    assert_eq!(Request::parse(&frame_of(0xff, &[0, 0])), Err(FrameError::Malformed));
    assert_eq!(Request::parse(&frame_of(0x01, &[0])), Err(FrameError::Malformed));
    assert_eq!(Request::parse(&frame_of(0x02, &[0, 1, b'k', b'x'])), Err(FrameError::Malformed));
    assert_eq!(Request::parse(&frame_of(0x04, &[0, 0, 0])), Err(FrameError::Malformed));
}

#[test]
fn decode_needs_seventeen_bytes() {
    assert_eq!(decode(&[]), Err(FrameError::Truncated));
    assert_eq!(decode(&[0x01]), Err(FrameError::Truncated));
    assert_eq!(decode(&frame_of(0x01, &[])[..16]), Err(FrameError::Truncated));
    assert!(decode(&frame_of(0x01, &[])).is_ok());
}

#[test]
fn decode_reads_a_success_without_payload() {
    assert_eq!(decode(&frame_of(0x01, &[])), Ok((ID, Ok(vec![]))));
}

#[test]
fn decode_reads_a_success_with_payload() {
    assert_eq!(decode(&frame_of(0x01, b"foo")), Ok((ID, Ok(b"foo".to_vec()))));
    assert_eq!(decode(&frame_of(0x01, &[0])), Ok((ID, Ok(vec![0]))));
}

#[test]
fn decode_reads_a_failure() {
    assert_eq!(decode(&frame_of(0x02, &[])), Ok((ID, Err(Failure::CommandFailed))));
    assert_eq!(decode(&frame_of(0x02, b"ignored")), Ok((ID, Err(Failure::CommandFailed))));
}

#[test]
fn decode_takes_any_other_opcode_for_failure() {
    assert_eq!(decode(&frame_of(0x00, &[])), Ok((ID, Err(Failure::CommandFailed))));
    assert_eq!(decode(&frame_of(0x03, b"x")), Ok((ID, Err(Failure::CommandFailed))));
    assert_eq!(decode(&frame_of(0xff, &[])), Ok((ID, Err(Failure::CommandFailed))));
}

#[test]
fn decode_reads_the_id_most_significant_byte_first() {
    let mut f = vec![0x01u8];
    f.extend_from_slice(&[0; 15]);
    f.push(5);
    assert_eq!(decode(&f), Ok((5, Ok(vec![]))));
    let mut g = vec![0x01u8, 0x80];
    g.extend_from_slice(&[0; 15]);
    assert_eq!(decode(&g), Ok((1u128 << 127, Ok(vec![]))));
    let h = frame_of(0x01, &[]);
    let (id, _) = decode(&h).unwrap();
    assert_eq!(id, uuid::Uuid::from_slice(&ID_BYTES).unwrap().as_u128());
}

#[test]
fn decode_shows_the_id_of_a_request_frame() {
    let p = Request::Put(b"fuga".to_vec(), b"foo".to_vec()).encode(ID).unwrap();
    let (id, _) = decode(&p.cont).unwrap();
    assert_eq!(id, ID);
    let q = Request::Ping.issue().unwrap();
    let (id, _) = decode(&q.cont).unwrap();
    assert_eq!(id, q.uuid);
}

#[test]
fn decode_takes_a_full_datagram() {
    let payload = vec![0xabu8; BUF_SIZE - HEADER_LEN];
    let f = frame_of(0x01, &payload);
    assert_eq!(f.len(), BUF_SIZE);
    assert_eq!(decode(&f), Ok((ID, Ok(payload))));
}

#[test]
fn failures_describe_themselves() {
    assert_eq!(Failure::KeyTooLong.message(), "keylen too long");
    assert_eq!(Failure::CommandFailed.message(), "command failed");
    assert_eq!(Failure::RequestTimeout.message(), "request timeout");
    assert_eq!(Failure::Transport.message(), "transport failed");
    assert_eq!(FrameError::Truncated.message(), "frame too short");
    assert_eq!(FrameError::Malformed.message(), "failed parsing");
}
