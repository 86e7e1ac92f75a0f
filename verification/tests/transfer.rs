use atomic_disc_drive::codec::{serialize_register_command, serialize_response, EncodeError};
use atomic_disc_drive::command::{
    ClientCommandHeader, ClientRegisterCommand, ClientRegisterCommandContent, ClientResponse,
    RegisterCommand, Rejection, SectorVec, SystemCommandHeader, SystemRegisterCommand,
    SystemRegisterCommandContent, MAGIC_NUMBER,
};
use atomic_disc_drive::decoder::{deserialize_register_command, deserialize_response};
use hmac::{Hmac, Mac};
use sha2::Sha256;

fn sample_sector(seed: u64) -> SectorVec {
    let mut state = seed;
    let mut bytes = Vec::with_capacity(4096);
    for _ in 0..4096 {
        state = state.wrapping_mul(6364136223846793005).wrapping_add(1442695040888963407);
        bytes.push((state >> 56) as u8);
    }
    SectorVec(bytes)
}

fn hmac_tag_is_ok(key: &[u8], data: &[u8]) -> bool {
    let boundary = data.len() - 32;
    let mut mac = Hmac::<Sha256>::new_from_slice(key).unwrap();
    mac.update(&data[..boundary]);
    mac.verify_slice(&data[boundary..]).is_ok()
}

fn assert_system_cmd_header(
    serialized: &[u8],
    msg_ident: &[u8; 16],
    process_identifier: u8,
    msg_type: u8,
    sector_idx: u64,
) {
    assert_eq!(&serialized[0..4], MAGIC_NUMBER.as_ref());
    assert_eq!(&serialized[4..6], &[0u8, 0u8]);
    assert_eq!(serialized[6], process_identifier);
    assert_eq!(serialized[7], msg_type);
    assert_eq!(&serialized[8..24], msg_ident);
    assert_eq!(u64::from_be_bytes(serialized[24..32].try_into().unwrap()), sector_idx);
}

fn read_command(request_identifier: u64, sector_idx: u64) -> RegisterCommand {
    RegisterCommand::Client(ClientRegisterCommand {
        header: ClientCommandHeader { request_identifier, sector_idx },
        content: ClientRegisterCommandContent::Read,
    })
}

#[test]
fn serialize_deserialize_is_identity() {
    let request_identifier = 7;
    let sector_idx = 8;
    let register_cmd = read_command(request_identifier, sector_idx);
    let mut sink: Vec<u8> = Vec::new();

    serialize_register_command(&register_cmd, &mut sink, &[0x00_u8; 32])
        .expect("Could not serialize?");
    let decoded = deserialize_register_command(&sink[..], &[0x00_u8; 64], &[0x00_u8; 32])
        .expect("Could not deserialize");

    assert!(decoded.hmac_valid);
    assert_eq!(decoded.consumed, sink.len());
    match decoded.command {
        RegisterCommand::Client(ClientRegisterCommand {
            header,
            content: ClientRegisterCommandContent::Read,
        }) => {
            assert_eq!(header.sector_idx, sector_idx);
            assert_eq!(header.request_identifier, request_identifier);
        }
        _ => panic!("Expected Read command"),
    }
}

#[test]
fn serialize_deserialize_is_identity_write() {
    let request_identifier = 69;
    let sector_idx = 420;
    let data = sample_sector(1);
    let register_cmd = RegisterCommand::Client(ClientRegisterCommand {
        header: ClientCommandHeader { request_identifier, sector_idx },
        content: ClientRegisterCommandContent::Write { data: data.clone() },
    });
    let mut sink: Vec<u8> = Vec::new();

    serialize_register_command(&register_cmd, &mut sink, &[0x00_u8; 32])
        .expect("Could not serialize?");
    let decoded = deserialize_register_command(&sink[..], &[0x00_u8; 64], &[0x00_u8; 32])
        .expect("Could not deserialize");

    assert!(decoded.hmac_valid);
    match decoded.command {
        RegisterCommand::Client(ClientRegisterCommand {
            header,
            content: ClientRegisterCommandContent::Write { data: deserialized_data },
        }) => {
            assert_eq!(header.sector_idx, sector_idx);
            assert_eq!(header.request_identifier, request_identifier);
            assert_eq!(data, deserialized_data);
        }
        _ => panic!("Expected Write command"),
    }
}

#[test]
fn serialize_deserialize_is_identity_read_proc() {
    let sector_idx = 4525787855454_u64;
    let process_identifier = 147_u8;
    let msg_ident = [7; 16];

    let read_proc_cmd = RegisterCommand::System(SystemRegisterCommand {
        header: SystemCommandHeader {
            process_identifier,
            msg_ident: u128::from_be_bytes(msg_ident),
            sector_idx,
        },
        content: SystemRegisterCommandContent::ReadProc,
    });
    let mut sink: Vec<u8> = Vec::new();

    serialize_register_command(&read_proc_cmd, &mut sink, &[0x00_u8; 64])
        .expect("Could not serialize?");
    let decoded = deserialize_register_command(&sink[..], &[0x00_u8; 64], &[0x00_u8; 32])
        .expect("Could not deserialize");

    assert!(decoded.hmac_valid);
    match decoded.command {
        RegisterCommand::System(SystemRegisterCommand {
            header,
            content: SystemRegisterCommandContent::ReadProc,
        }) => {
            assert_eq!(header.sector_idx, sector_idx);
            assert_eq!(header.process_identifier, process_identifier);
            assert_eq!(header.msg_ident.to_be_bytes().to_vec(), msg_ident.to_vec());
        }
        _ => panic!("Expected ReadProc command"),
    }
}

#[test]
fn serialize_deserialize_is_identity_write_proc() {
    let sector_idx = 4525787855454_u64;
    let process_identifier = 147_u8;
    let msg_ident = [7; 16];
    let timestamp = 123456789_u64;
    let write_rank = 42_u8;
    let data_to_write = sample_sector(2);

    let write_proc_cmd = RegisterCommand::System(SystemRegisterCommand {
        header: SystemCommandHeader {
            process_identifier,
            msg_ident: u128::from_be_bytes(msg_ident),
            sector_idx,
        },
        content: SystemRegisterCommandContent::WriteProc {
            timestamp,
            write_rank,
            data_to_write: data_to_write.clone(),
        },
    });
    let mut sink: Vec<u8> = Vec::new();

    serialize_register_command(&write_proc_cmd, &mut sink, &[0x00_u8; 64])
        .expect("Could not serialize?");
    let decoded = deserialize_register_command(&sink[..], &[0x00_u8; 64], &[0x00_u8; 32])
        .expect("Could not deserialize");

    assert!(decoded.hmac_valid);
    match decoded.command {
        RegisterCommand::System(SystemRegisterCommand {
            header,
            content:
                SystemRegisterCommandContent::WriteProc {
                    timestamp: deserialized_timestamp,
                    write_rank: deserialized_write_rank,
                    data_to_write: deserialized_data_to_write,
                },
        }) => {
            assert_eq!(header.sector_idx, sector_idx);
            assert_eq!(header.process_identifier, process_identifier);
            assert_eq!(header.msg_ident.to_be_bytes().to_vec(), msg_ident.to_vec());
            assert_eq!(timestamp, deserialized_timestamp);
            assert_eq!(write_rank, deserialized_write_rank);
            assert_eq!(data_to_write, deserialized_data_to_write);
        }
        _ => panic!("Expected WriteProc command"),
    }
}

#[test]
fn serialized_read_proc_cmd_has_correct_format() {
    let sector_idx = 4525787855454_u64;
    let process_identifier = 147_u8;
    let msg_ident = [7; 16];

    let read_proc_cmd = RegisterCommand::System(SystemRegisterCommand {
        header: SystemCommandHeader {
            process_identifier,
            msg_ident: u128::from_be_bytes(msg_ident),
            sector_idx,
        },
        content: SystemRegisterCommandContent::ReadProc,
    });
    let mut serialized: Vec<u8> = Vec::new();

    serialize_register_command(&read_proc_cmd, &mut serialized, &[0x00_u8; 64])
        .expect("Could not write to vector?");
    assert!(hmac_tag_is_ok(&[0x00_u8; 64], &serialized));
    serialized.truncate(serialized.len() - 32);

    assert_eq!(serialized.len(), 32);
    assert_system_cmd_header(serialized.as_slice(), &msg_ident, process_identifier, 3, sector_idx);
}

#[test]
fn test_serialization_errors() {
    let request_identifier = 7;
    let sector_idx = 8;
    let register_cmd = read_command(request_identifier, sector_idx);
    let mut garbage = vec![0x00_u8; 32];
    garbage.append(&mut MAGIC_NUMBER.to_vec());
    garbage.append(&mut vec![0x00_u8, 0x00_u8, 0x00_u8, 0x69_u8]);
    garbage.append(&mut vec![0x00_u8; 3]);

    serialize_register_command(&register_cmd, &mut garbage, &[0x00_u8; 32])
        .expect("Could not serialize?");
    let decoded = deserialize_register_command(&garbage[..], &[0x00_u8; 64], &[0x00_u8; 32])
        .expect("Could not deserialize");

    assert!(decoded.hmac_valid);
    assert_eq!(decoded.consumed, garbage.len());
    match decoded.command {
        RegisterCommand::Client(ClientRegisterCommand {
            header,
            content: ClientRegisterCommandContent::Read,
        }) => {
            assert_eq!(header.sector_idx, sector_idx);
            assert_eq!(header.request_identifier, request_identifier);
        }
        _ => panic!("Expected Read command"),
    }
}

#[test]
fn client_read_frame_is_byte_exact() {
    let mut sink = Vec::new();
    serialize_register_command(&read_command(0x0102030405060708, 12), &mut sink, &[98u8; 32])
        .unwrap();
    assert_eq!(sink.len(), 24 + 32);
    assert_eq!(
        &sink[..24],
        &[
            0x61, 0x74, 0x64, 0x64, 0, 0, 0, 0x01, 1, 2, 3, 4, 5, 6, 7, 8, 0, 0, 0, 0, 0, 0, 0,
            12
        ]
    );
    assert!(hmac_tag_is_ok(&[98u8; 32], &sink));
    assert!(!hmac_tag_is_ok(&[99u8; 32], &sink));
}

#[test]
fn value_frame_layout() {
    let data = sample_sector(3);
    let cmd = RegisterCommand::System(SystemRegisterCommand {
        header: SystemCommandHeader {
            process_identifier: 2,
            msg_ident: 0x000102030405060708090a0b0c0d0e0f,
            sector_idx: 5,
        },
        content: SystemRegisterCommandContent::Value {
            timestamp: 0x1122334455667788,
            write_rank: 9,
            sector_data: data.clone(),
        },
    });
    let mut sink = Vec::new();
    serialize_register_command(&cmd, &mut sink, &[1u8; 64]).unwrap();
    assert_eq!(sink.len(), 32 + 9 + 4096 + 32);
    assert_eq!(&sink[..8], &[0x61, 0x74, 0x64, 0x64, 0, 0, 2, 0x04]);
    assert_eq!(&sink[8..24], &[0, 1, 2, 3, 4, 5, 6, 7, 8, 9, 10, 11, 12, 13, 14, 15]);
    assert_eq!(&sink[24..32], &[0, 0, 0, 0, 0, 0, 0, 5]);
    assert_eq!(&sink[32..40], &[0x11, 0x22, 0x33, 0x44, 0x55, 0x66, 0x77, 0x88]);
    assert_eq!(sink[40], 9);
    assert_eq!(&sink[41..41 + 4096], &data.0[..]);
    assert!(hmac_tag_is_ok(&[1u8; 64], &sink));
    let decoded = deserialize_register_command(&sink, &[1u8; 64], &[2u8; 32]).unwrap();
    assert!(decoded.hmac_valid);
    assert_eq!(decoded.command, cmd);
}

#[test]
fn ack_round_trip_and_every_variant_length() {
    let ack = RegisterCommand::System(SystemRegisterCommand {
        header: SystemCommandHeader { process_identifier: 3, msg_ident: 77, sector_idx: 1 },
        content: SystemRegisterCommandContent::Ack,
    });
    let mut sink = Vec::new();
    serialize_register_command(&ack, &mut sink, &[5u8; 64]).unwrap();
    assert_eq!(sink.len(), 64);
    assert_eq!(sink[7], 0x06);
    let decoded = deserialize_register_command(&sink, &[5u8; 64], &[5u8; 32]).unwrap();
    assert_eq!(decoded.command, ack);
    assert!(decoded.hmac_valid);
    assert_eq!(decoded.consumed, 64);
}

#[test]
fn wrong_key_is_reported_not_failed() {
    let cmd = read_command(1, 2);
    let mut sink = Vec::new();
    serialize_register_command(&cmd, &mut sink, &[7u8; 32]).unwrap();
    let decoded = deserialize_register_command(&sink, &[0u8; 64], &[8u8; 32]).unwrap();
    assert!(!decoded.hmac_valid);
    assert_eq!(decoded.command, cmd);
    assert_eq!(decoded.consumed, sink.len());
}

#[test]
fn system_message_is_checked_with_system_key() {
    let cmd = RegisterCommand::System(SystemRegisterCommand {
        header: SystemCommandHeader { process_identifier: 1, msg_ident: 1, sector_idx: 0 },
        content: SystemRegisterCommandContent::ReadProc,
    });
    let mut sink = Vec::new();
    serialize_register_command(&cmd, &mut sink, &[9u8; 64]).unwrap();
    assert!(deserialize_register_command(&sink, &[9u8; 64], &[1u8; 32]).unwrap().hmac_valid);
    assert!(!deserialize_register_command(&sink, &[1u8; 64], &[9u8; 64]).unwrap().hmac_valid);
}

#[test]
fn corrupted_tag_is_invalid_and_stream_stays_aligned() {
    let first = read_command(1, 2);
    let second = read_command(3, 4);
    let mut sink = Vec::new();
    serialize_register_command(&first, &mut sink, &[7u8; 32]).unwrap();
    let last = sink.len() - 1;
    sink[last] ^= 0xff;
    serialize_register_command(&second, &mut sink, &[7u8; 32]).unwrap();
    let one = deserialize_register_command(&sink, &[0u8; 64], &[7u8; 32]).unwrap();
    assert!(!one.hmac_valid);
    assert_eq!(one.command, first);
    let two =
        deserialize_register_command(&sink[one.consumed..], &[0u8; 64], &[7u8; 32]).unwrap();
    assert!(two.hmac_valid);
    assert_eq!(two.command, second);
}

#[test]
fn truncated_input_says_what_to_discard() {
    let cmd = read_command(1, 2);
    let mut sink = vec![0xaa_u8; 10];
    serialize_register_command(&cmd, &mut sink, &[7u8; 32]).unwrap();
    let cut = &sink[..sink.len() - 1];
    let err = deserialize_register_command(cut, &[0u8; 64], &[7u8; 32]).unwrap_err();
    assert_eq!(err.discard, 10);
    let err = deserialize_register_command(&[0u8; 20], &[0u8; 64], &[7u8; 32]).unwrap_err();
    assert_eq!(err.discard, 13);
    let err = deserialize_register_command(&[0u8; 3], &[0u8; 64], &[7u8; 32]).unwrap_err();
    assert_eq!(err.discard, 0);
    let err = deserialize_register_command(&[], &[0u8; 64], &[7u8; 32]).unwrap_err();
    assert_eq!(err.discard, 0);
}

#[test]
fn false_magic_inside_garbage_is_skipped() {
    let cmd = read_command(11, 22);
    let mut stream = vec![0x61, 0x74, 0x64, 0x64, 0x61, 0x74, 0x64, 0x64, 0, 0, 0, 0x41, 0x61, 0x74];
    let garbage_len = stream.len();
    serialize_register_command(&cmd, &mut stream, &[7u8; 32]).unwrap();
    let decoded = deserialize_register_command(&stream, &[0u8; 64], &[7u8; 32]).unwrap();
    assert_eq!(decoded.command, cmd);
    assert!(decoded.hmac_valid);
    assert_eq!(decoded.consumed, garbage_len + 56);
}

#[test]
fn wrong_sector_size_is_refused() {
    let cmd = RegisterCommand::Client(ClientRegisterCommand {
        header: ClientCommandHeader { request_identifier: 1, sector_idx: 1 },
        content: ClientRegisterCommandContent::Write { data: SectorVec(vec![1, 2, 3]) },
    });
    let mut sink = vec![1u8, 2u8];
    assert_eq!(serialize_register_command(&cmd, &mut sink, &[7u8; 32]), Err(EncodeError::SectorSize));
    assert_eq!(sink, vec![1u8, 2u8]);
    let resp = ClientResponse::ReadOk { request_identifier: 1, data: SectorVec(vec![0; 4095]) };
    assert_eq!(serialize_response(&resp, &mut sink, &[7u8; 32]), Err(EncodeError::SectorSize));
    assert_eq!(sink, vec![1u8, 2u8]);
}

#[test]
fn response_frames_have_the_stated_sizes() {
    let key = [98u8; 32];
    let mut write = Vec::new();
    serialize_response(&ClientResponse::WriteOk { request_identifier: 1778 }, &mut write, &key)
        .unwrap();
    assert_eq!(write.len(), 48);
    assert_eq!(&write[0..4], MAGIC_NUMBER.as_ref());
    assert_eq!(write[6], 0);
    assert_eq!(write[7], 0x42);
    assert_eq!(u64::from_be_bytes(write[8..16].try_into().unwrap()), 1778);
    assert!(hmac_tag_is_ok(&key, &write));

    let mut read = Vec::new();
    let resp = ClientResponse::ReadOk { request_identifier: 1778, data: SectorVec(vec![3; 4096]) };
    serialize_response(&resp, &mut read, &key).unwrap();
    assert_eq!(read.len(), 4144);
    assert_eq!(read[7], 0x41);
    assert_eq!(read[16..4112], [3u8; 4096]);
    assert!(hmac_tag_is_ok(&key, &read));

    let mut rejected = Vec::new();
    let resp = ClientResponse::Rejected {
        request_identifier: 5,
        was_write: true,
        reason: Rejection::InvalidSectorIndex,
    };
    serialize_response(&resp, &mut rejected, &key).unwrap();
    assert_eq!(rejected.len(), 48);
    assert_eq!(rejected[6], 2);
    assert_eq!(rejected[7], 0x42);
    let mut rejected = Vec::new();
    let resp = ClientResponse::Rejected {
        request_identifier: 5,
        was_write: false,
        reason: Rejection::AuthFailure,
    };
    serialize_response(&resp, &mut rejected, &key).unwrap();
    assert_eq!(rejected[6], 1);
    assert_eq!(rejected[7], 0x41);
    assert!(hmac_tag_is_ok(&key, &rejected));
}

#[test]
fn responses_are_read_back() {
    let key = [98u8; 32];
    let responses = vec![
        ClientResponse::WriteOk { request_identifier: 1778 },
        ClientResponse::ReadOk { request_identifier: u64::MAX, data: sample_sector(9) },
        ClientResponse::Rejected {
            request_identifier: 3,
            was_write: true,
            reason: Rejection::AuthFailure,
        },
        ClientResponse::Rejected {
            request_identifier: 4,
            was_write: false,
            reason: Rejection::InvalidSectorIndex,
        },
    ];
    for response in responses {
        let mut frame = Vec::new();
        serialize_response(&response, &mut frame, &key).unwrap();
        let len = frame.len();
        frame.extend_from_slice(&[1, 2, 3]);
        let decoded = deserialize_response(&frame, &key).unwrap();
        assert_eq!(decoded.response, response);
        assert!(decoded.hmac_valid);
        assert_eq!(decoded.consumed, len);
        assert!(!deserialize_response(&frame, &[97u8; 32]).unwrap().hmac_valid);
        assert_eq!(deserialize_response(&frame[..len - 1], &key), None);
        let mut wrong = frame.clone();
        wrong[0] = 0x62;
        assert_eq!(deserialize_response(&wrong, &key), None);
        let mut wrong = frame.clone();
        wrong[6] = 3;
        assert_eq!(deserialize_response(&wrong, &key), None);
        let mut wrong = frame.clone();
        wrong[7] = 0x01;
        assert_eq!(deserialize_response(&wrong, &key), None);
    }
}

#[test]
fn stream_fed_byte_by_byte_decodes_every_frame() {
    let system_key = [3u8; 64];
    let client_key = [4u8; 32];
    let commands = vec![
        read_command(1, 2),
        RegisterCommand::System(SystemRegisterCommand {
            header: SystemCommandHeader { process_identifier: 2, msg_ident: 5, sector_idx: 6 },
            content: SystemRegisterCommandContent::Value {
                timestamp: 7,
                write_rank: 8,
                sector_data: sample_sector(4),
            },
        }),
        RegisterCommand::System(SystemRegisterCommand {
            header: SystemCommandHeader { process_identifier: 3, msg_ident: 5, sector_idx: 6 },
            content: SystemRegisterCommandContent::Ack,
        }),
    ];
    let mut stream = vec![0x55u8; 40];
    for (i, cmd) in commands.iter().enumerate() {
        let key: &[u8] = if i == 0 { &client_key } else { &system_key };
        serialize_register_command(cmd, &mut stream, key).unwrap();
        stream.extend_from_slice(&[0x61, 0x74, 0x64, 0x64, 0, 0, 0, 0x99, 0x61]);
    }
    let mut received: Vec<u8> = Vec::new();
    let mut decoded = Vec::new();
    for byte in stream {
        received.push(byte);
        loop {
            match deserialize_register_command(&received, &system_key, &client_key) {
                Ok(d) => {
                    assert!(d.hmac_valid);
                    received.drain(..d.consumed);
                    decoded.push(d.command);
                }
                Err(t) => {
                    received.drain(..t.discard);
                    assert!(received.len() <= 56 + 9 + 4096 + 8 + 32);
                    break;
                }
            }
        }
    }
    assert_eq!(decoded, commands);
}
