use atomic_disc_drive::codec::{serialize_register_command, serialize_response};
use atomic_disc_drive::command::{
    ClientCommandHeader, ClientRegisterCommand, ClientRegisterCommandContent, ClientResponse,
    RegisterCommand, Rejection, SectorVec, SystemCommandHeader, SystemRegisterCommand,
    SystemRegisterCommandContent,
};
use atomic_disc_drive::decoder::deserialize_register_command;
use atomic_disc_drive::quorum::quorum_size;
use atomic_disc_drive::register::{Coordinator, Phase, StartError};
use atomic_disc_drive::replica::{Outgoing, Replica};
use atomic_disc_drive::storage::{PendingOperation, SectorRecord, StableStorage, StorageError};
use std::collections::VecDeque;

const SYSTEM_KEY: [u8; 64] = [11; 64];
const CLIENT_KEY: [u8; 32] = [98; 32];

struct Cluster {
    replicas: Vec<Replica>,
    alive: Vec<bool>,
    next_ident: u128,
}

fn cluster(n: u8, n_sectors: usize) -> Cluster {
    let replicas = (1..=n)
        .map(|rank| Replica::new(rank, n, StableStorage::new(n_sectors)).unwrap())
        .collect();
    Cluster { replicas, alive: vec![true; n as usize], next_ident: 1000 }
}

fn over_the_wire(message: &SystemRegisterCommand) -> (SystemRegisterCommand, bool) {
    let mut frame = Vec::new();
    serialize_register_command(&RegisterCommand::System(message.clone()), &mut frame, &SYSTEM_KEY)
        .unwrap();
    let decoded = deserialize_register_command(&frame, &SYSTEM_KEY, &CLIENT_KEY).unwrap();
    assert_eq!(decoded.consumed, frame.len());
    match decoded.command {
        RegisterCommand::System(cmd) => (cmd, decoded.hmac_valid),
        RegisterCommand::Client(_) => panic!("a system message decoded as a client request"),
    }
}

fn settle(c: &mut Cluster, at: usize, first: Outgoing) -> Option<ClientResponse> {
    let mut queue: VecDeque<(usize, SystemRegisterCommand)> = VecDeque::new();
    let mut outs = vec![(at, first)];
    let mut response = None;
    loop {
        for (_, out) in outs.drain(..) {
            match out {
                Outgoing::Broadcast(m) => {
                    for i in 0..c.replicas.len() {
                        queue.push_back((i, m.clone()));
                    }
                }
                Outgoing::Reply { to, message } => queue.push_back((to as usize - 1, message)),
                Outgoing::Respond(r) => {
                    assert!(response.is_none(), "one outcome per operation");
                    response = Some(r);
                }
                Outgoing::Nothing | Outgoing::Busy => {}
            }
        }
        match queue.pop_front() {
            None => return response,
            Some((to, message)) => {
                if c.alive[to] {
                    let (cmd, valid) = over_the_wire(&message);
                    assert!(valid);
                    let out = c.replicas[to].handle_system(cmd, valid);
                    outs.push((to, out));
                }
            }
        }
    }
}

fn request(request_identifier: u64, sector_idx: u64, data: Option<Vec<u8>>) -> ClientRegisterCommand {
    ClientRegisterCommand {
        header: ClientCommandHeader { request_identifier, sector_idx },
        content: match data {
            Some(d) => ClientRegisterCommandContent::Write { data: SectorVec(d) },
            None => ClientRegisterCommandContent::Read,
        },
    }
}

fn client_call(c: &mut Cluster, at: usize, req: ClientRegisterCommand) -> Option<ClientResponse> {
    let mut frame = Vec::new();
    serialize_register_command(&RegisterCommand::Client(req), &mut frame, &CLIENT_KEY).unwrap();
    let decoded = deserialize_register_command(&frame, &SYSTEM_KEY, &CLIENT_KEY).unwrap();
    let cmd = match decoded.command {
        RegisterCommand::Client(cmd) => cmd,
        RegisterCommand::System(_) => panic!("a client request decoded as a system message"),
    };
    c.next_ident += 1;
    let ident = c.next_ident;
    let out = c.replicas[at].handle_client(&cmd, decoded.hmac_valid, ident);
    settle(c, at, out)
}

#[test]
fn three_processes_write_write_read() {
    let mut c = cluster(3, 1);
    let d1 = vec![0xd1; 4096];
    let d2 = vec![0xd2; 4096];
    assert_eq!(
        client_call(&mut c, 0, request(1, 0, Some(d1))),
        Some(ClientResponse::WriteOk { request_identifier: 1 })
    );
    assert_eq!(
        client_call(&mut c, 1, request(2, 0, Some(d2.clone()))),
        Some(ClientResponse::WriteOk { request_identifier: 2 })
    );
    assert_eq!(
        client_call(&mut c, 2, request(3, 0, None)),
        Some(ClientResponse::ReadOk { request_identifier: 3, data: SectorVec(d2.clone()) })
    );
    for r in &c.replicas {
        let rec = r.storage.load(0).unwrap();
        assert_eq!((rec.timestamp, rec.write_rank), (2, 2));
        assert_eq!(rec.value.0, d2);
        assert!(r.storage.pending_operation(0).is_none());
    }
}

#[test]
fn write_then_read_of_sector_twelve_on_the_wire() {
    let mut c = cluster(3, 16);
    let written = client_call(&mut c, 0, request(1778, 12, Some(vec![3; 4096]))).unwrap();
    let mut frame = Vec::new();
    serialize_response(&written, &mut frame, &CLIENT_KEY).unwrap();
    assert_eq!(frame.len(), 48);
    assert_eq!(&frame[0..4], &[0x61, 0x74, 0x64, 0x64]);
    assert_eq!(frame[7], 0x42);
    assert_eq!(u64::from_be_bytes(frame[8..16].try_into().unwrap()), 1778);

    let read = client_call(&mut c, 0, request(1778, 12, None)).unwrap();
    let mut frame = Vec::new();
    serialize_response(&read, &mut frame, &CLIENT_KEY).unwrap();
    assert_eq!(frame.len(), 48 + 4096);
    assert_eq!(frame[7], 0x41);
    assert_eq!(u64::from_be_bytes(frame[8..16].try_into().unwrap()), 1778);
    assert_eq!(frame[16..4112], [3u8; 4096]);
}

#[test]
fn never_written_sector_reads_as_zeros() {
    let mut c = cluster(3, 4);
    assert_eq!(
        client_call(&mut c, 1, request(9, 3, None)),
        Some(ClientResponse::ReadOk { request_identifier: 9, data: SectorVec(vec![0; 4096]) })
    );
}

#[test]
fn a_minority_may_be_down() {
    let mut c = cluster(3, 2);
    c.alive[2] = false;
    assert_eq!(
        client_call(&mut c, 0, request(1, 1, Some(vec![7; 4096]))),
        Some(ClientResponse::WriteOk { request_identifier: 1 })
    );
    c.alive[2] = true;
    c.alive[0] = false;
    assert_eq!(
        client_call(&mut c, 2, request(2, 1, None)),
        Some(ClientResponse::ReadOk { request_identifier: 2, data: SectorVec(vec![7; 4096]) })
    );
    let rec = c.replicas[2].storage.load(1).unwrap();
    assert_eq!((rec.timestamp, rec.write_rank), (1, 1));
}

#[test]
fn without_a_quorum_the_operation_stalls() {
    let mut c = cluster(3, 1);
    c.alive[1] = false;
    c.alive[2] = false;
    assert_eq!(client_call(&mut c, 0, request(1, 0, Some(vec![7; 4096]))), None);
    let busy = c.replicas[0].handle_client(&request(2, 0, None), true, 5);
    assert_eq!(busy, Outgoing::Busy);
    assert!(c.replicas[0].storage.pending_operation(0).is_some());
}

#[test]
fn unauthenticated_and_out_of_range_requests_are_refused() {
    let mut c = cluster(3, 4);
    let before = c.replicas[0].clone();
    assert_eq!(
        c.replicas[0].handle_client(&request(5, 1, Some(vec![1; 4096])), false, 1),
        Outgoing::Respond(ClientResponse::Rejected {
            request_identifier: 5,
            was_write: true,
            reason: Rejection::AuthFailure
        })
    );
    assert_eq!(
        c.replicas[0].handle_client(&request(6, 4, None), true, 1),
        Outgoing::Respond(ClientResponse::Rejected {
            request_identifier: 6,
            was_write: false,
            reason: Rejection::InvalidSectorIndex
        })
    );
    assert_eq!(
        c.replicas[0].handle_client(&request(7, 1, Some(vec![1; 10])), true, 1),
        Outgoing::Nothing
    );
    let forged = SystemRegisterCommand {
        header: SystemCommandHeader { process_identifier: 2, msg_ident: 1, sector_idx: 1 },
        content: SystemRegisterCommandContent::WriteProc {
            timestamp: 9,
            write_rank: 2,
            data_to_write: SectorVec(vec![9; 4096]),
        },
    };
    assert_eq!(c.replicas[0].handle_system(forged.clone(), false), Outgoing::Nothing);
    assert_eq!(c.replicas[0], before);
    let mut off_disk = forged;
    off_disk.header.sector_idx = 4;
    assert_eq!(c.replicas[0].handle_system(off_disk, true), Outgoing::Nothing);
    assert_eq!(c.replicas[0], before);
}

#[test]
fn equal_timestamps_are_ordered_by_rank_and_replicas_converge() {
    let a = (5u64, 1u8, vec![0xaa; 4096]);
    let b = (5u64, 2u8, vec![0xbb; 4096]);
    let mut first = StableStorage::new(1);
    let mut second = StableStorage::new(1);
    assert_eq!(first.accept_write(0, a.0, a.1, SectorVec(a.2.clone())), Ok(true));
    assert_eq!(first.accept_write(0, b.0, b.1, SectorVec(b.2.clone())), Ok(true));
    assert_eq!(second.accept_write(0, b.0, b.1, SectorVec(b.2.clone())), Ok(true));
    assert_eq!(second.accept_write(0, a.0, a.1, SectorVec(a.2.clone())), Ok(false));
    assert_eq!(first.load(0), second.load(0));
    assert_eq!(
        first.load(0),
        Some(SectorRecord { timestamp: 5, write_rank: 2, value: SectorVec(b.2.clone()) })
    );
    assert_eq!(first.accept_write(0, 5, 2, SectorVec(vec![0; 4096])), Ok(false));
    assert_eq!(first.accept_write(0, 4, 200, SectorVec(vec![0; 4096])), Ok(false));
    assert_eq!(first.accept_write(0, 6, 0, SectorVec(vec![1; 4096])), Ok(true));
}

#[test]
fn storage_defaults_and_errors() {
    let mut s = StableStorage::new(2);
    assert_eq!(
        s.load(1),
        Some(SectorRecord { timestamp: 0, write_rank: 0, value: SectorVec(vec![0; 4096]) })
    );
    assert_eq!(s.load(2), None);
    assert!(s.has_sector(1));
    assert!(!s.has_sector(2));
    assert_eq!(s.store(2, 1, 1, SectorVec(vec![0; 4096])), Err(StorageError::InvalidSectorIndex));
    assert_eq!(s.store(1, 1, 1, SectorVec(vec![0; 4097])), Err(StorageError::SectorSize));
    assert_eq!(s.accept_write(7, 1, 1, SectorVec(vec![0; 4096])), Err(StorageError::InvalidSectorIndex));
    assert_eq!(s.accept_write(0, 1, 1, SectorVec(vec![])), Err(StorageError::SectorSize));
    assert_eq!(s.store(1, 9, 3, SectorVec(vec![4; 4096])), Ok(()));
    assert_eq!(s.store(1, 2, 1, SectorVec(vec![5; 4096])), Ok(()));
    assert_eq!(
        s.load(1),
        Some(SectorRecord { timestamp: 2, write_rank: 1, value: SectorVec(vec![5; 4096]) })
    );
    assert_eq!(
        s.load(0),
        Some(SectorRecord { timestamp: 0, write_rank: 0, value: SectorVec(vec![0; 4096]) })
    );
    let op = PendingOperation {
        msg_ident: 4,
        request_identifier: 5,
        sector_idx: 1,
        is_write: true,
        decided: false,
        timestamp: 0,
        write_rank: 0,
        data: SectorVec(vec![1; 4096]),
    };
    assert!(s.record_pending_operation(op.clone()));
    assert!(s.has_pending_operation(1));
    assert!(!s.has_pending_operation(0));
    assert_eq!(s.pending_operation(1), Some(op.clone()));
    let mut elsewhere = op;
    elsewhere.sector_idx = 2;
    assert!(!s.record_pending_operation(elsewhere));
    s.clear_pending_operation(1);
    assert_eq!(s.pending_operation(1), None);
}

#[test]
fn quorum_sizes() {
    assert_eq!(quorum_size(1), 1);
    assert_eq!(quorum_size(2), 2);
    assert_eq!(quorum_size(3), 2);
    assert_eq!(quorum_size(4), 3);
    assert_eq!(quorum_size(5), 3);
    assert_eq!(quorum_size(255), 128);
}

#[test]
fn coordinator_counts_each_rank_once_and_only_its_own_operation() {
    assert!(Coordinator::new(0, 3).is_none());
    assert!(Coordinator::new(4, 3).is_none());
    let mut c = Coordinator::new(2, 3).unwrap();
    assert_eq!(c.phase, Phase::Idle);
    assert!(c.pending().is_none());
    let read_proc = c.begin(&request(1, 0, Some(vec![8; 4096])), 77).unwrap();
    assert_eq!(
        read_proc,
        SystemRegisterCommand {
            header: SystemCommandHeader { process_identifier: 2, msg_ident: 77, sector_idx: 0 },
            content: SystemRegisterCommandContent::ReadProc,
        }
    );
    assert_eq!(c.begin(&request(2, 0, None), 78), Err(StartError::Busy));
    let zero = SectorVec(vec![0; 4096]);
    let old = SectorVec(vec![1; 4096]);
    assert_eq!(c.on_value(1, 76, 3, 1, &old), None);
    assert_eq!(c.on_value(0, 77, 3, 1, &old), None);
    assert_eq!(c.on_value(4, 77, 3, 1, &old), None);
    assert_eq!(c.on_value(1, 77, 3, 1, &SectorVec(vec![1; 5])), None);
    assert_eq!(c.on_value(1, 77, u64::MAX, 1, &old), None);
    assert_eq!(c.on_ack(1, 77), None);
    assert_eq!(c.replies, 0);
    assert_eq!(c.on_value(1, 77, 3, 1, &old), None);
    assert_eq!(c.on_value(1, 77, 9, 1, &old), None);
    assert_eq!(c.replies, 1);
    assert_eq!(c.phase, Phase::Reading);
    let write_proc = c.on_value(3, 77, 3, 3, &zero).unwrap();
    assert_eq!(
        write_proc,
        SystemRegisterCommand {
            header: SystemCommandHeader { process_identifier: 2, msg_ident: 77, sector_idx: 0 },
            content: SystemRegisterCommandContent::WriteProc {
                timestamp: 4,
                write_rank: 2,
                data_to_write: SectorVec(vec![8; 4096]),
            },
        }
    );
    assert_eq!(c.phase, Phase::Writing);
    assert_eq!(c.on_value(2, 77, 3, 1, &old), None);
    assert_eq!(c.on_ack(3, 77), None);
    assert_eq!(c.on_ack(3, 77), None);
    assert_eq!(c.on_ack(3, 1), None);
    assert_eq!(c.on_ack(1, 77), Some(ClientResponse::WriteOk { request_identifier: 1 }));
    assert_eq!(c.phase, Phase::Idle);
    assert_eq!(c.on_ack(2, 77), None);
    assert_eq!(c.begin(&request(1, 0, Some(vec![8; 3])), 79), Err(StartError::SectorSize));
}

#[test]
fn read_writes_back_the_newest_record_unchanged() {
    let mut c = Coordinator::new(1, 3).unwrap();
    c.begin(&request(1, 5, None), 9).unwrap();
    assert_eq!(c.on_value(2, 9, 7, 3, &SectorVec(vec![7; 4096])), None);
    let write_proc = c.on_value(3, 9, 7, 2, &SectorVec(vec![6; 4096])).unwrap();
    assert_eq!(
        write_proc.content,
        SystemRegisterCommandContent::WriteProc {
            timestamp: 7,
            write_rank: 3,
            data_to_write: SectorVec(vec![7; 4096]),
        }
    );
    assert_eq!(c.on_ack(1, 9), None);
    assert_eq!(
        c.on_ack(2, 9),
        Some(ClientResponse::ReadOk { request_identifier: 1, data: SectorVec(vec![7; 4096]) })
    );
}

#[test]
fn an_operation_survives_a_restart_of_its_coordinator() {
    let mut c = cluster(3, 2);
    let out = c.replicas[0].handle_client(&request(4, 1, Some(vec![5; 4096])), true, 321);
    let read_proc = match out {
        Outgoing::Broadcast(m) => m,
        other => panic!("expected a broadcast, got {:?}", other),
    };
    let v1 = c.replicas[1].handle_system(read_proc.clone(), true);
    let v2 = c.replicas[2].handle_system(read_proc, true);
    let mut write_proc = None;
    for v in [v1, v2] {
        match v {
            Outgoing::Reply { to: 1, message } => {
                if let Outgoing::Broadcast(m) = c.replicas[0].handle_system(message, true) {
                    write_proc = Some(m);
                }
            }
            other => panic!("expected a reply to rank 1, got {:?}", other),
        }
    }
    let write_proc = write_proc.unwrap();
    c.replicas[2].handle_system(write_proc.clone(), true);

    let disk = c.replicas[0].storage.clone();
    let noted = disk.pending_operation(1).unwrap();
    assert!(noted.decided);
    assert_eq!((noted.msg_ident, noted.timestamp, noted.write_rank), (321, 1, 1));
    let mut restarted = Replica::new(1, 3, disk).unwrap();
    assert_eq!(restarted.handle_client(&request(5, 1, None), true, 322), Outgoing::Busy);
    assert_eq!(restarted.resume_sector(0), Outgoing::Nothing);
    let again = restarted.resume_sector(1);
    assert_eq!(again, Outgoing::Broadcast(write_proc));
    assert_eq!(restarted.resume_sector(1), Outgoing::Nothing);
    c.replicas[0] = restarted;
    assert_eq!(
        settle(&mut c, 0, again),
        Some(ClientResponse::WriteOk { request_identifier: 4 })
    );
    assert!(c.replicas[0].storage.pending_operation(1).is_none());
    assert_eq!(
        client_call(&mut c, 1, request(6, 1, None)),
        Some(ClientResponse::ReadOk { request_identifier: 6, data: SectorVec(vec![5; 4096]) })
    );
    for r in &c.replicas {
        assert_eq!(r.storage.load(1).unwrap().value.0.len(), 4096);
    }
}

#[test]
fn an_undecided_operation_restarts_from_the_read_phase() {
    let mut c = cluster(3, 1);
    let out = c.replicas[1].handle_client(&request(4, 0, None), true, 55);
    let disk = c.replicas[1].storage.clone();
    let mut restarted = Replica::new(2, 3, disk).unwrap();
    let again = restarted.resume_sector(0);
    assert_eq!(again, out);
    c.replicas[1] = restarted;
    assert_eq!(
        settle(&mut c, 1, again),
        Some(ClientResponse::ReadOk { request_identifier: 4, data: SectorVec(vec![0; 4096]) })
    );
    assert!(Replica::new(0, 3, StableStorage::new(1)).is_none());
    assert!(Replica::new(4, 3, StableStorage::new(1)).is_none());
}

#[test]
fn a_damaged_note_is_removed_on_restart() {
    let mut disk = StableStorage::new(2);
    disk.pending[1] = Some(PendingOperation {
        msg_ident: 1,
        request_identifier: 1,
        sector_idx: 0,
        is_write: true,
        decided: false,
        timestamp: 0,
        write_rank: 0,
        data: SectorVec(vec![1; 4096]),
    });
    let mut replica = Replica::new(1, 1, disk).unwrap();
    assert_eq!(replica.resume_sector(1), Outgoing::Nothing);
    assert!(replica.storage.pending_operation(1).is_none());
    assert_eq!(replica.resume_sector(9), Outgoing::Nothing);
}

fn broadcast_of(out: Outgoing) -> SystemRegisterCommand {
    match out {
        Outgoing::Broadcast(m) => m,
        other => panic!("expected a broadcast, got {:?}", other),
    }
}

fn reply_of(out: Outgoing, expected_to: u8) -> SystemRegisterCommand {
    match out {
        Outgoing::Reply { to, message } => {
            assert_eq!(to, expected_to);
            message
        }
        other => panic!("expected a reply, got {:?}", other),
    }
}

#[test]
fn concurrent_writes_with_equal_timestamps_converge() {
    let mut c = cluster(3, 1);
    let a = vec![0xaa; 4096];
    let b = vec![0xbb; 4096];
    let read_1 = broadcast_of(c.replicas[0].handle_client(&request(1, 0, Some(a)), true, 101));
    let read_2 = broadcast_of(c.replicas[1].handle_client(&request(2, 0, Some(b.clone())), true, 102));

    let mut write_1 = Outgoing::Nothing;
    for i in [0, 1] {
        let value = reply_of(c.replicas[i].handle_system(read_1.clone(), true), 1);
        write_1 = c.replicas[0].handle_system(value, true);
    }
    let write_1 = broadcast_of(write_1);
    let mut write_2 = Outgoing::Nothing;
    for i in [1, 2] {
        let value = reply_of(c.replicas[i].handle_system(read_2.clone(), true), 2);
        write_2 = c.replicas[1].handle_system(value, true);
    }
    let write_2 = broadcast_of(write_2);
    match (&write_1.content, &write_2.content) {
        (
            SystemRegisterCommandContent::WriteProc { timestamp: 1, write_rank: 1, .. },
            SystemRegisterCommandContent::WriteProc { timestamp: 1, write_rank: 2, .. },
        ) => {}
        other => panic!("unexpected stamps: {:?}", other),
    }

    let orders = [[&write_1, &write_2], [&write_2, &write_1], [&write_1, &write_2]];
    let mut done = Vec::new();
    for (i, order) in orders.iter().enumerate() {
        for message in order.iter() {
            let coordinator = message.header.process_identifier;
            let ack = reply_of(c.replicas[i].handle_system((*message).clone(), true), coordinator);
            let out = c.replicas[coordinator as usize - 1].handle_system(ack, true);
            if let Outgoing::Respond(r) = out {
                done.push(r);
            }
        }
    }
    done.sort_by_key(|r| match r {
        ClientResponse::WriteOk { request_identifier } => *request_identifier,
        _ => u64::MAX,
    });
    assert_eq!(
        done,
        vec![
            ClientResponse::WriteOk { request_identifier: 1 },
            ClientResponse::WriteOk { request_identifier: 2 }
        ]
    );
    for r in &c.replicas {
        assert_eq!(
            r.storage.load(0),
            Some(SectorRecord { timestamp: 1, write_rank: 2, value: SectorVec(b.clone()) })
        );
    }
    assert_eq!(
        client_call(&mut c, 2, request(3, 0, None)),
        Some(ClientResponse::ReadOk { request_identifier: 3, data: SectorVec(b) })
    );
}

#[test]
fn a_sector_out_of_service_is_not_answered_for() {
    let mut c = cluster(3, 3);
    assert!(!c.replicas[0].is_unserved(1));
    assert!(c.replicas[0].mark_unserved(1));
    assert!(!c.replicas[0].mark_unserved(3));
    assert!(c.replicas[0].is_unserved(1));
    assert!(!c.replicas[0].is_unserved(0));
    assert!(!c.replicas[0].is_unserved(3));
    let before = c.replicas[0].clone();
    assert_eq!(c.replicas[0].handle_client(&request(1, 1, None), true, 5), Outgoing::Nothing);
    let read_proc = SystemRegisterCommand {
        header: SystemCommandHeader { process_identifier: 2, msg_ident: 9, sector_idx: 1 },
        content: SystemRegisterCommandContent::ReadProc,
    };
    assert_eq!(c.replicas[0].handle_system(read_proc, true), Outgoing::Nothing);
    let write_proc = SystemRegisterCommand {
        header: SystemCommandHeader { process_identifier: 2, msg_ident: 9, sector_idx: 1 },
        content: SystemRegisterCommandContent::WriteProc {
            timestamp: 4,
            write_rank: 2,
            data_to_write: SectorVec(vec![4; 4096]),
        },
    };
    assert_eq!(c.replicas[0].handle_system(write_proc, true), Outgoing::Nothing);
    assert_eq!(c.replicas[0].resume_sector(1), Outgoing::Nothing);
    assert_eq!(c.replicas[0], before);
    assert_eq!(
        c.replicas[0].handle_client(&request(2, 1, None), false, 5),
        Outgoing::Respond(ClientResponse::Rejected {
            request_identifier: 2,
            was_write: false,
            reason: Rejection::AuthFailure
        })
    );
    assert_eq!(
        client_call(&mut c, 0, request(3, 0, Some(vec![6; 4096]))),
        Some(ClientResponse::WriteOk { request_identifier: 3 })
    );
    assert_eq!(
        client_call(&mut c, 1, request(4, 1, Some(vec![7; 4096]))),
        Some(ClientResponse::WriteOk { request_identifier: 4 })
    );
    assert_eq!(c.replicas[0].storage.load(1).unwrap().timestamp, 0);
    assert_eq!(c.replicas[1].storage.load(1).unwrap().timestamp, 1);
}

#[test]
fn validity_is_tested() {
    let mut c = cluster(3, 2);
    assert!(c.replicas[0].is_valid());
    c.replicas[0].handle_client(&request(1, 1, Some(vec![1; 4096])), true, 5);
    assert!(c.replicas[0].is_valid());
    assert!(c.replicas[0].coordinators[1].as_ref().unwrap().is_valid());
    assert!(c.replicas[0].storage.is_valid());

    let mut broken = c.replicas[0].clone();
    broken.storage.pending[1] = None;
    assert!(!broken.is_valid());
    let mut broken = c.replicas[0].clone();
    broken.storage.pending[1].as_mut().unwrap().request_identifier = 2;
    assert!(!broken.is_valid());
    let mut broken = c.replicas[0].clone();
    broken.unserved.pop();
    assert!(!broken.is_valid());
    let mut broken = c.replicas[0].clone();
    broken.self_rank = 0;
    assert!(!broken.is_valid());
    let mut broken = c.replicas[0].clone();
    broken.coordinators[1].as_mut().unwrap().replies = 1;
    assert!(!broken.is_valid());
    let mut broken = c.replicas[0].clone();
    broken.coordinators[1].as_mut().unwrap().self_rank = 2;
    assert!(!broken.is_valid());

    let mut coordinator = Coordinator::new(1, 3).unwrap();
    assert!(coordinator.is_valid());
    coordinator.replied.push(false);
    assert!(!coordinator.is_valid());
    let mut coordinator = Coordinator::new(1, 3).unwrap();
    coordinator.phase = Phase::Writing;
    assert!(!coordinator.is_valid());
    coordinator.op.decided = true;
    assert!(coordinator.is_valid());
    coordinator.replies = 2;
    coordinator.replied[0] = true;
    coordinator.replied[2] = true;
    assert!(!coordinator.is_valid());
    coordinator.phase = Phase::Idle;
    assert!(coordinator.is_valid());
    coordinator.best.timestamp = u64::MAX;
    assert!(!coordinator.is_valid());

    let mut disk = StableStorage::new(2);
    assert!(disk.is_valid());
    disk.sectors[1] = Some(SectorRecord { timestamp: 1, write_rank: 1, value: SectorVec(vec![1]) });
    assert!(!disk.is_valid());
    let mut disk = StableStorage::new(2);
    disk.pending.pop();
    assert!(!disk.is_valid());
}
