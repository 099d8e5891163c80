use phos_remoting::runtime::Dim3;
use phos_remoting::config::{checked_comm_type, is_supported_comm_type, session_port, CommType};
use phos_remoting::error::CommChannelError;
use phos_remoting::handle::HandleCounter;
use phos_remoting::local::LocalChannel;
use phos_remoting::restore::{BlackHole, RestoreVec};
use phos_remoting::ring::{RingBufferManager, META_AREA};
use phos_remoting::session::{RecvSession, SendSession};
use phos_remoting::timer::{Timer, ITER_NUM, MEASURE_MAX_NUM};
use phos_remoting::transport::{save, save_slice, RecvChannel, SendChannel};

#[test]
fn ring_counts() {
    let mut channel = LocalChannel::new(8 + META_AREA);
    assert_eq!(channel.capacity(), 8);
    assert!(channel.is_empty());
    channel.put_bytes(&[1, 2, 3, 4, 5, 6, 7]).unwrap();
    assert_eq!(channel.num_bytes_stored(), 7);
    assert_eq!(channel.num_bytes_free(), 1);
    assert!(channel.is_full());
    let mut got = [0u8; 6];
    channel.get_bytes(&mut got).unwrap();
    assert_eq!(got, [1, 2, 3, 4, 5, 6]);
    channel.put_bytes(&[8, 9, 10, 11, 12]).unwrap();
    assert_eq!(channel.read_head_volatile(), 6);
    assert_eq!(channel.read_tail_volatile(), 4);
    let mut rest = [0u8; 6];
    channel.get_bytes(&mut rest).unwrap();
    assert_eq!(rest, [7, 8, 9, 10, 11, 12]);
    assert!(channel.is_empty());
}

#[test]
fn wire_is_little_endian() {
    let mut out = Vec::new();
    save(&0x0102_0304u32, &mut out);
    assert_eq!(out, vec![4, 3, 2, 1]);
    save(&-1i32, &mut out);
    assert_eq!(out, vec![4, 3, 2, 1, 255, 255, 255, 255]);
    let mut out2 = Vec::new();
    save_slice(&[true, false], &mut out2);
    assert_eq!(out2, vec![2, 0, 0, 0, 0, 0, 0, 0, 1, 0]);
}

#[test]
fn restore_replays_saved_bytes() {
    let mut saved = Vec::new();
    save(&7u64, &mut saved);
    save_slice(&[5i32, 6], &mut saved);
    let mut replay = RestoreVec::new(saved);
    assert_eq!(replay.recv::<u64>(), Ok(7));
    assert_eq!(replay.recv_slice::<i32>(), Ok(vec![5, 6]));
    assert_eq!(replay.recv::<u8>(), Err(CommChannelError::RestoreEof));
    let mut dst = [9u8; 2];
    assert_eq!(replay.get_bytes(&mut dst), Err(CommChannelError::RestoreEof));
    assert_eq!(dst, [9, 9]);
}

#[test]
fn black_hole_takes_everything() {
    let mut hole = BlackHole::new();
    assert_eq!(hole.put_bytes(&[1, 2, 3]), Ok(()));
    assert_eq!(hole.send(&5u64), Ok(()));
    assert_eq!(hole.send_slice(&[1u32, 2]), Ok(()));
    assert_eq!(hole.flush(), Ok(()));
}

#[test]
fn sessions_round_trip() {
    let channel = LocalChannel::new(64 + META_AREA);
    let mut counter = HandleCounter::new();
    let mut send = SendSession::begin(3, channel, "cuLaunchKernel");
    send.check_not_null(0x1000, "ptr");
    send.send(&918i32, "proc_id");
    send.send_slice(&[1u8, 2, 3], "args");
    send.send_cstr(b"ab\0", "name");
    let proxy = send.send_handle(&mut counter, "stream");
    assert_eq!(proxy, 1);
    let channel = send.finish();
    let mut recv = RecvSession::begin_server(3, channel, "cuLaunchKernel", true, 918);
    assert_eq!(recv.save, Some(vec![150, 3, 0, 0]));
    let proc_id: i32 = recv.recv("proc_id");
    assert_eq!(proc_id, 918);
    assert_eq!(recv.recv_slice::<u8>("args"), vec![1, 2, 3]);
    assert_eq!(recv.recv_cstr("name"), vec![b'a', b'b', 0]);
    let handle: usize = recv.recv("stream");
    assert_eq!(handle, 1);
    let (saved, channel) = recv.finish();
    let saved = saved.unwrap();
    assert_eq!(saved.len(), 4 + 4 + 8 + 3 + 8 + 3 + 8);
    assert!(channel.is_empty());
    let mut replay = RecvSession::begin(3, RestoreVec::new(saved), "cuLaunchKernel");
    let saved_proc: i32 = replay.recv("proc_id");
    assert_eq!(saved_proc, 918);
    let again: i32 = replay.recv("proc_id");
    assert_eq!(again, 918);
    assert_eq!(replay.recv_slice::<u8>("args"), vec![1, 2, 3]);
    assert_eq!(replay.recv_cstr("name"), vec![b'a', b'b', 0]);
    let handle_again: usize = replay.recv("stream");
    assert_eq!(handle_again, 1);
    let mut plain = RecvSession::begin(1, RestoreVec::new(vec![5, 0, 0, 0]), "f");
    let mut out = 0i32;
    plain.recv_mut(&mut out, "out");
    assert_eq!(out, 5);
    assert!(plain.save.is_none());
}

#[test]
fn comm_types() {
    assert_eq!(checked_comm_type("shm", false), CommType::Shm { emulator: false });
    assert_eq!(checked_comm_type("tcp", false), CommType::Tcp);
    assert_eq!(checked_comm_type("shm", true), CommType::Shm { emulator: true });
    assert!(is_supported_comm_type("shm", true));
    assert!(!is_supported_comm_type("tcp", true));
    assert!(!is_supported_comm_type("rdma", false));
    assert_eq!(session_port(8000, 3), 8003);
}

#[test]
fn timer_rounds() {
    let mut timer = Timer::new(String::from("times.csv"));
    assert_eq!(timer.output_file(), Some(String::from("times.csv")));
    assert_eq!(timer.start_row(0), vec![0u64; MEASURE_MAX_NUM]);
    let mut full = false;
    for _ in 0..ITER_NUM {
        full = timer.plus_cnt();
    }
    assert!(full);
    assert!(!Timer::new_null().output_file().is_some());
    assert_eq!(CommChannelError::RestoreEof.message(), "Channel Error: RestoreEof");
}

#[test]
fn every_integer_width_round_trips() {
    let mut out = Vec::new();
    save(&-2i8, &mut out);
    save(&0xbeefu16, &mut out);
    save(&-300i16, &mut out);
    save(&-5i64, &mut out);
    save(&-7isize, &mut out);
    save(&(u128::MAX - 1), &mut out);
    save(&i128::MIN, &mut out);
    assert_eq!(out.len(), 1 + 2 + 2 + 8 + 8 + 16 + 16);
    assert_eq!(&out[..3], &[254, 0xef, 0xbe]);
    let mut replay = RestoreVec::new(out);
    assert_eq!(replay.recv::<i8>(), Ok(-2));
    assert_eq!(replay.recv::<u16>(), Ok(0xbeef));
    assert_eq!(replay.recv::<i16>(), Ok(-300));
    assert_eq!(replay.recv::<i64>(), Ok(-5));
    assert_eq!(replay.recv::<isize>(), Ok(-7));
    assert_eq!(replay.recv::<u128>(), Ok(u128::MAX - 1));
    assert_eq!(replay.recv::<i128>(), Ok(i128::MIN));
    assert_eq!(replay.recv::<u8>(), Err(CommChannelError::RestoreEof));
}

#[test]
fn replayed_session_runs_out_with_restore_eof() {
    let mut saved = Vec::new();
    save(&5u32, &mut saved);
    let mut replay = RestoreVec::new(saved);
    assert_eq!(replay.recv_slice::<u8>(), Err(CommChannelError::RestoreEof));
    let mut dst = [0u8; 1];
    assert_eq!(replay.recv_slice_to(&mut dst), Err(CommChannelError::RestoreEof));
    let mut one = 0u64;
    assert_eq!(replay.recv_to(&mut one), Err(CommChannelError::RestoreEof));
    assert_eq!(one, 0);
}

#[test]
fn server_session_saves_every_receive_in_order() {
    let channel = LocalChannel::new(64 + META_AREA);
    let mut send = SendSession::begin(2, channel, "cuModuleLoadData");
    send.send(&9u64, "size");
    send.send_slice(&[4i32, 5], "values");
    send.send_cstr(b"k\0", "name");
    let channel = send.finish();
    let mut recv = RecvSession::begin_server(2, channel, "cuModuleLoadData", true, 77);
    let size: u64 = recv.recv("size");
    assert_eq!(size, 9);
    assert_eq!(recv.recv_slice::<i32>("values"), vec![4, 5]);
    assert_eq!(recv.recv_cstr("name"), vec![b'k', 0]);
    let (saved, _) = recv.finish();
    let mut expected = Vec::new();
    save(&77i32, &mut expected);
    save(&9u64, &mut expected);
    save_slice(&[4i32, 5], &mut expected);
    save_slice(&[b'k', 0], &mut expected);
    assert_eq!(saved, Some(expected));
}

#[test]
fn sizes_travel_component_by_component() {
    let d = Dim3 { x: 1, y: 0x0200, z: 3 };
    let mut out = Vec::new();
    save(&d, &mut out);
    assert_eq!(out, vec![1, 0, 0, 0, 0, 2, 0, 0, 3, 0, 0, 0]);
    let mut replay = RestoreVec::new(out);
    assert_eq!(replay.recv::<Dim3>(), Ok(d));
}
