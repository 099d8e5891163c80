use phos_remoting::local::LocalChannel;
use phos_remoting::ring::META_AREA;
use phos_remoting::transport::{RecvChannel, SendChannel};

/// Test bool Transportable impl
#[test]
fn test_bool_io() {
    let mut channel = LocalChannel::new(10 + META_AREA);
    let a = true;
    let mut b = false;
    channel.send(&a).unwrap();
    channel.recv_to(&mut b).unwrap();
    assert_eq!(a, b);
}

/// Test i32 Transportable impl
#[test]
fn test_i32_io() {
    let mut channel = LocalChannel::new(10 + META_AREA);
    let a = 123;
    let mut b = 0;
    channel.send(&a).unwrap();
    channel.recv_to(&mut b).unwrap();
    assert_eq!(a, b);
}

/// Test [i32] Transportable impl
#[test]
fn test_i32_array_io() {
    let mut channel = LocalChannel::new(50 + META_AREA);
    let a = [1i32, 2, 3, 4, 5];
    let mut b = [0i32; 5];
    channel.send_slice(&a).unwrap();
    channel.recv_slice_to(&mut b).unwrap();
    assert_eq!(a, b);
}
