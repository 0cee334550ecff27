use netpipe::transport::{Transport, TransportError};
use netpipe::util::FakeNetwork;

#[test]
fn network_can_broadcast() {
    let mut network = FakeNetwork::new();
    network.send("The".as_bytes().to_vec());
    network.send("Sequence".as_bytes().to_vec());
    network.send("Of".as_bytes().to_vec());
    network.send("Messages".as_bytes().to_vec());

    let mut buf = vec![0u8; 10];
    let _copied = network.read(&mut buf).unwrap();
    let mut expected = vec![0u8; 10];
    expected[0..3].copy_from_slice("The".as_bytes());
    assert_eq!(buf, expected);

    let mut buf = vec![0u8; 10];
    let _copied = network.read(&mut buf).unwrap();
    let mut expected = vec![0u8; 10];
    expected[0..8].copy_from_slice("Sequence".as_bytes());
    assert_eq!(buf, expected);

    let mut buf = vec![0u8; 10];
    let _copied = network.read(&mut buf).unwrap();
    let mut expected = vec![0u8; 10];
    expected[0..2].copy_from_slice("Of".as_bytes());
    assert_eq!(buf, expected);

    let mut buf = vec![0u8; 10];
    let _copied = network.read(&mut buf).unwrap();
    let mut expected = vec![0u8; 10];
    expected[0..8].copy_from_slice("Messages".as_bytes());
    assert_eq!(buf, expected);
}

#[test]
fn read_reports_copied_length() {
    let mut network = FakeNetwork::new();
    network.send(b"abc".to_vec());
    let mut buf = vec![0u8; 10];
    assert_eq!(network.read(&mut buf).unwrap(), 3);
}

#[test]
fn partial_read_retains_remainder() {
    let mut network = FakeNetwork::new();
    network.send(b"abcdef".to_vec());

    let mut buf = vec![0u8; 4];
    assert_eq!(network.read(&mut buf).unwrap(), 4);
    assert_eq!(buf, b"abcd".to_vec());

    let mut buf = vec![0u8; 4];
    assert_eq!(network.read(&mut buf).unwrap(), 2);
    assert_eq!(&buf[0..2], b"ef");
}

#[test]
fn written_chunks_are_received_in_order() {
    let mut network = FakeNetwork::new();
    network.write(&b"first".to_vec()).unwrap();
    network.write(&b"second".to_vec()).unwrap();
    network.flush().unwrap();
    assert_eq!(network.recv().unwrap(), b"first".to_vec());
    assert_eq!(network.recv().unwrap(), b"second".to_vec());
    assert_eq!(network.recv().unwrap_err(), TransportError::WouldBlock);
}

#[test]
fn read_without_data_would_block() {
    let mut network = FakeNetwork::new();
    let mut buf = vec![0u8; 4];
    assert_eq!(network.read(&mut buf).unwrap_err(), TransportError::WouldBlock);
    assert_eq!(buf, vec![0u8; 4]);
}

#[test]
fn closed_network_fails_reads_and_writes() {
    let mut network = FakeNetwork::new();
    network.send(b"queued".to_vec());
    network.close();

    let mut buf = vec![0u8; 4];
    assert_eq!(network.read(&mut buf).unwrap_err(), TransportError::Closed);
    assert_eq!(
        network.write(&b"data".to_vec()).unwrap_err(),
        TransportError::Closed
    );
    assert_eq!(network.flush().unwrap_err(), TransportError::Closed);
}
