use lpc55_usbhs::{EndpointBuffer, EP_MEM_ADDR};

#[test]
fn write_then_read_returns_same_bytes() {
    for len in 0..=16usize {
        let mut b = EndpointBuffer::new(128, 16);
        let data: Vec<u8> = (0..len).map(|i| (i as u8).wrapping_mul(7).wrapping_add(1)).collect();
        assert_eq!(b.write(&data), len);
        let mut out = vec![0u8; len];
        assert_eq!(b.read(&mut out), len);
        assert_eq!(out, data);
    }
}

#[test]
fn write_longer_than_capacity_truncates() {
    let mut b = EndpointBuffer::new(128, 4);
    assert_eq!(b.write(&[1, 2, 3, 4, 5, 6]), 4);
    let mut out = [0u8; 4];
    assert_eq!(b.read(&mut out), 4);
    assert_eq!(out, [1, 2, 3, 4]);
}

#[test]
fn read_into_larger_destination_copies_capacity() {
    let mut b = EndpointBuffer::new(192, 3);
    assert_eq!(b.write(&[9, 8, 7]), 3);
    let mut out = [0xaau8; 6];
    assert_eq!(b.read(&mut out), 3);
    assert_eq!(out, [9, 8, 7, 0xaa, 0xaa, 0xaa]);
}

#[test]
fn short_write_keeps_tail() {
    let mut b = EndpointBuffer::new(0, 4);
    b.write(&[1, 2, 3, 4]);
    assert_eq!(b.write(&[5, 6]), 2);
    let mut out = [0u8; 4];
    b.read(&mut out);
    assert_eq!(out, [5, 6, 3, 4]);
}

#[test]
fn new_buffer_is_zeroed() {
    let b = EndpointBuffer::new(64, 5);
    let mut out = [0xffu8; 5];
    assert_eq!(b.read(&mut out), 5);
    assert_eq!(out, [0u8; 5]);
}

#[test]
fn offset_address_and_capacity() {
    let b = EndpointBuffer::new(256, 10);
    assert_eq!(b.offset(), 256);
    assert_eq!(b.addr(), (EP_MEM_ADDR + 256) as u32);
    assert_eq!(b.addr(), 0x4010_0100);
    assert_eq!(b.capacity(), 10);
    assert!(!b.is_empty());
    assert!(EndpointBuffer::new(0, 0).is_empty());
}
