use mctp_usbredir::error::Error;
use mctp_usbredir::framing::encode;
use mctp_usbredir::transport::{RxBuffer, USB_XFER_SIZE};

#[test]
fn new_buffer_is_empty() {
    assert!(RxBuffer::new().is_empty());
}

#[test]
fn two_frames_in_one_delivery() {
    let mut rx = RxBuffer::new();
    let a = vec![0x10u8, 0x11, 0x12];
    let b = vec![0x20u8; 7];
    let mut delivery = encode(&a).unwrap();
    delivery.extend_from_slice(&encode(&b).unwrap());
    rx.deliver(&delivery).unwrap();
    assert!(!rx.is_empty());
    assert_eq!(rx.next_frame().unwrap(), a);
    assert!(!rx.is_empty());
    assert_eq!(rx.next_frame().unwrap(), b);
    assert!(rx.is_empty());
}

#[test]
fn oversize_delivery_is_rejected_without_change() {
    let mut rx = RxBuffer::new();
    let a = vec![5u8; 4];
    rx.deliver(&encode(&a).unwrap()).unwrap();
    let big = vec![0u8; USB_XFER_SIZE + 1];
    assert_eq!(rx.deliver(&big), Err(Error::Overflow));
    assert_eq!(rx.next_frame().unwrap(), a);
    assert!(rx.is_empty());
}

#[test]
fn oversize_delivery_on_empty_buffer() {
    let mut rx = RxBuffer::new();
    assert_eq!(rx.deliver(&vec![0u8; 1000]), Err(Error::Overflow));
    assert!(rx.is_empty());
}

#[test]
fn largest_delivery_is_accepted() {
    let mut rx = RxBuffer::new();
    let p = vec![9u8; USB_XFER_SIZE - 4];
    let e = encode(&p).unwrap();
    assert_eq!(e.len(), USB_XFER_SIZE);
    rx.deliver(&e).unwrap();
    assert_eq!(rx.next_frame().unwrap(), p);
}

#[test]
fn framing_error_discards_buffered_bytes() {
    let mut rx = RxBuffer::new();
    let mut delivery = encode(&[1, 2, 3]).unwrap();
    delivery.extend_from_slice(&[0, 0, 0, 50, 1]);
    rx.deliver(&delivery).unwrap();
    assert_eq!(rx.next_frame().unwrap(), vec![1, 2, 3]);
    assert_eq!(rx.next_frame(), Err(Error::Framing));
    assert!(rx.is_empty());
}

#[test]
fn receive_continues_after_framing_error() {
    let mut rx = RxBuffer::new();
    rx.deliver(&[0, 0]).unwrap();
    assert_eq!(rx.next_frame(), Err(Error::Framing));
    rx.deliver(&encode(&[4]).unwrap()).unwrap();
    assert_eq!(rx.next_frame().unwrap(), vec![4]);
}
