use smolgnet::error::Error;
use smolgnet::socket::{OwnedSocketSet, SocketSet, SocketStorage};

#[test]
fn borrowed_socket_set_rejects_stale_handle() {
    let slots = vec![SocketStorage::<u32>::empty(), SocketStorage::<u32>::empty()];
    let mut set = SocketSet::new(slots);
    let h = set.add(10).unwrap();
    assert_eq!(*set.get(h).unwrap(), 10);
    assert_eq!(set.remove(h).unwrap(), 10);
    let h2 = set.add(20).unwrap();
    assert_ne!(h, h2);
    assert_eq!(set.get(h), Err(Error::InvalidState));
    assert_eq!(*set.get(h2).unwrap(), 20);
}

#[test]
fn borrowed_socket_set_is_strictly_bounded() {
    let slots = vec![SocketStorage::<u8>::empty()];
    let mut set = SocketSet::new(slots);
    set.add(1).unwrap();
    assert_eq!(set.add(2), Err(Error::BufferFull));
}

#[test]
fn owned_socket_set_grows_and_reuses_slots() {
    let mut set: OwnedSocketSet<u16> = OwnedSocketSet::new();
    assert!(set.is_empty());
    let a = set.add(1).unwrap();
    let b = set.add(2).unwrap();
    assert_eq!(a.index(), 0);
    assert_eq!(b.index(), 1);
    assert_eq!(set.len(), 2);
    *set.get_mut(b).unwrap() = 22;
    assert_eq!(*set.get(b).unwrap(), 22);
    assert_eq!(set.remove(a), Ok(1));
    let c = set.add(3).unwrap();
    assert_eq!(c.index(), 0);
    assert_eq!(c.generation(), 2);
    assert_eq!(set.get(a), Err(Error::InvalidState));
    assert_eq!(set.handles(), vec![c, b]);
    assert_eq!(set.find(|v| *v == 22), Some(b));
    assert_eq!(set.find(|v| *v == 99), None);
}

#[test]
fn out_of_range_handle_is_an_invalid_field() {
    let mut big: OwnedSocketSet<u8> = OwnedSocketSet::new();
    let h0 = big.add(0).unwrap();
    let h1 = big.add(1).unwrap();
    let small = SocketSet::new(vec![SocketStorage::<u8>::empty()]);
    assert_eq!(small.get(h1), Err(Error::InvalidField));
    assert_eq!(small.get(h0), Err(Error::InvalidState));
}
