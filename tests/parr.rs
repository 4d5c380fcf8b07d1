use core::mem::size_of;

use parr::{Block, Parr};

const START: u64 = 0x1000;

#[test]
fn from_slice() {
    let raw = Block::new(START, vec![11_u8, 22, 33]);
    let arr: Parr<u8> = Parr::from(&raw);

    assert_eq!(*arr.get(&raw, 1), 22);
}

#[test]
fn from_u64() {
    let raw = Block::new(START, vec![11_u8, 22, 33]);
    let arr: Parr<u8> = Parr::new(raw.as_ptr().addr());

    assert_eq!(*arr.get(&raw, 1), 22);
}

#[test]
fn from_ptr() {
    let raw_arr = Block::new(START, vec![11_u8, 22, 33]);
    let arr: Parr<u8> = Parr::from_ptr(raw_arr.as_ptr());

    assert_eq!(*arr.get(&raw_arr, 1), 22);
}

#[test]
fn change_state() {
    let mut raw_arr = Block::new(START, vec![11_u8, 22, 33]);
    let arr: Parr<u8> = Parr::from_ptr(raw_arr.as_ptr());

    arr.set(&mut raw_arr, 1, 42);

    assert_eq!(*arr.get(&raw_arr, 1), 42);
}

#[test]
fn foreign_volatile() {
    let mut members = Block::new(START, vec![11_u8, 22, 33]);
    let arr: Parr<u8> = Parr::from_ptr(members.as_ptr());

    // Write the second member through its raw address.
    let raw_member = arr.base() + 1;
    members.write_at(raw_member, 42);

    assert_eq!(*arr.get(&members, 1), 42);
}

struct Msg {
    tags: Parr<u8>,
}

fn new_msg(tags: &Block<u8>) {
    let msg = Msg {
        tags: Parr::from_slice(tags),
    };

    let elem: u8 = *msg.tags.get(tags, 1);
    assert_eq!(elem, 42);
}

#[test]
fn foreign_access() {
    let tags = Block::new(START, vec![11_u8, 42, 56, 37]);

    let mut x: isize = 0;
    for i in 0..42 {
        x += i * 3 - 2;
    }
    assert_eq!(x, 2499);

    new_msg(&tags);
}

#[test]
fn get_size() {
    assert_eq!(size_of::<Parr<u8>>(), 8);
}

#[derive(Debug, Copy, Clone, PartialEq)]
struct Member {
    index: u8,
    state: u8,
}

#[test]
fn struct_as_member() {
    let mut i: u8 = 0;
    let member = Member {
        index: (|| {
            i += 1;
            i
        })(),
        state: i * 3,
    };
    let mut members = Block::new(START, vec![member; 5]);

    let arr: Parr<Member> = Parr::from_ptr(members.as_ptr());

    arr.set(&mut members, 2, Member { index: 1, state: 42 });
    assert_eq!(*arr.get(&members, 2), Member { index: 1, state: 42 });
}

struct Foo {
    bar: u8,
}

impl Default for Foo {
    fn default() -> Self {
        Self { bar: 42 }
    }
}

#[test]
fn default() {
    let raw = Block::new(START, vec![Foo::default()]);
    let arr: Parr<Foo> = Parr::from_ptr(raw.as_ptr());

    assert_eq!(arr.get(&raw, 0).bar, 42);
}
