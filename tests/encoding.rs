use zk_request::acl::{write_acls, Scheme, ACL, PERM_ALL, PERM_READ, PERM_WRITE};
use zk_request::buffer::new_buffer;
use zk_request::packet::{packets_before_shutdown, ReqPacket, DEATH_PTYPE, REQUEST_PTYPE};
use zk_request::request::{
    ConnectRequest, CreateMode, CreateRequest, DeleteRequest, PathAndWatchRequest, PathRequest,
    RequestHeader, SetDataRequest,
};
use zk_request::wire::{
    write_bool, write_i32, write_i64, write_slice, write_slice_option, write_string, write_u32,
};

fn be32(v: i32) -> Vec<u8> {
    v.to_be_bytes().to_vec()
}

fn string_bytes(s: &str) -> Vec<u8> {
    let mut v = be32(s.len() as i32);
    v.extend_from_slice(s.as_bytes());
    v
}

fn acl_bytes(perms: u32, scheme: &str, id: &str) -> Vec<u8> {
    let mut v = perms.to_be_bytes().to_vec();
    v.extend(string_bytes(scheme));
    v.extend(string_bytes(id));
    v
}

#[test]
fn integers_are_big_endian() {
    let mut b = new_buffer();
    write_i32(0x0809A0A1, &mut b);
    write_i32(-2, &mut b);
    write_u32(0xDEADBEEF, &mut b);
    write_i64(-1, &mut b);
    write_i64(0x0102030405060708, &mut b);
    let expected: Vec<u8> = vec![
        0x08, 0x09, 0xA0, 0xA1, 0xFF, 0xFF, 0xFF, 0xFE, 0xDE, 0xAD, 0xBE, 0xEF, 0xFF, 0xFF, 0xFF,
        0xFF, 0xFF, 0xFF, 0xFF, 0xFF, 1, 2, 3, 4, 5, 6, 7, 8,
    ];
    assert_eq!(b.to_vec(), expected);
}

#[test]
fn booleans_are_one_byte() {
    let mut b = new_buffer();
    write_bool(true, &mut b);
    write_bool(false, &mut b);
    assert_eq!(b.to_vec(), vec![1u8, 0u8]);
}

#[test]
fn strings_carry_utf8_byte_length() {
    let mut b = new_buffer();
    write_string("/n\u{00e9}", &mut b);
    assert_eq!(b.to_vec(), vec![0, 0, 0, 4, b'/', b'n', 0xC3, 0xA9]);
    let mut e = new_buffer();
    write_string("", &mut e);
    assert_eq!(e.to_vec(), vec![0, 0, 0, 0]);
}

#[test]
fn optional_bytes_present_absent_and_empty() {
    let mut some = new_buffer();
    write_slice_option(Some(&[7u8, 8, 9][..]), &mut some);
    assert_eq!(some.to_vec(), vec![0, 0, 0, 3, 7, 8, 9]);

    let mut none = new_buffer();
    write_slice_option(None, &mut none);
    assert_eq!(none.to_vec(), vec![0xFF, 0xFF, 0xFF, 0xFF]);

    let mut empty = new_buffer();
    write_slice_option(Some(&[][..]), &mut empty);
    assert_eq!(empty.to_vec(), vec![0, 0, 0, 0]);
    assert_ne!(empty.to_vec(), none.to_vec());
}

#[test]
fn required_bytes_never_null() {
    let mut b = new_buffer();
    write_slice(&[][..], &mut b);
    write_slice(&[1u8][..], &mut b);
    assert_eq!(b.to_vec(), vec![0, 0, 0, 0, 0, 0, 0, 1, 1]);
}

#[test]
fn world_acl_ignores_id() {
    for (perms, id) in [(PERM_ALL, "anyone"), (PERM_READ, "someone else"), (0u32, "")] {
        let a = ACL { perms, scheme: Scheme::World, id: id.to_string() };
        let mut b = new_buffer();
        a.write(&mut b);
        assert_eq!(b.to_vec(), acl_bytes(perms, "world", "anyone"));
    }
}

#[test]
fn ip_and_digest_acls() {
    let ip = ACL { perms: PERM_READ | PERM_WRITE, scheme: Scheme::IP("10.0.0.1".to_string()), id: String::new() };
    let mut b = new_buffer();
    ip.write(&mut b);
    assert_eq!(b.to_vec(), acl_bytes(3, "ip", "10.0.0.1"));

    let dg = ACL { perms: PERM_ALL, scheme: Scheme::Digest("user:hash=".to_string()), id: String::new() };
    let mut d = new_buffer();
    dg.write(&mut d);
    assert_eq!(d.to_vec(), acl_bytes(31, "digest", "user:hash="));
}

#[test]
fn world_acl_default() {
    let v = ACL::world_acl();
    assert_eq!(v.len(), 1);
    assert_eq!(v[0].perms, PERM_ALL);
    assert!(matches!(v[0].scheme, Scheme::World));
    assert_eq!(v[0].id, "anyone");
    let d = ACL::default();
    assert_eq!(d.perms, 31);
}

#[test]
fn acl_list_is_counted_concatenation() {
    let mut e = new_buffer();
    write_acls(&Vec::new(), &mut e);
    assert_eq!(e.to_vec(), vec![0, 0, 0, 0]);

    let list = vec![
        ACL { perms: PERM_ALL, scheme: Scheme::World, id: "anyone".to_string() },
        ACL { perms: PERM_READ, scheme: Scheme::Digest("u:p".to_string()), id: String::new() },
    ];
    let mut b = new_buffer();
    write_acls(&list, &mut b);
    let mut expected = be32(2);
    expected.extend(acl_bytes(31, "world", "anyone"));
    expected.extend(acl_bytes(1, "digest", "u:p"));
    assert_eq!(b.to_vec(), expected);
}

#[test]
fn set_data_scenario() {
    let r = SetDataRequest::new("/a".into(), b"hello", 3);
    let mut b = new_buffer();
    r.write(&mut b);
    let mut expected = string_bytes("/a");
    expected.extend(be32(5));
    expected.extend_from_slice(b"hello");
    expected.extend(be32(3));
    assert_eq!(b.to_vec(), expected);
}

#[test]
fn connect_default_scenario() {
    let r = ConnectRequest::new(10000);
    let mut b = new_buffer();
    r.write(&mut b);
    let out = b.to_vec();
    assert_eq!(out.len(), 29);
    assert_eq!(&out[0..4], &[0, 0, 0, 0]);
    assert_eq!(&out[4..12], &[0; 8]);
    assert_eq!(&out[12..16], &10000u32.to_be_bytes());
    assert_eq!(&out[16..24], &[0; 8]);
    assert_eq!(&out[24..28], &(-1i32).to_be_bytes());
    assert_eq!(out[28], 0);
}

#[test]
fn connect_with_password() {
    let mut r = ConnectRequest::new(30000);
    r.session_id = 0x1122334455667788;
    r.last_zxid_seen = 9;
    r.passwd = Some(vec![0xAB; 16]);
    r.read_only = true;
    let mut b = new_buffer();
    r.write(&mut b);
    let out = b.to_vec();
    assert_eq!(out.len(), 4 + 8 + 4 + 8 + 4 + 16 + 1);
    assert_eq!(&out[4..12], &9i64.to_be_bytes());
    assert_eq!(&out[16..24], &0x1122334455667788i64.to_be_bytes());
    assert_eq!(&out[24..28], &16i32.to_be_bytes());
    assert_eq!(&out[28..44], &[0xAB; 16]);
    assert_eq!(out[44], 1);
}

#[test]
fn header_and_simple_requests() {
    let mut b = new_buffer();
    RequestHeader::new(7, 2).write(&mut b);
    assert_eq!(b.to_vec(), vec![0, 0, 0, 7, 0, 0, 0, 2]);

    let mut d = new_buffer();
    DeleteRequest::new("/x".to_string(), -1).write(&mut d);
    let mut expected = string_bytes("/x");
    expected.extend(be32(-1));
    assert_eq!(d.to_vec(), expected);

    let mut w = new_buffer();
    PathAndWatchRequest::new("/w".to_string(), true).write(&mut w);
    let mut expected = string_bytes("/w");
    expected.push(1);
    assert_eq!(w.to_vec(), expected);

    let mut p = new_buffer();
    PathRequest::new("/p/q".to_string()).write(&mut p);
    assert_eq!(p.to_vec(), string_bytes("/p/q"));
}

#[test]
fn create_minimal() {
    let r = CreateRequest::new("/node");
    assert_eq!(r.acl.len(), 1);
    assert_eq!(r.acl[0].id, "anyone");
    assert!(matches!(r.acl[0].scheme, Scheme::World));
    assert!(r.data.is_none());
    let mut b = new_buffer();
    r.write(&mut b);
    let mut expected = string_bytes("/node");
    expected.extend(be32(-1));
    expected.extend(be32(1));
    expected.extend(acl_bytes(31, "world", "anyone"));
    expected.extend(be32(0));
    assert_eq!(b.to_vec(), expected);
}

#[test]
fn create_mode_codes() {
    assert_eq!(CreateMode::Persistent.code(), 0);
    assert_eq!(CreateMode::Ephemeral.code(), 1);
    assert_eq!(CreateMode::PersistentSequential.code(), 2);
    assert_eq!(CreateMode::EphemeralSequential.code(), 3);
}

fn take_i32(s: &[u8], at: &mut usize) -> i32 {
    let v = i32::from_be_bytes([s[*at], s[*at + 1], s[*at + 2], s[*at + 3]]);
    *at += 4;
    v
}

fn take_opt(s: &[u8], at: &mut usize) -> Option<Vec<u8>> {
    let n = take_i32(s, at);
    if n == -1 {
        return None;
    }
    let v = s[*at..*at + n as usize].to_vec();
    *at += n as usize;
    Some(v)
}

fn take_str(s: &[u8], at: &mut usize) -> String {
    String::from_utf8(take_opt(s, at).unwrap()).unwrap()
}

#[test]
fn create_full_round_trip() {
    let acl = vec![
        ACL { perms: PERM_READ, scheme: Scheme::IP("192.168.1.2".to_string()), id: String::new() },
        ACL { perms: PERM_ALL, scheme: Scheme::Digest("super:x".to_string()), id: String::new() },
    ];
    let r = CreateRequest::new_full("/app/\u{4e2d}".to_string(), Some(&[0u8, 1, 2][..]), acl, CreateMode::EphemeralSequential);
    let mut b = new_buffer();
    r.write(&mut b);
    let out = b.to_vec();
    let mut at = 0usize;
    assert_eq!(take_str(&out, &mut at), "/app/\u{4e2d}");
    assert_eq!(take_opt(&out, &mut at), Some(vec![0, 1, 2]));
    assert_eq!(take_i32(&out, &mut at), 2);
    assert_eq!(take_i32(&out, &mut at) as u32, PERM_READ);
    assert_eq!(take_str(&out, &mut at), "ip");
    assert_eq!(take_str(&out, &mut at), "192.168.1.2");
    assert_eq!(take_i32(&out, &mut at) as u32, PERM_ALL);
    assert_eq!(take_str(&out, &mut at), "digest");
    assert_eq!(take_str(&out, &mut at), "super:x");
    assert_eq!(take_i32(&out, &mut at), 3);
    assert_eq!(at, out.len());

    let empty = CreateRequest::new_full("/e".to_string(), None, Vec::new(), CreateMode::Persistent);
    let mut e = new_buffer();
    empty.write(&mut e);
    let mut expected = string_bytes("/e");
    expected.extend(be32(-1));
    expected.extend(be32(0));
    expected.extend(be32(0));
    assert_eq!(e.to_vec(), expected);
}

#[test]
fn death_packet() {
    let d = ReqPacket::death_request();
    assert_eq!(d.ptype(), DEATH_PTYPE);
    assert_eq!(DEATH_PTYPE, -1);
    assert!(d.header().is_none());
    assert!(d.payload().is_none());

    let mut body = new_buffer();
    PathRequest::new("/z".to_string()).write(&mut body);
    let p = ReqPacket::new(Some(RequestHeader::new(1, 8)), body);
    assert_eq!(p.ptype(), REQUEST_PTYPE);
    assert_eq!(p.header().unwrap().xid, 1);
    assert_eq!(p.payload().unwrap().to_vec(), string_bytes("/z"));
}

#[test]
fn queue_stops_at_first_death() {
    let queue = vec![
        ReqPacket::new(None, new_buffer()),
        ReqPacket::new(Some(RequestHeader::new(1, 4)), new_buffer()),
        ReqPacket::death_request(),
        ReqPacket::new(Some(RequestHeader::new(2, 4)), new_buffer()),
        ReqPacket::death_request(),
    ];
    assert_eq!(packets_before_shutdown(&queue), 2);
    assert_eq!(packets_before_shutdown(&Vec::new()), 0);
    let no_death = vec![ReqPacket::new(None, new_buffer())];
    assert_eq!(packets_before_shutdown(&no_death), 1);
}
