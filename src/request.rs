//! The request header and the payload of each operation, with their wire forms.
use vstd::prelude::*;
use vstd::slice::slice_to_vec;
use crate::acl::{acls_fit, acls_view, acls_wire, read_acls, lemma_read_acls, SchemeView, ACL};
use crate::buffer::{buf_bytes, fits_buffer};
use crate::wire::{
    bool_wire, bytes_wire, fits_i32, i32_wire, i64_wire, opt_bytes_fit, opt_bytes_wire, opt_view,
    read_i32, read_opt_bytes, read_str, str_fits, str_wire, u32_wire, write_bool, write_i32,
    write_i64, write_slice, write_slice_option, write_string, write_u32, lemma_read_i32,
    lemma_read_opt_bytes, lemma_read_str,
};

verus! {

/// The bytes of an optional byte vector.
pub open spec fn opt_vec_view(d: Option<Vec<u8>>) -> Option<Seq<u8>> {
    match d {
        Some(v) => Some(v@),
        None => None,
    }
}

/// The prefix of every request but the handshake: transaction id, then
/// operation code.
#[derive(Debug, Default)]
pub struct RequestHeader {
    pub xid: i32,
    pub rtype: i32,
}

impl RequestHeader {
    pub fn new(xid: i32, rtype: i32) -> (r: RequestHeader)
        ensures
            r.xid == xid,
            r.rtype == rtype,
    {
        RequestHeader { xid, rtype }
    }

    pub open spec fn wire(&self) -> Seq<u8> {
        i32_wire(self.xid) + i32_wire(self.rtype)
    }

    pub fn write(&self, b: &mut bytes::BytesMut)
        requires
            fits_buffer(buf_bytes(*old(b)).len() + self.wire().len()),
        ensures
            buf_bytes(*final(b)) == buf_bytes(*old(b)) + self.wire(),
    {
        let ghost start = buf_bytes(*b);
        write_i32(self.xid, b);
        write_i32(self.rtype, b);
        assert(buf_bytes(*b) =~= start + self.wire());
    }
}

/// The session handshake.
#[derive(Debug, Default)]
pub struct ConnectRequest {
    pub protocol_version: i32,
    pub last_zxid_seen: i64,
    pub time_out: u32,
    pub session_id: i64,
    pub passwd: Option<Vec<u8>>,
    pub read_only: bool,
}

impl ConnectRequest {
    /// A handshake for a fresh session with the given timeout: every other
    /// field zero, no password, not read-only.
    pub fn new(session_timeout: u32) -> (r: ConnectRequest)
        ensures
            r.protocol_version == 0,
            r.last_zxid_seen == 0,
            r.time_out == session_timeout,
            r.session_id == 0,
            r.passwd is None,
            r.read_only == false,
    {
        ConnectRequest {
            protocol_version: 0,
            last_zxid_seen: 0,
            time_out: session_timeout,
            session_id: 0,
            passwd: None,
            read_only: false,
        }
    }

    pub open spec fn wf(&self) -> bool {
        opt_bytes_fit(opt_vec_view(self.passwd))
    }

    pub open spec fn wire(&self) -> Seq<u8> {
        i32_wire(self.protocol_version) + i64_wire(self.last_zxid_seen) + u32_wire(self.time_out)
            + i64_wire(self.session_id) + opt_bytes_wire(opt_vec_view(self.passwd)) + bool_wire(
            self.read_only,
        )
    }

    pub fn write(&self, b: &mut bytes::BytesMut)
        requires
            self.wf(),
            fits_buffer(buf_bytes(*old(b)).len() + self.wire().len()),
        ensures
            buf_bytes(*final(b)) == buf_bytes(*old(b)) + self.wire(),
    {
        let ghost start = buf_bytes(*b);
        write_i32(self.protocol_version, b);
        write_i64(self.last_zxid_seen, b);
        write_u32(self.time_out, b);
        write_i64(self.session_id, b);
        match &self.passwd {
            Some(p) => write_slice_option(Some(p.as_slice()), b),
            None => write_slice_option(None, b),
        }
        write_bool(self.read_only, b);
        assert(buf_bytes(*b) =~= start + self.wire());
    }
}

/// How a created node lives: until deleted or until its session ends, and
/// whether the service appends a sequence number to its name.
#[derive(Debug, Clone, Copy, PartialEq, Eq)]
pub enum CreateMode {
    Persistent,
    Ephemeral,
    PersistentSequential,
    EphemeralSequential,
}

impl CreateMode {
    pub open spec fn spec_code(&self) -> i32 {
        match self {
            CreateMode::Persistent => 0,
            CreateMode::Ephemeral => 1,
            CreateMode::PersistentSequential => 2,
            CreateMode::EphemeralSequential => 3,
        }
    }

    /// The mode's code on the wire.
    #[verifier::when_used_as_spec(spec_code)]
    pub fn code(&self) -> (r: i32)
        ensures
            r == self.spec_code(),
    {
        match self {
            CreateMode::Persistent => 0,
            CreateMode::Ephemeral => 1,
            CreateMode::PersistentSequential => 2,
            CreateMode::EphemeralSequential => 3,
        }
    }

    /// The mode that a code read from the wire stands for.
    pub open spec fn from_code(c: i32) -> Option<CreateMode> {
        if c == 0 {
            Some(CreateMode::Persistent)
        } else if c == 1 {
            Some(CreateMode::Ephemeral)
        } else if c == 2 {
            Some(CreateMode::PersistentSequential)
        } else if c == 3 {
            Some(CreateMode::EphemeralSequential)
        } else {
            None
        }
    }
}

/// Path, optional data, access-control list, mode code.
pub open spec fn create_wire(path: Seq<char>, data: Option<Seq<u8>>, acl: Seq<ACL>, flags: i32) -> Seq<u8> {
    str_wire(path) + opt_bytes_wire(data) + acls_wire(acl) + i32_wire(flags)
}

/// Node creation.
#[derive(Debug, Default)]
pub struct CreateRequest {
    pub path: String,
    pub data: Option<Vec<u8>>,
    pub acl: Vec<ACL>,
    pub flags: i32,
}

impl CreateRequest {
    /// A persistent node with no data, open to everyone.
    pub fn new(path: &str) -> (r: CreateRequest)
        ensures
            r.path@ == path@,
            r.data is None,
            r.acl@.len() == 1,
            r.acl@[0].perms == crate::acl::PERM_ALL,
            r.acl@[0].scheme is World,
            r.acl@[0].id@ == crate::acl::ANYONE@,
            r.flags == CreateMode::Persistent.spec_code(),
    {
        CreateRequest {
            path: path.to_string(),
            data: None,
            acl: ACL::world_acl(),
            flags: CreateMode::Persistent.code(),
        }
    }

    pub fn new_full(path: String, data: Option<&[u8]>, acl: Vec<ACL>, create_mode: CreateMode) -> (r: CreateRequest)
        ensures
            r.path@ == path@,
            opt_vec_view(r.data) == opt_view(data),
            r.acl@ == acl@,
            r.flags == create_mode.spec_code(),
            r.wire() == create_wire(path@, opt_view(data), acl@, create_mode.spec_code()),
    {
        let data = match data {
            Some(d) => Some(slice_to_vec(d)),
            None => None,
        };
        CreateRequest { path, data, acl, flags: create_mode.code() }
    }

    pub open spec fn wf(&self) -> bool {
        &&& str_fits(self.path@)
        &&& opt_bytes_fit(opt_vec_view(self.data))
        &&& acls_fit(self.acl@)
    }

    pub open spec fn wire(&self) -> Seq<u8> {
        create_wire(self.path@, opt_vec_view(self.data), self.acl@, self.flags)
    }

    /// Appends the request's wire form, from which a reader of the wire
    /// recovers its path, data, entries and mode.
    pub fn write(&self, b: &mut bytes::BytesMut)
        requires
            self.wf(),
            fits_buffer(buf_bytes(*old(b)).len() + self.wire().len()),
        ensures
            buf_bytes(*final(b)) == buf_bytes(*old(b)) + self.wire(),
            read_create(buf_bytes(*final(b)).skip(buf_bytes(*old(b)).len() as int)) == (
                self.path@,
                opt_vec_view(self.data),
                acls_view(self.acl@),
                CreateMode::from_code(self.flags),
            ),
    {
        proof {
            lemma_read_create(self.path@, opt_vec_view(self.data), self.acl@, self.flags);
        }
        let ghost start = buf_bytes(*b);
        write_string(self.path.as_str(), b);
        match &self.data {
            Some(d) => write_slice_option(Some(d.as_slice()), b),
            None => write_slice_option(None, b),
        }
        crate::acl::write_acls(&self.acl, b);
        write_i32(self.flags, b);
        assert(buf_bytes(*b) =~= start + self.wire());
        assert(buf_bytes(*b).skip(start.len() as int) =~= self.wire());
    }
}

/// Reads a node creation from the front of `s`: path, data, entries, mode.
pub open spec fn read_create(s: Seq<u8>) -> (Seq<char>, Option<Seq<u8>>, Seq<Option<(u32, SchemeView)>>, Option<CreateMode>) {
    let (path, r1) = read_str(s);
    let (data, r2) = read_opt_bytes(r1);
    let (acl, r3) = read_acls(r2);
    (path, data, acl, CreateMode::from_code(read_i32(r3)))
}

/// What a reader of the wire recovers from the form of a node creation
/// with any mode code.
pub proof fn lemma_read_create(path: Seq<char>, data: Option<Seq<u8>>, acl: Seq<ACL>, flags: i32)
    requires
        str_fits(path),
        opt_bytes_fit(data),
        acls_fit(acl),
    ensures
        read_create(create_wire(path, data, acl, flags)) == (path, data, acls_view(acl), CreateMode::from_code(flags)),
{
    let f = i32_wire(flags);
    let r2 = acls_wire(acl) + f;
    let r1 = opt_bytes_wire(data) + r2;
    assert(create_wire(path, data, acl, flags) =~= str_wire(path) + r1);
    lemma_read_str(path, r1);
    lemma_read_opt_bytes(data, r2);
    lemma_read_acls(acl, f);
    lemma_read_i32(flags, Seq::empty());
    assert(f + Seq::<u8>::empty() =~= f);
}

/// A reader of the wire that is handed the form of a node creation recovers
/// its path, its data, each entry's permissions and scheme, and its mode.
pub proof fn lemma_create_round_trip(path: Seq<char>, data: Option<Seq<u8>>, acl: Seq<ACL>, mode: CreateMode)
    requires
        str_fits(path),
        opt_bytes_fit(data),
        acls_fit(acl),
    ensures
        read_create(create_wire(path, data, acl, mode.spec_code())) == (path, data, acls_view(acl), Some(mode)),
{
    lemma_read_create(path, data, acl, mode.spec_code());
}

/// Node deletion; a `version` of -1 matches any version.
#[derive(Debug, Default)]
pub struct DeleteRequest {
    pub path: String,
    pub version: i32,
}

impl DeleteRequest {
    pub fn new(path: String, version: i32) -> (r: DeleteRequest)
        ensures
            r.path@ == path@,
            r.version == version,
    {
        DeleteRequest { path, version }
    }

    pub open spec fn wire(&self) -> Seq<u8> {
        str_wire(self.path@) + i32_wire(self.version)
    }

    pub fn write(&self, b: &mut bytes::BytesMut)
        requires
            str_fits(self.path@),
            fits_buffer(buf_bytes(*old(b)).len() + self.wire().len()),
        ensures
            buf_bytes(*final(b)) == buf_bytes(*old(b)) + self.wire(),
    {
        let ghost start = buf_bytes(*b);
        write_string(self.path.as_str(), b);
        write_i32(self.version, b);
        assert(buf_bytes(*b) =~= start + self.wire());
    }
}

/// Replacing a node's data, if its version matches.
#[derive(Debug, Default)]
pub struct SetDataRequest {
    pub path: String,
    pub data: Vec<u8>,
    pub version: i32,
}

impl SetDataRequest {
    pub fn new(path: String, data: &[u8], version: i32) -> (r: SetDataRequest)
        ensures
            r.path@ == path@,
            r.data@ == data@,
            r.version == version,
    {
        SetDataRequest { path, data: slice_to_vec(data), version }
    }

    pub open spec fn wf(&self) -> bool {
        str_fits(self.path@) && fits_i32(self.data@.len())
    }

    pub open spec fn wire(&self) -> Seq<u8> {
        str_wire(self.path@) + bytes_wire(self.data@) + i32_wire(self.version)
    }

    pub fn write(&self, b: &mut bytes::BytesMut)
        requires
            self.wf(),
            fits_buffer(buf_bytes(*old(b)).len() + self.wire().len()),
        ensures
            buf_bytes(*final(b)) == buf_bytes(*old(b)) + self.wire(),
    {
        let ghost start = buf_bytes(*b);
        write_string(self.path.as_str(), b);
        write_slice(self.data.as_slice(), b);
        write_i32(self.version, b);
        assert(buf_bytes(*b) =~= start + self.wire());
    }
}

/// A read of one node that may leave a watch on it.
#[derive(Debug, Default)]
pub struct PathAndWatchRequest {
    pub path: String,
    pub watch: bool,
}

impl PathAndWatchRequest {
    pub fn new(path: String, watch: bool) -> (r: PathAndWatchRequest)
        ensures
            r.path@ == path@,
            r.watch == watch,
    {
        PathAndWatchRequest { path, watch }
    }

    pub open spec fn wire(&self) -> Seq<u8> {
        str_wire(self.path@) + bool_wire(self.watch)
    }

    pub fn write(&self, b: &mut bytes::BytesMut)
        requires
            str_fits(self.path@),
            fits_buffer(buf_bytes(*old(b)).len() + self.wire().len()),
        ensures
            buf_bytes(*final(b)) == buf_bytes(*old(b)) + self.wire(),
    {
        let ghost start = buf_bytes(*b);
        write_string(self.path.as_str(), b);
        write_bool(self.watch, b);
        assert(buf_bytes(*b) =~= start + self.wire());
    }
}

/// An operation that needs only the node's path.
#[derive(Debug, Default)]
pub struct PathRequest {
    pub path: String,
}

impl PathRequest {
    pub fn new(path: String) -> (r: PathRequest)
        ensures
            r.path@ == path@,
    {
        PathRequest { path }
    }

    pub open spec fn wire(&self) -> Seq<u8> {
        str_wire(self.path@)
    }

    pub fn write(&self, b: &mut bytes::BytesMut)
        requires
            str_fits(self.path@),
            fits_buffer(buf_bytes(*old(b)).len() + self.wire().len()),
        ensures
            buf_bytes(*final(b)) == buf_bytes(*old(b)) + self.wire(),
    {
        write_string(self.path.as_str(), b);
    }
}

} // verus!
