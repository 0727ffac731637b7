//! Access-control entries: a permission mask and an authentication scheme.
use vstd::prelude::*;
use vstd::utf8::{encode_utf8, is_ascii_chars_encode_utf8};
use crate::buffer::{buf_bytes, fits_buffer};
use crate::wire::{fits_i32, i32_wire, read_str, read_u32, str_fits, str_wire, u32_wire, write_i32, write_string, write_u32, lemma_read_str, lemma_read_u32};

verus! {

/// Permission to read a node's data and list its children.
pub const PERM_READ: u32 = 1;
/// Permission to set a node's data.
pub const PERM_WRITE: u32 = 2;
/// Permission to create children.
pub const PERM_CREATE: u32 = 4;
/// Permission to delete children.
pub const PERM_DELETE: u32 = 8;
/// Permission to change a node's access control list.
pub const PERM_ADMIN: u32 = 16;
/// All of the permissions above.
pub const PERM_ALL: u32 = 31;

/// Scheme token of the open-to-everyone scheme.
pub const WORLD: &'static str = "world";
/// The one identity of the open-to-everyone scheme.
pub const ANYONE: &'static str = "anyone";
/// Scheme token of address-based authentication.
pub const IP: &'static str = "ip";
/// Scheme token of credential-based authentication.
pub const DIGEST: &'static str = "digest";

/// The authentication schemes the service knows. The superuser scheme is a
/// `Digest` credential by convention and has no variant of its own.
#[derive(Debug)]
pub enum Scheme {
    World,
    /// The textual form of a network address.
    IP(String),
    /// A credential string.
    Digest(String),
}

/// What a scheme is, as a reader of the wire can tell it apart.
pub ghost enum SchemeView {
    World,
    IP(Seq<char>),
    Digest(Seq<char>),
}

impl Scheme {
    pub open spec fn view(&self) -> SchemeView {
        match self {
            Scheme::World => SchemeView::World,
            Scheme::IP(a) => SchemeView::IP(a@),
            Scheme::Digest(c) => SchemeView::Digest(c@),
        }
    }

    /// The scheme token written on the wire.
    pub open spec fn name(&self) -> Seq<char> {
        match self {
            Scheme::World => WORLD@,
            Scheme::IP(_) => IP@,
            Scheme::Digest(_) => DIGEST@,
        }
    }

    /// The identity string written on the wire after the token.
    pub open spec fn identity(&self) -> Seq<char> {
        match self {
            Scheme::World => ANYONE@,
            Scheme::IP(a) => a@,
            Scheme::Digest(c) => c@,
        }
    }
}

/// The scheme that a token and an identity read from the wire stand for;
/// `None` for an unknown token.
pub open spec fn scheme_from_wire(name: Seq<char>, identity: Seq<char>) -> Option<SchemeView> {
    if name == WORLD@ {
        Some(SchemeView::World)
    } else if name == IP@ {
        Some(SchemeView::IP(identity))
    } else if name == DIGEST@ {
        Some(SchemeView::Digest(identity))
    } else {
        None
    }
}

/// An access-control entry. `id` is kept for callers; the wire carries the
/// identity that `scheme` determines.
#[derive(Debug)]
pub struct ACL {
    pub perms: u32,
    pub scheme: Scheme,
    pub id: String,
}

impl ACL {
    /// The entry's identity string fits the protocol's length field.
    pub open spec fn wf(&self) -> bool {
        str_fits(self.scheme.identity())
    }

    /// Permission mask, scheme token, identity.
    pub open spec fn wire(&self) -> Seq<u8> {
        u32_wire(self.perms) + str_wire(self.scheme.name()) + str_wire(self.scheme.identity())
    }

    /// What a reader of the wire recovers of the entry.
    pub open spec fn wire_view(&self) -> (u32, SchemeView) {
        (self.perms, self.scheme@)
    }

    /// Appends the entry's wire form.
    pub fn write(&self, b: &mut bytes::BytesMut)
        requires
            self.wf(),
            fits_buffer(buf_bytes(*old(b)).len() + self.wire().len()),
        ensures
            buf_bytes(*final(b)) == buf_bytes(*old(b)) + self.wire(),
            self.scheme is World ==> buf_bytes(*final(b)) == buf_bytes(*old(b)) + u32_wire(self.perms)
                + seq![0u8, 0u8, 0u8, 5u8, 119u8, 111u8, 114u8, 108u8, 100u8]
                + seq![0u8, 0u8, 0u8, 6u8, 97u8, 110u8, 121u8, 111u8, 110u8, 101u8],
    {
        proof {
            lemma_token_bytes();
            if self.scheme is World {
                lemma_world_acl_wire(*self);
            }
        }
        let ghost start = buf_bytes(*b);
        write_u32(self.perms, b);
        match &self.scheme {
            Scheme::World => {
                write_string(WORLD, b);
                write_string(ANYONE, b);
            },
            Scheme::IP(addr) => {
                write_string(IP, b);
                write_string(addr.as_str(), b);
            },
            Scheme::Digest(digest_info) => {
                write_string(DIGEST, b);
                write_string(digest_info.as_str(), b);
            },
        }
        assert(buf_bytes(*b) =~= start + self.wire());
    }

    /// The list that opens a node to everyone: one entry with every
    /// permission under the `World` scheme.
    pub fn world_acl() -> (r: Vec<ACL>)
        ensures
            r@.len() == 1,
            r@[0].perms == PERM_ALL,
            r@[0].scheme is World,
            r@[0].id@ == ANYONE@,
    {
        let mut r: Vec<ACL> = Vec::new();
        r.push(ACL::default());
        r
    }
}

impl Default for ACL {
    fn default() -> (r: ACL)
        ensures
            r.perms == PERM_ALL,
            r.scheme is World,
            r.id@ == ANYONE@,
    {
        ACL { perms: PERM_ALL, scheme: Scheme::World, id: ANYONE.to_string() }
    }
}

/// The UTF-8 forms of the scheme tokens, and that they fit a length field.
pub proof fn lemma_token_bytes()
    ensures
        encode_utf8(WORLD@) == seq![119u8, 111u8, 114u8, 108u8, 100u8],
        encode_utf8(ANYONE@) == seq![97u8, 110u8, 121u8, 111u8, 110u8, 101u8],
        encode_utf8(IP@) == seq![105u8, 112u8],
        encode_utf8(DIGEST@) == seq![100u8, 105u8, 103u8, 101u8, 115u8, 116u8],
        str_fits(WORLD@),
        str_fits(ANYONE@),
        str_fits(IP@),
        str_fits(DIGEST@),
        WORLD@ != IP@,
        WORLD@ != DIGEST@,
        IP@ != DIGEST@,
{
    reveal_strlit("world");
    reveal_strlit("anyone");
    reveal_strlit("ip");
    reveal_strlit("digest");
    is_ascii_chars_encode_utf8(WORLD@);
    is_ascii_chars_encode_utf8(ANYONE@);
    is_ascii_chars_encode_utf8(IP@);
    is_ascii_chars_encode_utf8(DIGEST@);
    assert(encode_utf8(WORLD@) =~= seq![119u8, 111u8, 114u8, 108u8, 100u8]);
    assert(encode_utf8(ANYONE@) =~= seq![97u8, 110u8, 121u8, 111u8, 110u8, 101u8]);
    assert(encode_utf8(IP@) =~= seq![105u8, 112u8]);
    assert(encode_utf8(DIGEST@) =~= seq![100u8, 105u8, 103u8, 101u8, 115u8, 116u8]);
}

/// The entries' wire forms one after another, in order.
pub open spec fn acls_concat(s: Seq<ACL>) -> Seq<u8>
    decreases s.len(),
{
    if s.len() == 0 {
        Seq::empty()
    } else {
        s[0].wire() + acls_concat(s.skip(1))
    }
}

/// A list of entries: its count, then each entry's wire form in order.
pub open spec fn acls_wire(s: Seq<ACL>) -> Seq<u8> {
    i32_wire(s.len() as i32) + acls_concat(s)
}

/// The count fits the length field and every entry is well formed.
pub open spec fn acls_fit(s: Seq<ACL>) -> bool {
    &&& fits_i32(s.len())
    &&& forall|i: int| 0 <= i < s.len() ==> #[trigger] s[i].wf()
}

/// What a reader of the wire recovers of each entry.
pub open spec fn acls_view(s: Seq<ACL>) -> Seq<Option<(u32, SchemeView)>> {
    s.map_values(|a: ACL| Some(a.wire_view()))
}

/// Reads one entry from the front of `s`: `None` for an unknown scheme token.
pub open spec fn read_acl(s: Seq<u8>) -> (Option<(u32, SchemeView)>, Seq<u8>) {
    let perms = read_u32(s);
    let (name, r1) = read_str(s.skip(4));
    let (identity, r2) = read_str(r1);
    match scheme_from_wire(name, identity) {
        Some(sv) => (Some((perms, sv)), r2),
        None => (None, r2),
    }
}

/// Reads `n` entries from the front of `s`.
pub open spec fn read_acl_items(n: nat, s: Seq<u8>) -> (Seq<Option<(u32, SchemeView)>>, Seq<u8>)
    decreases n,
{
    if n == 0 {
        (Seq::empty(), s)
    } else {
        let (a, r1) = read_acl(s);
        let (more, r2) = read_acl_items((n - 1) as nat, r1);
        (seq![a] + more, r2)
    }
}

/// Reads a counted list of entries from the front of `s`.
pub open spec fn read_acls(s: Seq<u8>) -> (Seq<Option<(u32, SchemeView)>>, Seq<u8>) {
    let n = crate::wire::read_i32(s);
    read_acl_items(n as nat, s.skip(4))
}

pub proof fn lemma_acls_concat_append(a: Seq<ACL>, b: Seq<ACL>)
    ensures
        acls_concat(a + b) == acls_concat(a) + acls_concat(b),
    decreases a.len(),
{
    if a.len() == 0 {
        assert(a + b =~= b);
        assert(acls_concat(a) + acls_concat(b) =~= acls_concat(b));
    } else {
        assert((a + b).skip(1) =~= a.skip(1) + b);
        lemma_acls_concat_append(a.skip(1), b);
        assert((a + b)[0] == a[0]);
        assert(acls_concat(a + b) =~= acls_concat(a) + acls_concat(b));
    }
}

proof fn lemma_acls_concat_take(s: Seq<ACL>, i: int)
    requires
        0 <= i < s.len(),
    ensures
        acls_concat(s.take(i + 1)) == acls_concat(s.take(i)) + s[i].wire(),
        acls_concat(s.take(i + 1)).len() <= acls_concat(s).len(),
{
    assert(s.take(i + 1) =~= s.take(i) + seq![s[i]]);
    lemma_acls_concat_append(s.take(i), seq![s[i]]);
    assert(seq![s[i]].skip(1) =~= Seq::<ACL>::empty());
    assert(acls_concat(Seq::<ACL>::empty()) =~= Seq::<u8>::empty());
    assert(acls_concat(seq![s[i]]) =~= s[i].wire());
    assert(s =~= s.take(i + 1) + s.skip(i + 1));
    lemma_acls_concat_append(s.take(i + 1), s.skip(i + 1));
}

proof fn lemma_acls_concat_split(s: Seq<ACL>, i: int)
    requires
        0 <= i < s.len(),
    ensures
        acls_concat(s) == acls_concat(s.take(i)) + s[i].wire() + acls_concat(s.skip(i + 1)),
{
    lemma_acls_concat_take(s, i);
    assert(s =~= s.take(i + 1) + s.skip(i + 1));
    lemma_acls_concat_append(s.take(i + 1), s.skip(i + 1));
}

/// Appends a counted list of entries.
pub fn write_acls(acls: &Vec<ACL>, b: &mut bytes::BytesMut)
    requires
        acls_fit(acls@),
        fits_buffer(buf_bytes(*old(b)).len() + acls_wire(acls@).len()),
    ensures
        buf_bytes(*final(b)) == buf_bytes(*old(b)) + acls_wire(acls@),
        acls@.len() == 0 ==> buf_bytes(*final(b)) == buf_bytes(*old(b)) + seq![0u8, 0u8, 0u8, 0u8],
{
    proof {
        lemma_empty_acls_wire();
        if acls@.len() == 0 {
            assert(acls@ =~= Seq::<ACL>::empty());
        }
    }
    let ghost start = buf_bytes(*b);
    write_i32(acls.len() as i32, b);
    assert(acls@.take(0) =~= Seq::<ACL>::empty());
    let mut i: usize = 0;
    while i < acls.len()
        invariant
            0 <= i <= acls@.len(),
            acls_fit(acls@),
            fits_buffer(start.len() + acls_wire(acls@).len()),
            buf_bytes(*b) == start + i32_wire(acls@.len() as i32) + acls_concat(acls@.take(i as int)),
        decreases acls@.len() - i,
    {
        proof {
            lemma_acls_concat_take(acls@, i as int);
        }
        acls[i].write(b);
        assert(buf_bytes(*b) =~= start + i32_wire(acls@.len() as i32) + acls_concat(acls@.take(i + 1)));
        i = i + 1;
    }
    assert(acls@.take(i as int) =~= acls@);
    assert(buf_bytes(*b) =~= start + acls_wire(acls@));
}

/// Under the `World` scheme an entry is written as its permission mask, then
/// the token "world" and the identity "anyone", each with its length, whatever
/// the entry's `id` holds.
pub proof fn lemma_world_acl_wire(a: ACL)
    requires
        a.scheme is World,
    ensures
        a.wire() == u32_wire(a.perms)
            + seq![0u8, 0u8, 0u8, 5u8, 119u8, 111u8, 114u8, 108u8, 100u8]
            + seq![0u8, 0u8, 0u8, 6u8, 97u8, 110u8, 121u8, 111u8, 110u8, 101u8],
{
    lemma_token_bytes();
    let five: i32 = 5;
    let six: i32 = 6;
    assert(i32_wire(five) =~= seq![0u8, 0u8, 0u8, 5u8]) by {
        assert(((five as u32) >> 24u32) as u8 == 0u8 && ((five as u32) >> 16u32) as u8 == 0u8
            && ((five as u32) >> 8u32) as u8 == 0u8 && (five as u32) as u8 == 5u8) by (bit_vector)
            requires five == 5i32;
    }
    assert(i32_wire(six) =~= seq![0u8, 0u8, 0u8, 6u8]) by {
        assert(((six as u32) >> 24u32) as u8 == 0u8 && ((six as u32) >> 16u32) as u8 == 0u8
            && ((six as u32) >> 8u32) as u8 == 0u8 && (six as u32) as u8 == 6u8) by (bit_vector)
            requires six == 6i32;
    }
    assert(a.wire() =~= u32_wire(a.perms)
        + seq![0u8, 0u8, 0u8, 5u8, 119u8, 111u8, 114u8, 108u8, 100u8]
        + seq![0u8, 0u8, 0u8, 6u8, 97u8, 110u8, 121u8, 111u8, 110u8, 101u8]);
}

/// A list of `n` entries is written as `n` in four bytes followed by the
/// entries' own wire forms, in order; the empty list is four zero bytes.
pub proof fn lemma_acls_wire_layout(s: Seq<ACL>)
    requires
        fits_i32(s.len()),
    ensures
        acls_wire(s).take(4) == i32_wire(s.len() as i32),
        acls_wire(s).skip(4) == acls_concat(s),
        forall|i: int| 0 <= i < s.len() ==> acls_concat(s) == acls_concat(s.take(i)) + #[trigger] s[i].wire()
            + acls_concat(s.skip(i + 1)),
        acls_wire(Seq::<ACL>::empty()) == seq![0u8, 0u8, 0u8, 0u8],
{
    lemma_acls_wire_split(s);
    lemma_acls_concat_split_all(s);
    lemma_empty_acls_wire();
}

proof fn lemma_acls_concat_split_all(s: Seq<ACL>)
    ensures
        forall|i: int| 0 <= i < s.len() ==> acls_concat(s) == acls_concat(s.take(i)) + #[trigger] s[i].wire()
            + acls_concat(s.skip(i + 1)),
{
    assert forall|i: int| 0 <= i < s.len() implies acls_concat(s) == acls_concat(s.take(i))
        + #[trigger] s[i].wire() + acls_concat(s.skip(i + 1)) by {
        lemma_acls_concat_split(s, i);
    }
}

proof fn lemma_acls_wire_split(s: Seq<ACL>)
    ensures
        acls_wire(s).take(4) == i32_wire(s.len() as i32),
        acls_wire(s).skip(4) == acls_concat(s),
{
    let n = i32_wire(s.len() as i32);
    let c = acls_concat(s);
    assert((n + c).take(4) =~= n);
    assert((n + c).skip(4) =~= c);
}

proof fn lemma_empty_acls_wire()
    ensures
        acls_wire(Seq::<ACL>::empty()) == seq![0u8, 0u8, 0u8, 0u8],
{
    let z: i32 = 0;
    assert(((z as u32) >> 24u32) as u8 == 0u8 && ((z as u32) >> 16u32) as u8 == 0u8
        && ((z as u32) >> 8u32) as u8 == 0u8 && (z as u32) as u8 == 0u8) by (bit_vector)
        requires z == 0i32;
    let e = Seq::<ACL>::empty();
    assert(acls_concat(e) =~= Seq::<u8>::empty());
    assert(i32_wire(z) =~= seq![0u8, 0u8, 0u8, 0u8]);
    assert(acls_wire(e) =~= seq![0u8, 0u8, 0u8, 0u8]);
}

/// A reader of the wire recovers each entry's permission mask and scheme.
pub proof fn lemma_read_acl(a: ACL, rest: Seq<u8>)
    requires
        a.wf(),
    ensures
        read_acl(a.wire() + rest) == (Some(a.wire_view()), rest),
{
    lemma_token_bytes();
    let s = a.wire() + rest;
    let r1 = str_wire(a.scheme.identity()) + rest;
    assert(s =~= u32_wire(a.perms) + (str_wire(a.scheme.name()) + r1));
    lemma_read_u32(a.perms, str_wire(a.scheme.name()) + r1);
    assert(s.skip(4) =~= str_wire(a.scheme.name()) + r1);
    lemma_read_str(a.scheme.name(), r1);
    lemma_read_str(a.scheme.identity(), rest);
}

pub proof fn lemma_read_acl_items(s: Seq<ACL>, rest: Seq<u8>)
    requires
        forall|i: int| 0 <= i < s.len() ==> #[trigger] s[i].wf(),
    ensures
        read_acl_items(s.len(), acls_concat(s) + rest) == (acls_view(s), rest),
    decreases s.len(),
{
    if s.len() == 0 {
        assert(acls_concat(s) + rest =~= rest);
        assert(acls_view(s) =~= Seq::<Option<(u32, SchemeView)>>::empty());
    } else {
        assert(s[0].wf());
        let tail = s.skip(1);
        assert forall|i: int| 0 <= i < tail.len() implies #[trigger] tail[i].wf() by {
            assert(tail[i] == s[i + 1]);
        }
        assert(acls_concat(s) + rest =~= s[0].wire() + (acls_concat(tail) + rest));
        lemma_read_acl(s[0], acls_concat(tail) + rest);
        lemma_read_acl_items(tail, rest);
        assert(acls_view(s) =~= seq![Some(s[0].wire_view())] + acls_view(tail));
    }
}

/// A reader of the wire recovers every entry of a counted list, in order.
pub proof fn lemma_read_acls(s: Seq<ACL>, rest: Seq<u8>)
    requires
        acls_fit(s),
    ensures
        read_acls(acls_wire(s) + rest) == (acls_view(s), rest),
{
    let w = acls_wire(s) + rest;
    assert(w =~= i32_wire(s.len() as i32) + (acls_concat(s) + rest));
    crate::wire::lemma_read_i32(s.len() as i32, acls_concat(s) + rest);
    assert(w.skip(4) =~= acls_concat(s) + rest);
    lemma_read_acl_items(s, rest);
}

} // verus!
