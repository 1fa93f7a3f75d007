use vstd::prelude::*;
use vstd::slice::{slice_subrange, slice_to_vec};

verus! {

/// How a remote authority is numbered: by IP address or by an opaque id.
#[derive(Debug, PartialEq, Eq)]
pub enum AuthorityNumber {
    Ip(Vec<u8>),
    Id(Vec<u8>),
}

/// The remote node that hosts an entity.
#[derive(Debug, Default, PartialEq, Eq)]
pub struct UAuthority {
    pub name: Option<String>,
    pub number: Option<AuthorityNumber>,
}

/// A service.
#[derive(Debug, Default, PartialEq, Eq)]
pub struct UEntity {
    pub name: String,
    pub id: Option<u32>,
    pub version_major: Option<u32>,
    pub version_minor: Option<u32>,
}

/// A method or topic of a service.
#[derive(Debug, Default, PartialEq, Eq)]
pub struct UResource {
    pub name: String,
    pub instance: Option<String>,
    pub message: Option<String>,
    pub id: Option<u32>,
}

/// A structured identifier: authority, entity and resource, each optional.
#[derive(Debug, Default, PartialEq, Eq)]
pub struct UUri {
    pub authority: Option<UAuthority>,
    pub entity: Option<UEntity>,
    pub resource: Option<UResource>,
}

/// The version byte that opens every micro form.
pub const MICRO_VERSION: u8 = 1;

/// Length of the local part of a micro form.
pub const MICRO_LOCAL_LEN: usize = 8;

/// The byte form of an optional byte vector.
pub open spec fn opt_bytes(r: Option<Vec<u8>>) -> Option<Seq<u8>> {
    match r {
        Some(v) => Some(v@),
        None => None,
    }
}

/// Whether the identifier names an authority and nothing under it.
pub open spec fn is_authority_only(u: UUri) -> bool {
    u.authority is Some && u.entity is None && u.resource is None
}

/// Micro form of an authority: an id as its length byte followed by the id,
/// an IPv4 or IPv6 address as its raw bytes.
pub open spec fn authority_micro(a: UAuthority) -> Option<Seq<u8>> {
    match a.number {
        Some(AuthorityNumber::Id(id)) => if id@.len() <= 255 {
            Some(seq![id@.len() as u8] + id@)
        } else {
            None
        },
        Some(AuthorityNumber::Ip(ip)) => if ip@.len() == 4 || ip@.len() == 16 {
            Some(ip@)
        } else {
            None
        },
        None => None,
    }
}

/// Address type byte: 0 local, 1 IPv4, 2 IPv6, 3 id.
pub open spec fn address_type(a: Option<UAuthority>) -> u8 {
    match a {
        Some(x) => match x.number {
            Some(AuthorityNumber::Ip(ip)) => if ip@.len() == 4 { 1 } else { 2 },
            Some(AuthorityNumber::Id(_)) => 3,
            None => 0,
        },
        None => 0,
    }
}

/// The eight bytes of the local part.
pub open spec fn micro_header(t: u8, rid: u32, eid: u32, ver: u32) -> Seq<u8> {
    seq![
        MICRO_VERSION,
        t,
        (rid / 256) as u8,
        (rid % 256) as u8,
        (eid / 256) as u8,
        (eid % 256) as u8,
        ver as u8,
        0u8,
    ]
}

/// The major version of an entity, 0 where it has none.
pub open spec fn version_of(e: UEntity) -> u32 {
    match e.version_major {
        Some(v) => v,
        None => 0,
    }
}

/// Whether entity and resource carry ids that fit the micro form.
pub open spec fn has_micro_ids(u: UUri) -> bool {
    &&& u.entity is Some
    &&& u.resource is Some
    &&& u.entity->0.id is Some
    &&& u.resource->0.id is Some
    &&& u.entity->0.id->0 <= 0xffff
    &&& u.resource->0.id->0 <= 0xffff
    &&& version_of(u.entity->0) <= 0xff
}

/// Micro form of an identifier: the eight-byte local part (version, address
/// type, resource id, entity id, major version, a zero byte), followed by the
/// authority's micro form when there is an authority.
pub open spec fn uri_micro(u: UUri) -> Option<Seq<u8>> {
    if has_micro_ids(u) {
        let header = micro_header(
            address_type(u.authority),
            u.resource->0.id->0,
            u.entity->0.id->0,
            version_of(u.entity->0),
        );
        match u.authority {
            None => Some(header),
            Some(a) => match authority_micro(a) {
                Some(ab) => Some(header + ab),
                None => None,
            },
        }
    } else {
        None
    }
}

fn push_all(v: &mut Vec<u8>, b: &Vec<u8>)
    ensures
        final(v)@ == old(v)@ + b@,
{
    let mut i: usize = 0;
    while i < b.len()
        invariant
            i <= b@.len(),
            v@ == old(v)@ + b@.subrange(0, i as int),
        decreases b@.len() - i,
    {
        v.push(b[i]);
        proof {
            assert(b@.subrange(0, i + 1) =~= b@.subrange(0, i as int).push(b@[i as int]));
        }
        i = i + 1;
    }
    assert(b@.subrange(0, b@.len() as int) =~= b@);
}

/// The micro form of an authority, if it has one.
pub fn authority_to_micro(a: &UAuthority) -> (r: Option<Vec<u8>>)
    ensures
        opt_bytes(r) == authority_micro(*a),
{
    match &a.number {
        Some(AuthorityNumber::Id(id)) => {
            if id.len() <= 255 {
                let mut v: Vec<u8> = Vec::new();
                v.push(id.len() as u8);
                push_all(&mut v, id);
                Some(v)
            } else {
                None
            }
        },
        Some(AuthorityNumber::Ip(ip)) => {
            if ip.len() == 4 || ip.len() == 16 {
                let mut v: Vec<u8> = Vec::new();
                push_all(&mut v, ip);
                assert(v@ =~= ip@);
                Some(v)
            } else {
                None
            }
        },
        None => None,
    }
}

fn address_type_of(a: &Option<UAuthority>) -> (t: u8)
    ensures
        t == address_type(*a),
{
    match a {
        Some(x) => match &x.number {
            Some(AuthorityNumber::Ip(ip)) => if ip.len() == 4 { 1 } else { 2 },
            Some(AuthorityNumber::Id(_)) => 3,
            None => 0,
        },
        None => 0,
    }
}

/// The micro form of an identifier, if it has one.
pub fn uri_to_micro(u: &UUri) -> (r: Option<Vec<u8>>)
    ensures
        opt_bytes(r) == uri_micro(*u),
        r matches Some(v) ==> v@.len() >= MICRO_LOCAL_LEN,
{
    let (e, res) = match (&u.entity, &u.resource) {
        (Some(e), Some(res)) => (e, res),
        _ => { return None; },
    };
    let (eid, rid) = match (e.id, res.id) {
        (Some(eid), Some(rid)) => (eid, rid),
        _ => { return None; },
    };
    let ver: u32 = match e.version_major {
        Some(v) => v,
        None => 0,
    };
    if eid > 0xffff || rid > 0xffff || ver > 0xff {
        return None;
    }
    let mut v: Vec<u8> = Vec::new();
    v.push(MICRO_VERSION);
    v.push(address_type_of(&u.authority));
    v.push((rid / 256) as u8);
    v.push((rid % 256) as u8);
    v.push((eid / 256) as u8);
    v.push((eid % 256) as u8);
    v.push(ver as u8);
    v.push(0u8);
    assert(v@ =~= micro_header(address_type(u.authority), rid, eid, ver));
    match &u.authority {
        None => Some(v),
        Some(a) => match authority_to_micro(a) {
            Some(ab) => {
                push_all(&mut v, &ab);
                Some(v)
            },
            None => None,
        },
    }
}

/// Whether bytes are a micro form that names an identifier: version byte 1,
/// a zero eighth byte, and an authority part that matches the address type.
pub open spec fn micro_well_formed(m: Seq<u8>) -> bool {
    &&& m.len() >= 8
    &&& m[0] == MICRO_VERSION
    &&& m[7] == 0
    &&& {
        ||| m[1] == 0 && m.len() == 8
        ||| m[1] == 1 && m.len() == 12
        ||| m[1] == 2 && m.len() == 24
        ||| m[1] == 3 && m.len() >= 9 && m[8] as int == m.len() - 9
    }
}

/// The big-endian 16-bit number at `m[i..i + 2]`.
pub open spec fn u16_at(m: Seq<u8>, i: int) -> u32 {
    (m[i] as int * 256 + m[i + 1] as int) as u32
}

/// The identifier read back from a micro form: ids and version from the local
/// part, the authority from the rest, every name empty.
pub open spec fn decoded_from_micro(v: UUri, m: Seq<u8>) -> bool {
    &&& v.entity is Some
    &&& v.entity->0.name@.len() == 0
    &&& v.entity->0.id == Some(u16_at(m, 4))
    &&& v.entity->0.version_major == Some(m[6] as u32)
    &&& v.entity->0.version_minor is None
    &&& v.resource is Some
    &&& v.resource->0.name@.len() == 0
    &&& v.resource->0.instance is None
    &&& v.resource->0.message is None
    &&& v.resource->0.id == Some(u16_at(m, 2))
    &&& if m[1] == 0 {
        v.authority is None
    } else {
        &&& v.authority is Some
        &&& v.authority->0.name is None
        &&& if m[1] == 3 {
            v.authority->0.number matches Some(AuthorityNumber::Id(id)) && id@ == m.subrange(
                9,
                m.len() as int,
            )
        } else {
            v.authority->0.number matches Some(AuthorityNumber::Ip(ip)) && ip@ == m.subrange(
                8,
                m.len() as int,
            )
        }
    }
}

/// How an authority is numbered: whether by IP, and the bytes.
pub open spec fn number_of(a: Option<UAuthority>) -> Option<(bool, Seq<u8>)> {
    match a {
        Some(x) => match x.number {
            Some(AuthorityNumber::Ip(ip)) => Some((true, ip@)),
            Some(AuthorityNumber::Id(id)) => Some((false, id@)),
            None => None,
        },
        None => None,
    }
}

/// Whether two identifiers address the same thing: the same authority
/// number, entity id, major version and resource id.
pub open spec fn same_address(v: UUri, u: UUri) -> bool {
    &&& (v.authority is Some <==> u.authority is Some)
    &&& number_of(v.authority) == number_of(u.authority)
    &&& v.entity is Some && u.entity is Some
    &&& v.entity->0.id == u.entity->0.id
    &&& version_of(v.entity->0) == version_of(u.entity->0)
    &&& v.resource is Some && u.resource is Some
    &&& v.resource->0.id == u.resource->0.id
}

/// The identifier that a micro form names, with empty names.
pub fn uri_from_micro(m: &[u8]) -> (r: Option<UUri>)
    ensures
        r is Some <==> micro_well_formed(m@),
        r matches Some(v) ==> decoded_from_micro(v, m@),
{
    if m.len() < MICRO_LOCAL_LEN || m[0] != MICRO_VERSION || m[7] != 0 {
        return None;
    }
    let t = m[1];
    let number = if t == 0 {
        if m.len() != 8 {
            return None;
        }
        None
    } else if t == 1 || t == 2 {
        if (t == 1 && m.len() != 12) || (t == 2 && m.len() != 24) {
            return None;
        }
        Some(AuthorityNumber::Ip(slice_to_vec(slice_subrange(m, 8, m.len()))))
    } else if t == 3 {
        if m.len() < 9 || m[8] as usize != m.len() - 9 {
            return None;
        }
        Some(AuthorityNumber::Id(slice_to_vec(slice_subrange(m, 9, m.len()))))
    } else {
        return None;
    };
    let authority = match number {
        Some(n) => Some(UAuthority { name: None, number: Some(n) }),
        None => None,
    };
    let entity = UEntity {
        name: String::new(),
        id: Some((m[4] as u32) * 256 + m[5] as u32),
        version_major: Some(m[6] as u32),
        version_minor: None,
    };
    let resource = UResource {
        name: String::new(),
        instance: None,
        message: None,
        id: Some((m[2] as u32) * 256 + m[3] as u32),
    };
    Some(UUri { authority, entity: Some(entity), resource: Some(resource) })
}

/// The micro form of an identifier is well formed, and reading it back gives
/// an identifier with the same address.
pub proof fn lemma_micro_round_trip(u: UUri)
    requires
        uri_micro(u) is Some,
    ensures
        micro_well_formed(uri_micro(u)->0),
        forall|v: UUri| #[trigger] decoded_from_micro(v, uri_micro(u)->0) ==> same_address(v, u),
{
    let m = uri_micro(u)->0;
    assert(m.subrange(0, 8) =~= micro_header(
        address_type(u.authority),
        u.resource->0.id->0,
        u.entity->0.id->0,
        version_of(u.entity->0),
    ));
    match u.authority {
        Some(a) => {
            let ab = authority_micro(a)->0;
            assert(m.subrange(8, m.len() as int) =~= ab);
            match a.number {
                Some(AuthorityNumber::Id(id)) => {
                    assert(m.subrange(9, m.len() as int) =~= id@);
                },
                _ => {},
            }
        },
        None => {},
    }
}

} // verus!
