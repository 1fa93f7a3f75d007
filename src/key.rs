use vstd::prelude::*;
use crate::error::{ErrorCode, TransportError};
use crate::hex::{
    append_hex, ascii_bytes, decode_hex, hex_of, lemma_hex_of_ascii, lemma_unhex_hex_of, to_hex,
    unhex,
};
use crate::uri::{
    authority_micro, authority_to_micro, decoded_from_micro, is_authority_only,
    lemma_micro_round_trip, micro_well_formed, same_address, uri_from_micro, uri_micro,
    uri_to_micro, UUri, MICRO_LOCAL_LEN,
};
use vstd::string::is_ascii_spec_bytes;
use vstd::utf8::is_ascii_chars;

verus! {

/// `upr/`: the prefix of keys of remote identifiers.
pub open spec fn remote_prefix() -> Seq<char> {
    seq!['u', 'p', 'r', '/']
}

/// `upl/`: the prefix of keys of local identifiers.
pub open spec fn local_prefix() -> Seq<char> {
    seq!['u', 'p', 'l', '/']
}

/// The key of a micro form: `upl/<local>` when it is just the local part,
/// else `upr/<authority part>/<local>`.
pub open spec fn key_of_micro(m: Seq<u8>) -> Seq<char> {
    if m.len() > 8 {
        remote_prefix() + hex_of(m.subrange(8, m.len() as int)) + seq!['/'] + hex_of(
            m.subrange(0, 8),
        )
    } else {
        local_prefix() + hex_of(m.subrange(0, 8))
    }
}

/// The key that covers everything under an authority: `upr/<authority>/**`.
pub open spec fn wildcard_key(ab: Seq<u8>) -> Seq<char> {
    remote_prefix() + hex_of(ab) + seq!['/', '*', '*']
}

/// The substrate key of an identifier, if it has one.
pub open spec fn zenoh_key(u: UUri) -> Option<Seq<char>> {
    if is_authority_only(u) {
        match authority_micro(u.authority->0) {
            Some(ab) => Some(wildcard_key(ab)),
            None => None,
        }
    } else {
        match uri_micro(u) {
            Some(m) => Some(key_of_micro(m)),
            None => None,
        }
    }
}

/// The hexadecimal micro form of the identifier's authority.
pub fn get_uauth_from_uuri(uri: &UUri) -> (r: Result<String, TransportError>)
    ensures
        match r {
            Ok(s) => uri.authority matches Some(a) && authority_micro(a) matches Some(ab) && s@
                == hex_of(ab),
            Err(e) => e.code == ErrorCode::InvalidArgument && (uri.authority matches Some(a)
                ==> authority_micro(a) is None),
        },
{
    match &uri.authority {
        Some(a) => match authority_to_micro(a) {
            Some(ab) => Ok(to_hex(ab.as_slice())),
            None => Err(
                TransportError::fail_with_code(
                    ErrorCode::InvalidArgument,
                    "Unable to transform UAuthority into micro form",
                ),
            ),
        },
        None => Err(TransportError::fail_with_code(ErrorCode::InvalidArgument, "Empty UAuthority")),
    }
}

/// The substrate key of an identifier: `upr/<authority>/**` for an authority
/// alone, else built from the identifier's micro form.
pub fn to_zenoh_key_string(uri: &UUri) -> (r: Result<String, TransportError>)
    ensures
        match r {
            Ok(s) => zenoh_key(*uri) == Some(s@),
            Err(e) => zenoh_key(*uri) is None && e.code == ErrorCode::InvalidArgument,
        },
{
    if uri.authority.is_some() && uri.entity.is_none() && uri.resource.is_none() {
        let auth = match get_uauth_from_uuri(uri) {
            Ok(auth) => auth,
            Err(e) => { return Err(e); },
        };
        proof {
            reveal_strlit("upr/");
            reveal_strlit("/**");
        }
        let mut s = "upr/".to_owned();
        s.append(auth.as_str());
        s.append("/**");
        Ok(s)
    } else {
        let m = match uri_to_micro(uri) {
            Some(m) => m,
            None => {
                return Err(
                    TransportError::fail_with_code(
                        ErrorCode::InvalidArgument,
                        "Unable to serialize into micro format",
                    ),
                );
            },
        };
        let mut s: String;
        if m.len() > MICRO_LOCAL_LEN {
            proof {
                reveal_strlit("upr/");
                reveal_strlit("/");
            }
            s = "upr/".to_owned();
            append_hex(&mut s, m.as_slice(), MICRO_LOCAL_LEN, m.len());
            s.append("/");
        } else {
            proof {
                reveal_strlit("upl/");
            }
            s = "upl/".to_owned();
        }
        append_hex(&mut s, m.as_slice(), 0, MICRO_LOCAL_LEN);
        Ok(s)
    }
}

/// The micro form that a key stands for: `upl/` and sixteen digits, or `upr/`,
/// the digits of a non-empty authority part, `/` and sixteen digits.
pub open spec fn micro_of_key_bytes(b: Seq<u8>) -> Option<Seq<u8>> {
    if b.len() == 20 && b.subrange(0, 4) == seq![117u8, 112u8, 108u8, 47u8] {
        unhex(b.subrange(4, 20))
    } else if b.len() >= 23 && b.subrange(0, 4) == seq![117u8, 112u8, 114u8, 47u8] && b[b.len()
        - 17] == 47 {
        match (unhex(b.subrange(4, b.len() - 17)), unhex(b.subrange(b.len() - 16, b.len() as int))) {
            (Some(remote), Some(local)) => Some(local + remote),
            _ => None,
        }
    } else {
        None
    }
}

/// The micro form that a key stands for, if it is an ASCII key of that shape.
pub open spec fn micro_of_key(s: Seq<char>) -> Option<Seq<u8>> {
    if is_ascii_chars(s) {
        micro_of_key_bytes(ascii_bytes(s))
    } else {
        None
    }
}

/// The micro form that a substrate key stands for.
pub fn micro_from_zenoh_key(key: &str) -> (r: Option<Vec<u8>>)
    ensures
        match r {
            Some(m) => micro_of_key(key@) == Some(m@) && m@.len() >= MICRO_LOCAL_LEN,
            None => micro_of_key(key@) is None,
        },
{
    broadcast use is_ascii_spec_bytes;

    if !key.is_ascii() {
        return None;
    }
    let b = key.as_bytes();
    assert(b@ =~= ascii_bytes(key@));
    let n = b.len();
    if n == 20 && b[0] == 117 && b[1] == 112 && b[2] == 108 && b[3] == 47 {
        assert(b@.subrange(0, 4) =~= seq![117u8, 112u8, 108u8, 47u8]);
        decode_hex(b, 4, 20)
    } else if n >= 23 && b[0] == 117 && b[1] == 112 && b[2] == 114 && b[3] == 47 && b[n - 17]
        == 47 {
        assert(b@.subrange(0, 4) =~= seq![117u8, 112u8, 114u8, 47u8]);
        let remote = decode_hex(b, 4, n - 17);
        let local = decode_hex(b, n - 16, n);
        match (remote, local) {
            (Some(remote), Some(mut local)) => {
                let mut i: usize = 0;
                let ghost local0 = local@;
                while i < remote.len()
                    invariant
                        i <= remote@.len(),
                        local@ == local0 + remote@.subrange(0, i as int),
                    decreases remote@.len() - i,
                {
                    local.push(remote[i]);
                    proof {
                        assert(remote@.subrange(0, i + 1) =~= remote@.subrange(0, i as int).push(
                            remote@[i as int],
                        ));
                    }
                    i = i + 1;
                }
                assert(remote@.subrange(0, remote@.len() as int) =~= remote@);
                Some(local)
            },
            _ => None,
        }
    } else {
        proof {
            if b@.subrange(0, 4) == seq![117u8, 112u8, 108u8, 47u8] {
                assert(b@.subrange(0, 4)[2] == 108u8);
            }
            if b@.subrange(0, 4) == seq![117u8, 112u8, 114u8, 47u8] {
                assert(b@.subrange(0, 4)[2] == 114u8);
            }
        }
        None
    }
}

/// The identifier that a substrate key names, with empty names; `None` for a
/// wildcard key or a key of another shape.
pub fn from_zenoh_key_string(key: &str) -> (r: Option<UUri>)
    ensures
        r is Some <==> (micro_of_key(key@) matches Some(m) && micro_well_formed(m)),
        r matches Some(v) ==> decoded_from_micro(v, micro_of_key(key@)->0),
{
    match micro_from_zenoh_key(key) {
        Some(m) => uri_from_micro(m.as_slice()),
        None => None,
    }
}

/// Reading a micro form back from its key gives the micro form.
pub proof fn lemma_micro_key_round_trip(m: Seq<u8>)
    requires
        m.len() >= 8,
    ensures
        micro_of_key(key_of_micro(m)) == Some(m),
{
    let local = m.subrange(0, 8);
    let hl = hex_of(local);
    lemma_unhex_hex_of(local);
    lemma_hex_of_ascii(local);
    crate::hex::lemma_hex_of_index(local);
    let k = key_of_micro(m);
    if m.len() > 8 {
        let remote = m.subrange(8, m.len() as int);
        let hr = hex_of(remote);
        lemma_unhex_hex_of(remote);
        lemma_hex_of_ascii(remote);
        crate::hex::lemma_hex_of_index(remote);
        let b = ascii_bytes(k);
        assert(k == remote_prefix() + hr + seq!['/'] + hl);
        assert(is_ascii_chars(k));
        assert(b.subrange(0, 4) =~= seq![117u8, 112u8, 114u8, 47u8]);
        assert(b.subrange(4, b.len() - 17) =~= ascii_bytes(hr));
        assert(b.subrange(b.len() - 16, b.len() as int) =~= ascii_bytes(hl));
        assert(local + remote =~= m);
    } else {
        assert(m =~= local);
        let b = ascii_bytes(k);
        assert(is_ascii_chars(k));
        assert(b.subrange(0, 4) =~= seq![117u8, 112u8, 108u8, 47u8]);
        assert(b.subrange(4, 20) =~= ascii_bytes(hl));
    }
}

/// Decoding the key of an identifier that is not an authority wildcard gives
/// back an identifier with the same address.
pub proof fn lemma_key_round_trip(u: UUri)
    requires
        !is_authority_only(u),
        zenoh_key(u) is Some,
    ensures
        micro_of_key(zenoh_key(u)->0) == uri_micro(u),
        micro_well_formed(uri_micro(u)->0),
        forall|v: UUri|
            #[trigger] decoded_from_micro(v, micro_of_key(zenoh_key(u)->0)->0) ==> same_address(
                v,
                u,
            ),
{
    lemma_micro_round_trip(u);
    lemma_micro_key_round_trip(uri_micro(u)->0);
}

/// An identifier with an authority and nothing under it gets `upr/<hex>/**`,
/// never a local key.
pub proof fn lemma_authority_only_key(u: UUri)
    requires
        is_authority_only(u),
        zenoh_key(u) is Some,
    ensures
        zenoh_key(u) == Some(
            remote_prefix() + hex_of(authority_micro(u.authority->0)->0) + seq!['/', '*', '*'],
        ),
        zenoh_key(u)->0.subrange(0, 4) == remote_prefix(),
        zenoh_key(u)->0.subrange(0, 4) != local_prefix(),
{
    let k = zenoh_key(u)->0;
    assert(k.subrange(0, 4) =~= remote_prefix());
    assert(k.subrange(0, 4)[2] != local_prefix()[2]);
}

/// An identifier whose micro form is the local part alone gets `upl/<hex>`.
pub proof fn lemma_local_key(u: UUri)
    requires
        !is_authority_only(u),
        uri_micro(u) is Some,
        uri_micro(u)->0.len() <= 8,
    ensures
        zenoh_key(u) == Some(local_prefix() + hex_of(uri_micro(u)->0)),
        zenoh_key(u)->0.subrange(0, 4) != remote_prefix(),
{
    let m = uri_micro(u)->0;
    assert(m.subrange(0, 8) =~= m);
    let k = zenoh_key(u)->0;
    assert(k.subrange(0, 4) =~= local_prefix());
    assert(k.subrange(0, 4)[2] != remote_prefix()[2]);
}

/// An identifier whose micro form is longer than the local part gets the
/// authority part first and the eight-byte local part last.
pub proof fn lemma_remote_key(u: UUri)
    requires
        !is_authority_only(u),
        uri_micro(u) is Some,
        uri_micro(u)->0.len() > 8,
    ensures
        zenoh_key(u) == Some(
            remote_prefix() + hex_of(uri_micro(u)->0.subrange(8, uri_micro(u)->0.len() as int))
                + seq!['/'] + hex_of(uri_micro(u)->0.subrange(0, 8)),
        ),
{
}

} // verus!
