//! The canonical-encoding codec, a thin layer over an existing CBOR
//! library.  Syscall arguments cross the sandbox boundary as CBOR lists of
//! plain values; this module encodes and decodes them and converts between
//! wire pairs and typed addresses and content identifiers.
//!
//! The codec is required to be deterministic: the same logical value always
//! encodes to the same bytes, and decoding the encoding of a value yields
//! the value back.

use vstd::prelude::*;

use crate::types::{Address, Cid, Protocol};

verus! {

/// The scheme byte that stands for each address scheme on the wire.
pub open spec fn spec_protocol_byte(p: Protocol) -> u8 {
    match p {
        Protocol::Id => 0,
        Protocol::Secp256k1 => 1,
        Protocol::Actor => 2,
        Protocol::Bls => 3,
    }
}

/// The address scheme a wire byte stands for, if any.
pub open spec fn spec_protocol_of_byte(b: u8) -> Option<Protocol> {
    if b == 0 {
        Some(Protocol::Id)
    } else if b == 1 {
        Some(Protocol::Secp256k1)
    } else if b == 2 {
        Some(Protocol::Actor)
    } else if b == 3 {
        Some(Protocol::Bls)
    } else {
        None
    }
}

/// An address as it crosses the codec: its scheme byte and its payload.
pub open spec fn addr_pair(a: Address) -> (u8, u64) {
    (spec_protocol_byte(a.protocol), a.payload)
}

/// A list of addresses as it crosses the codec.
pub open spec fn addr_pairs(s: Seq<Address>) -> Seq<(u8, u64)> {
    s.map_values(|a: Address| addr_pair(a))
}

/// A list of content identifiers as it crosses the codec.
pub open spec fn cid_values(s: Seq<Cid>) -> Seq<u64> {
    s.map_values(|c: Cid| c.value)
}

/// The canonical CBOR encoding of a list of unsigned integers.
pub uninterp spec fn cbor_of_u64s(s: Seq<u64>) -> Seq<u8>;

/// The canonical CBOR encoding of a list of scheme-byte/payload pairs.
pub uninterp spec fn cbor_of_addr_pairs(s: Seq<(u8, u64)>) -> Seq<u8>;

/// What CBOR decoding makes of a byte string read as a list of unsigned
/// integers, if anything: a function of the bytes alone.
pub uninterp spec fn cbor_u64s_of(bytes: Seq<u8>) -> Option<Seq<u64>>;

/// What CBOR decoding makes of a byte string read as a list of
/// scheme-byte/payload pairs, if anything: a function of the bytes alone.
pub uninterp spec fn cbor_pairs_of(bytes: Seq<u8>) -> Option<Seq<(u8, u64)>>;

/// Relies on ciborium::ser::into_writer: deterministic CBOR encoding of a
/// list of unsigned integers into an in-memory buffer; the bytes are a
/// function of the values alone.  Writing integers into an in-memory
/// buffer cannot fail, so the encoding always succeeds.
#[verifier::external_body]
fn cbor_encode_u64s(values: &Vec<u64>) -> (r: Option<Vec<u8>>)
    ensures
        r is Some,
        r matches Some(b) ==> b@ == cbor_of_u64s(values@),
{
    let mut out: Vec<u8> = Vec::new();
    match ciborium::ser::into_writer(values, &mut out) {
        Ok(()) => Some(out),
        Err(_) => None,
    }
}

/// Relies on ciborium::de::from_reader: deterministic CBOR decoding of a
/// list of unsigned integers; the result is a function of the bytes alone,
/// and decoding the encoding of any list yields that list back.
#[verifier::external_body]
fn cbor_decode_u64s(bytes: &[u8]) -> (r: Option<Vec<u64>>)
    ensures
        r matches Some(v) ==> cbor_u64s_of(bytes@) == Some(v@),
        r is None ==> cbor_u64s_of(bytes@) is None,
        r matches Some(v) ==> forall|s: Seq<u64>| bytes@ == #[trigger] cbor_of_u64s(s) ==> v@ == s,
        r is None ==> forall|s: Seq<u64>| bytes@ != #[trigger] cbor_of_u64s(s),
{
    ciborium::de::from_reader::<Vec<u64>, _>(bytes).ok()
}

/// Relies on ciborium::ser::into_writer: deterministic CBOR encoding of a
/// list of byte/integer pairs into an in-memory buffer; the bytes are a
/// function of the values alone.  Writing integer pairs into an in-memory
/// buffer cannot fail, so the encoding always succeeds.
#[verifier::external_body]
fn cbor_encode_pairs(values: &Vec<(u8, u64)>) -> (r: Option<Vec<u8>>)
    ensures
        r is Some,
        r matches Some(b) ==> b@ == cbor_of_addr_pairs(values@),
{
    let mut out: Vec<u8> = Vec::new();
    match ciborium::ser::into_writer(values, &mut out) {
        Ok(()) => Some(out),
        Err(_) => None,
    }
}

/// Relies on ciborium::de::from_reader: deterministic CBOR decoding of a
/// list of byte/integer pairs; the result is a function of the bytes
/// alone, and decoding the encoding of any list yields that list back.
#[verifier::external_body]
fn cbor_decode_pairs(bytes: &[u8]) -> (r: Option<Vec<(u8, u64)>>)
    ensures
        r matches Some(v) ==> cbor_pairs_of(bytes@) == Some(v@),
        r is None ==> cbor_pairs_of(bytes@) is None,
        r matches Some(v) ==> forall|s: Seq<(u8, u64)>| bytes@ == #[trigger] cbor_of_addr_pairs(s)
            ==> v@ == s,
        r is None ==> forall|s: Seq<(u8, u64)>| bytes@ != #[trigger] cbor_of_addr_pairs(s),
{
    ciborium::de::from_reader::<Vec<(u8, u64)>, _>(bytes).ok()
}

/// Addresses read back from wire pairs: a pair whose scheme byte no scheme
/// uses makes the whole list malformed.
pub open spec fn spec_addrs_of_pairs(pairs: Seq<(u8, u64)>) -> Option<Seq<Address>>
    decreases pairs.len(),
{
    if pairs.len() == 0 {
        Some(Seq::empty())
    } else {
        match (spec_addrs_of_pairs(pairs.drop_last()), spec_protocol_of_byte(pairs.last().0)) {
            (Some(rest), Some(protocol)) => Some(
                rest.push(Address { protocol, payload: pairs.last().1 }),
            ),
            _ => None,
        }
    }
}

/// The full decoding of syscall argument bytes as an address list.
pub open spec fn spec_decode_addresses(bytes: Seq<u8>) -> Option<Seq<Address>> {
    match cbor_pairs_of(bytes) {
        None => None,
        Some(pairs) => spec_addrs_of_pairs(pairs),
    }
}

/// Content identifiers read back from wire values.
pub open spec fn spec_cids_of_values(values: Seq<u64>) -> Seq<Cid>
    decreases values.len(),
{
    if values.len() == 0 {
        Seq::empty()
    } else {
        spec_cids_of_values(values.drop_last()).push(Cid { value: values.last() })
    }
}

/// The full decoding of syscall argument bytes as a list of content
/// identifiers.
pub open spec fn spec_decode_cids(bytes: Seq<u8>) -> Option<Seq<Cid>> {
    match cbor_u64s_of(bytes) {
        None => None,
        Some(values) => Some(spec_cids_of_values(values)),
    }
}

proof fn lemma_addrs_of_pairs_some(pairs: Seq<(u8, u64)>, v: Seq<Address>)
    requires
        v.len() == pairs.len(),
        forall|i: int| 0 <= i < pairs.len() ==> #[trigger] addr_pair(v[i]) == pairs[i],
    ensures
        spec_addrs_of_pairs(pairs) == Some(v),
    decreases pairs.len(),
{
    if pairs.len() == 0 {
        assert(v =~= Seq::<Address>::empty());
    } else {
        assert forall|i: int|
            0 <= i < pairs.drop_last().len() implies #[trigger] addr_pair(v.drop_last()[i])
            == pairs.drop_last()[i] by {
            assert(addr_pair(v[i]) == pairs[i]);
        }
        lemma_addrs_of_pairs_some(pairs.drop_last(), v.drop_last());
        assert(addr_pair(v.last()) == pairs.last());
        lemma_protocol_byte_inverse(v.last().protocol);
        assert(v.drop_last().push(
            Address { protocol: v.last().protocol, payload: v.last().payload },
        ) =~= v);
    }
}

proof fn lemma_addrs_of_pairs_none(pairs: Seq<(u8, u64)>, i: int)
    requires
        0 <= i < pairs.len(),
        spec_protocol_of_byte(pairs[i].0) is None,
    ensures
        spec_addrs_of_pairs(pairs) is None,
    decreases pairs.len(),
{
    if i < pairs.len() - 1 {
        lemma_addrs_of_pairs_none(pairs.drop_last(), i);
    }
}

proof fn lemma_cids_of_values(values: Seq<u64>, v: Seq<Cid>)
    requires
        v.len() == values.len(),
        forall|i: int| 0 <= i < values.len() ==> #[trigger] v[i] == (Cid { value: values[i] }),
    ensures
        spec_cids_of_values(values) == v,
    decreases values.len(),
{
    if values.len() == 0 {
        assert(v =~= Seq::<Cid>::empty());
    } else {
        assert forall|i: int|
            0 <= i < values.drop_last().len() implies #[trigger] v.drop_last()[i] == (Cid {
                value: values.drop_last()[i],
            }) by {
            assert(v[i] == (Cid { value: values[i] }));
        }
        lemma_cids_of_values(values.drop_last(), v.drop_last());
        assert(v.drop_last().push(Cid { value: values.last() }) =~= v);
    }
}

/// The scheme byte of an address scheme.
fn protocol_byte(p: Protocol) -> (r: u8)
    ensures
        r == spec_protocol_byte(p),
{
    match p {
        Protocol::Id => 0,
        Protocol::Secp256k1 => 1,
        Protocol::Actor => 2,
        Protocol::Bls => 3,
    }
}

/// The address scheme of a wire byte, or `None` for a byte no scheme uses.
fn protocol_of_byte(b: u8) -> (r: Option<Protocol>)
    ensures
        r == spec_protocol_of_byte(b),
{
    if b == 0 {
        Some(Protocol::Id)
    } else if b == 1 {
        Some(Protocol::Secp256k1)
    } else if b == 2 {
        Some(Protocol::Actor)
    } else if b == 3 {
        Some(Protocol::Bls)
    } else {
        None
    }
}

proof fn lemma_protocol_byte_inverse(p: Protocol)
    ensures
        spec_protocol_of_byte(spec_protocol_byte(p)) == Some(p),
{
}

proof fn lemma_addr_pair_injective(a: Address, b: Address)
    requires
        addr_pair(a) == addr_pair(b),
    ensures
        a == b,
{
    lemma_protocol_byte_inverse(a.protocol);
    lemma_protocol_byte_inverse(b.protocol);
}

/// Serialize a list of addresses to canonical CBOR.  Encoding into memory
/// always succeeds and is deterministic: the bytes are a function of the
/// addresses alone, so encoding a value twice yields identical bytes.
pub fn to_vec_addresses(addrs: &Vec<Address>) -> (r: Option<Vec<u8>>)
    ensures
        r is Some,
        r matches Some(b) ==> b@ == cbor_of_addr_pairs(addr_pairs(addrs@)),
{
    let mut pairs: Vec<(u8, u64)> = Vec::new();
    let mut i: usize = 0;
    while i < addrs.len()
        invariant
            i <= addrs@.len(),
            pairs@.len() == i,
            forall|j: int| 0 <= j < i ==> pairs@[j] == addr_pair(addrs@[j]),
        decreases addrs@.len() - i,
    {
        let a = addrs[i];
        pairs.push((protocol_byte(a.protocol), a.payload));
        i = i + 1;
    }
    proof {
        assert(pairs@ =~= addr_pairs(addrs@));
    }
    cbor_encode_pairs(&pairs)
}

/// Decode a list of addresses from CBOR.  The result is exactly what the
/// decoding of the bytes says: round trip, for any address list, decoding
/// its encoding yields the list back, and undecodable bytes yield `None`.
pub fn from_slice_addresses(bytes: &[u8]) -> (r: Option<Vec<Address>>)
    ensures
        r matches Some(v) ==> spec_decode_addresses(bytes@) == Some(v@),
        r is None ==> spec_decode_addresses(bytes@) is None,
        forall|s: Seq<Address>| bytes@ == #[trigger] cbor_of_addr_pairs(addr_pairs(s)) ==> (
        r matches Some(v) && v@ == s),
{
    let decoded = cbor_decode_pairs(bytes);
    match decoded {
        None => {
            proof {
                assert forall|s: Seq<Address>| bytes@ == #[trigger] cbor_of_addr_pairs(
                    addr_pairs(s),
                ) implies false by {}
            }
            None
        },
        Some(pairs) => {
            match addrs_from_pairs(&pairs) {
                None => {
                    proof {
                        let i = choose|i: int|
                            0 <= i < pairs@.len() && #[trigger] spec_protocol_of_byte(
                                pairs@[i].0,
                            ) is None;
                        lemma_addrs_of_pairs_none(pairs@, i);
                        assert forall|s: Seq<Address>| bytes@ == #[trigger] cbor_of_addr_pairs(
                            addr_pairs(s),
                        ) implies false by {
                            assert(pairs@[i] == addr_pair(s[i]));
                            lemma_protocol_byte_inverse(s[i].protocol);
                        }
                    }
                    None
                },
                Some(v) => {
                    proof {
                        lemma_addrs_of_pairs_some(pairs@, v@);
                        assert forall|s: Seq<Address>| bytes@ == #[trigger] cbor_of_addr_pairs(
                            addr_pairs(s),
                        ) implies v@ == s by {
                            assert(pairs@ == addr_pairs(s));
                            assert forall|i: int| 0 <= i < v@.len() implies v@[i] == s[i] by {
                                assert(addr_pair(v@[i]) == pairs@[i]);
                                assert(pairs@[i] == addr_pair(s[i]));
                                lemma_addr_pair_injective(v@[i], s[i]);
                            }
                            assert(v@ =~= s);
                        }
                    }
                    Some(v)
                },
            }
        },
    }
}

/// Convert wire pairs back to addresses; a pair whose scheme byte no scheme
/// uses makes the whole list malformed.
fn addrs_from_pairs(pairs: &Vec<(u8, u64)>) -> (r: Option<Vec<Address>>)
    ensures
        r matches Some(v) ==> v@.len() == pairs@.len() && forall|i: int|
            0 <= i < pairs@.len() ==> #[trigger] addr_pair(v@[i]) == pairs@[i],
        r is None ==> exists|i: int|
            0 <= i < pairs@.len() && #[trigger] spec_protocol_of_byte(pairs@[i].0) is None,
{
    let mut out: Vec<Address> = Vec::new();
    let mut i: usize = 0;
    while i < pairs.len()
        invariant
            i <= pairs@.len(),
            out@.len() == i,
            forall|j: int| 0 <= j < i ==> #[trigger] addr_pair(out@[j]) == pairs@[j],
        decreases pairs@.len() - i,
    {
        let (b, payload) = pairs[i];
        match protocol_of_byte(b) {
            None => {
                proof {
                    assert(spec_protocol_of_byte(pairs@[i as int].0) is None);
                }
                return None;
            },
            Some(protocol) => {
                proof {
                    lemma_protocol_byte_inverse(protocol);
                }
                out.push(Address { protocol, payload });
            },
        }
        i = i + 1;
    }
    Some(out)
}

/// Serialize a list of content identifiers to canonical CBOR.  Encoding
/// into memory always succeeds and is deterministic: the bytes are a
/// function of the identifiers alone.
pub fn to_vec_cids(cids: &Vec<Cid>) -> (r: Option<Vec<u8>>)
    ensures
        r is Some,
        r matches Some(b) ==> b@ == cbor_of_u64s(cid_values(cids@)),
{
    let mut values: Vec<u64> = Vec::new();
    let mut i: usize = 0;
    while i < cids.len()
        invariant
            i <= cids@.len(),
            values@.len() == i,
            forall|j: int| 0 <= j < i ==> values@[j] == cids@[j].value,
        decreases cids@.len() - i,
    {
        values.push(cids[i].value);
        i = i + 1;
    }
    proof {
        assert(values@ =~= cid_values(cids@));
    }
    cbor_encode_u64s(&values)
}

/// Decode a list of content identifiers from CBOR.  The result is exactly
/// what the decoding of the bytes says: round trip, for any list, decoding
/// its encoding yields the list back, and undecodable bytes yield `None`.
pub fn from_slice_cids(bytes: &[u8]) -> (r: Option<Vec<Cid>>)
    ensures
        r matches Some(v) ==> spec_decode_cids(bytes@) == Some(v@),
        r is None ==> spec_decode_cids(bytes@) is None,
        forall|s: Seq<Cid>| bytes@ == #[trigger] cbor_of_u64s(cid_values(s)) ==> (r matches Some(v)
            && v@ == s),
{
    match cbor_decode_u64s(bytes) {
        None => None,
        Some(values) => {
            let mut out: Vec<Cid> = Vec::new();
            let mut i: usize = 0;
            while i < values.len()
                invariant
                    i <= values@.len(),
                    out@.len() == i,
                    forall|j: int| 0 <= j < i ==> out@[j] == (Cid { value: values@[j] }),
                decreases values@.len() - i,
            {
                out.push(Cid { value: values[i] });
                i = i + 1;
            }
            proof {
                lemma_cids_of_values(values@, out@);
                assert forall|s: Seq<Cid>| bytes@ == #[trigger] cbor_of_u64s(
                    cid_values(s),
                ) implies out@ == s by {
                    assert(values@ == cid_values(s));
                    assert forall|j: int| 0 <= j < out@.len() implies out@[j] == s[j] by {
                        assert(values@[j] == cid_values(s)[j]);
                    }
                    assert(out@ =~= s);
                }
            }
            Some(out)
        },
    }
}

} // verus!
