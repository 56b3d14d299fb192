use vstd::prelude::*;

verus! {

/// The number of items of the list that `data` encodes; `None` where it encodes no list.
pub uninterp spec fn rlp_count_of(data: Seq<u8>) -> Option<nat>;

/// The whole encoding (header and payload) of item `i` of the list that `data` encodes.
pub uninterp spec fn rlp_raw_at_of(data: Seq<u8>, i: int) -> Option<Seq<u8>>;

/// The payload of the item that `data` encodes (a byte string's bytes, or a list's items).
pub uninterp spec fn rlp_data_of(data: Seq<u8>) -> Option<Seq<u8>>;

/// Item `i` of the list that `data` encodes, read as a `u8`.
pub uninterp spec fn rlp_u8_at_of(data: Seq<u8>, i: int) -> Option<u8>;

/// Item `i` of the list that `data` encodes, read as a `u16`.
pub uninterp spec fn rlp_u16_at_of(data: Seq<u8>, i: int) -> Option<u16>;

/// Item `i` of the list that `data` encodes, read as a `u32`.
pub uninterp spec fn rlp_u32_at_of(data: Seq<u8>, i: int) -> Option<u32>;

/// Relies on rlp's `Rlp::item_count`: how many items the encoded list holds.
#[verifier::external_body]
pub(crate) fn rlp_item_count(data: &[u8]) -> (r: Option<usize>)
    ensures
        rlp_count_of(data@) == match r {
            Some(n) => Some(n as nat),
            None => None,
        },
{
    rlp::Rlp::new(data).item_count().ok()
}

/// Relies on rlp's `Rlp::at`: the encoding of one item of a list, as `as_raw` gives it.
#[verifier::external_body]
pub(crate) fn rlp_item_raw(data: &[u8], i: usize) -> (r: Option<Vec<u8>>)
    ensures
        opt_bytes(r) == rlp_raw_at_of(data@, i as int),
{
    match rlp::Rlp::new(data).at(i) {
        Ok(item) => Some(item.as_raw().to_vec()),
        Err(_) => None,
    }
}

/// Relies on rlp's `Rlp::data`: the payload of an encoded item, after its header.
#[verifier::external_body]
pub(crate) fn rlp_payload(data: &[u8]) -> (r: Option<Vec<u8>>)
    ensures
        opt_bytes(r) == rlp_data_of(data@),
{
    match rlp::Rlp::new(data).data() {
        Ok(d) => Some(d.to_vec()),
        Err(_) => None,
    }
}

/// Relies on rlp's `Rlp::val_at::<u8>`: one list item decoded as a byte-sized integer.
#[verifier::external_body]
pub(crate) fn rlp_u8_at(data: &[u8], i: usize) -> (r: Option<u8>)
    ensures
        r == rlp_u8_at_of(data@, i as int),
{
    rlp::Rlp::new(data).val_at::<u8>(i).ok()
}

/// Relies on rlp's `Rlp::val_at::<u16>`: one list item decoded as a 16-bit integer.
#[verifier::external_body]
pub(crate) fn rlp_u16_at(data: &[u8], i: usize) -> (r: Option<u16>)
    ensures
        r == rlp_u16_at_of(data@, i as int),
{
    rlp::Rlp::new(data).val_at::<u16>(i).ok()
}

/// Relies on rlp's `Rlp::val_at::<u32>`: one list item decoded as a 32-bit integer.
#[verifier::external_body]
pub(crate) fn rlp_u32_at(data: &[u8], i: usize) -> (r: Option<u32>)
    ensures
        r == rlp_u32_at_of(data@, i as int),
{
    rlp::Rlp::new(data).val_at::<u32>(i).ok()
}

/// The bytes held by an optional buffer.
pub open spec fn opt_bytes(o: Option<Vec<u8>>) -> Option<Seq<u8>> {
    match o {
        Some(v) => Some(v@),
        None => None,
    }
}

/// The payload of the byte string at item `i` of the list that `data` encodes.
pub open spec fn item_data_of(data: Seq<u8>, i: int) -> Option<Seq<u8>> {
    match rlp_raw_at_of(data, i) {
        Some(raw) => rlp_data_of(raw),
        None => None,
    }
}

/// Payload of the byte string at item `i` of an encoded list.
pub fn item_data(data: &[u8], i: usize) -> (r: Option<Vec<u8>>)
    ensures
        opt_bytes(r) == item_data_of(data@, i as int),
{
    match rlp_item_raw(data, i) {
        Some(raw) => rlp_payload(raw.as_slice()),
        None => None,
    }
}

} // verus!
