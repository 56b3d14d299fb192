use byteorder::ByteOrder;
use vstd::prelude::*;

use crate::error::MessageError;

verus! {

/// The unsigned integer that `s` spells in big-endian order.
pub open spec fn be_value(s: Seq<u8>) -> nat
    decreases s.len(),
{
    if s.len() == 0 {
        0
    } else {
        be_value(s.drop_last()) * 256 + s.last() as nat
    }
}

/// The `len` bytes of `b` that start at `start`.
pub open spec fn field(b: Seq<u8>, start: int, len: int) -> Seq<u8> {
    b.subrange(start, start + len)
}

/// Relies on byteorder's `BigEndian::read_u32`: four bytes read as a big-endian integer.
#[verifier::external_body]
fn read_be_u32(b: &Vec<u8>) -> (r: u32)
    requires
        b@.len() == 4,
    ensures
        r as nat == be_value(b@),
{
    byteorder::BigEndian::read_u32(b)
}

/// Relies on byteorder's `BigEndian::read_u64`: eight bytes read as a big-endian integer.
#[verifier::external_body]
fn read_be_u64(b: &Vec<u8>) -> (r: u64)
    requires
        b@.len() == 8,
    ensures
        r as nat == be_value(b@),
{
    byteorder::BigEndian::read_u64(b)
}

/// A copy of `len` bytes of `b` from `start` on.
pub fn copy_range(b: &[u8], start: usize, len: usize) -> (r: Vec<u8>)
    requires
        start + len <= b@.len(),
    ensures
        r@ == field(b@, start as int, len as int),
{
    let mut r: Vec<u8> = Vec::new();
    let n: usize = b.len();
    let mut i: usize = 0;
    while i < len
        invariant
            n == b@.len(),
            i <= len,
            start + len <= b@.len(),
            r@ == field(b@, start as int, i as int),
        decreases len - i,
    {
        r.push(b[start + i]);
        i = i + 1;
        assert(r@ =~= field(b@, start as int, i as int));
    }
    r
}

fn be_u32_at(b: &[u8], start: usize) -> (r: u32)
    requires
        start + 4 <= b@.len(),
    ensures
        r as nat == be_value(field(b@, start as int, 4)),
{
    read_be_u32(&copy_range(b, start, 4))
}

fn be_u64_at(b: &[u8], start: usize) -> (r: u64)
    requires
        start + 8 <= b@.len(),
    ensures
        r as nat == be_value(field(b@, start as int, 8)),
{
    read_be_u64(&copy_range(b, start, 8))
}

/// Length of a key header record.
pub const KEY_HEADER_LEN: usize = 364;

/// What a key header holds, with integers as numbers and hashes as byte sequences.
pub struct KeyBlockModel {
    pub version: nat,
    pub key_unused: nat,
    pub height: nat,
    pub prev_hash: Seq<u8>,
    pub prev_key_hash: Seq<u8>,
    pub state_hash: Seq<u8>,
    pub miner: Seq<u8>,
    pub beneficiary: Seq<u8>,
    pub target: nat,
    pub pow: Seq<u8>,
    pub nonce: nat,
    pub time: nat,
}

/// The key header that `b` holds, or `None` when `b` is shorter than the record.
pub open spec fn key_block_of(b: Seq<u8>) -> Option<KeyBlockModel> {
    if b.len() < KEY_HEADER_LEN {
        None
    } else {
        Some(
            KeyBlockModel {
                version: be_value(field(b, 0, 4)),
                key_unused: be_value(field(b, 4, 4)),
                height: be_value(field(b, 8, 8)),
                prev_hash: field(b, 16, 32),
                prev_key_hash: field(b, 48, 32),
                state_hash: field(b, 80, 32),
                miner: field(b, 112, 32),
                beneficiary: field(b, 144, 32),
                target: be_value(field(b, 176, 4)),
                pow: field(b, 180, 168),
                nonce: be_value(field(b, 348, 8)),
                time: be_value(field(b, 356, 8)),
            },
        )
    }
}

/// A decoded key header.
pub struct KeyBlock {
    pub version: u32,
    pub key_unused: u32,
    pub height: u64,
    pub prev_hash: Vec<u8>,
    pub prev_key_hash: Vec<u8>,
    pub state_hash: Vec<u8>,
    pub miner: Vec<u8>,
    pub beneficiary: Vec<u8>,
    pub target: u32,
    pub pow: Vec<u8>,
    pub nonce: u64,
    pub time: u64,
}

impl View for KeyBlock {
    type V = KeyBlockModel;

    open spec fn view(&self) -> KeyBlockModel {
        KeyBlockModel {
            version: self.version as nat,
            key_unused: self.key_unused as nat,
            height: self.height as nat,
            prev_hash: self.prev_hash@,
            prev_key_hash: self.prev_key_hash@,
            state_hash: self.state_hash@,
            miner: self.miner@,
            beneficiary: self.beneficiary@,
            target: self.target as nat,
            pow: self.pow@,
            nonce: self.nonce as nat,
            time: self.time as nat,
        }
    }
}

impl KeyBlock {
    /// Decodes a key header; every field is read from its fixed place in `bytes`.
    pub fn new_from_byte_array(bytes: &[u8]) -> (r: Result<KeyBlock, MessageError>)
        ensures
            match r {
                Ok(kb) => key_block_of(bytes@) == Some(kb@),
                Err(e) => key_block_of(bytes@) is None && e == MessageError::TruncatedRecord,
            },
    {
        if bytes.len() < KEY_HEADER_LEN {
            return Err(MessageError::TruncatedRecord);
        }
        Ok(
            KeyBlock {
                version: be_u32_at(bytes, 0),
                key_unused: be_u32_at(bytes, 4),
                height: be_u64_at(bytes, 8),
                prev_hash: copy_range(bytes, 16, 32),
                prev_key_hash: copy_range(bytes, 48, 32),
                state_hash: copy_range(bytes, 80, 32),
                miner: copy_range(bytes, 112, 32),
                beneficiary: copy_range(bytes, 144, 32),
                target: be_u32_at(bytes, 176),
                pow: copy_range(bytes, 180, 168),
                nonce: be_u64_at(bytes, 348),
                time: be_u64_at(bytes, 356),
            },
        )
    }
}

/// The `len` bytes that spell `n` in big-endian order (its low `len` bytes).
pub open spec fn be_bytes(n: nat, len: nat) -> Seq<u8>
    decreases len,
{
    if len == 0 {
        Seq::empty()
    } else {
        be_bytes(n / 256, (len - 1) as nat).push((n % 256) as u8)
    }
}

/// Spelling out the number that some bytes spell gives those bytes back.
pub proof fn lemma_be_bytes_of_value(s: Seq<u8>)
    ensures
        be_bytes(be_value(s), s.len()) == s,
    decreases s.len(),
{
    if s.len() > 0 {
        let a = be_value(s.drop_last());
        let x = s.last() as nat;
        assert((a * 256 + x) / 256 == a && (a * 256 + x) % 256 == x) by (nonlinear_arith)
            requires
                x < 256,
        ;
        lemma_be_bytes_of_value(s.drop_last());
        assert(s =~= s.drop_last().push(s.last()));
    }
}

/// A key header written back out, field after field in its fixed layout.
pub open spec fn key_block_bytes(m: KeyBlockModel) -> Seq<u8> {
    be_bytes(m.version, 4) + be_bytes(m.key_unused, 4) + be_bytes(m.height, 8) + m.prev_hash
        + m.prev_key_hash + m.state_hash + m.miner + m.beneficiary + be_bytes(m.target, 4) + m.pow
        + be_bytes(m.nonce, 8) + be_bytes(m.time, 8)
}

/// Decoding a key header loses nothing: a record of the fixed length decodes,
/// and its fields written back out in their layout are the record's bytes.
pub proof fn lemma_key_header_round_trip(b: Seq<u8>)
    requires
        b.len() == KEY_HEADER_LEN,
    ensures
        key_block_of(b) is Some,
        key_block_bytes(key_block_of(b)->0) == b,
{
    lemma_be_bytes_of_value(field(b, 0, 4));
    lemma_be_bytes_of_value(field(b, 4, 4));
    lemma_be_bytes_of_value(field(b, 8, 8));
    lemma_be_bytes_of_value(field(b, 176, 4));
    lemma_be_bytes_of_value(field(b, 348, 8));
    lemma_be_bytes_of_value(field(b, 356, 8));
    let m = key_block_of(b)->0;
    let mut acc = be_bytes(m.version, 4);
    assert(acc =~= b.subrange(0, 4));
    acc = acc + be_bytes(m.key_unused, 4);
    assert(acc =~= b.subrange(0, 8));
    acc = acc + be_bytes(m.height, 8);
    assert(acc =~= b.subrange(0, 16));
    acc = acc + m.prev_hash;
    assert(acc =~= b.subrange(0, 48));
    acc = acc + m.prev_key_hash;
    assert(acc =~= b.subrange(0, 80));
    acc = acc + m.state_hash;
    assert(acc =~= b.subrange(0, 112));
    acc = acc + m.miner;
    assert(acc =~= b.subrange(0, 144));
    acc = acc + m.beneficiary;
    assert(acc =~= b.subrange(0, 176));
    acc = acc + be_bytes(m.target, 4);
    assert(acc =~= b.subrange(0, 180));
    acc = acc + m.pow;
    assert(acc =~= b.subrange(0, 348));
    acc = acc + be_bytes(m.nonce, 8);
    assert(acc =~= b.subrange(0, 356));
    acc = acc + be_bytes(m.time, 8);
    assert(acc =~= b);
}

/// Whether a micro header's flags byte marks a fraud proof (bit 6).
pub open spec fn fraud_flag_set(flags: u8) -> bool {
    flags & 0x40u8 != 0
}

/// Where a micro header's signature starts: after the fraud hash when there is one.
pub open spec fn signature_offset_of(has_fraud: bool) -> int {
    if has_fraud {
        184
    } else {
        152
    }
}

/// Length of a micro header record: the signature is its last 64 bytes.
pub open spec fn micro_header_len_of(has_fraud: bool) -> int {
    signature_offset_of(has_fraud) + 64
}

/// What a micro header holds.
pub struct MicroHeaderModel {
    pub version: nat,
    pub tags: Seq<u8>,
    pub height: nat,
    pub prev_hash: Seq<u8>,
    pub prev_key_hash: Seq<u8>,
    pub state_hash: Seq<u8>,
    pub txs_hash: Seq<u8>,
    pub time: nat,
    pub has_fraud: bool,
    pub fraud_hash: Option<Seq<u8>>,
    pub signature: Seq<u8>,
}

/// The micro header that `b` holds, or `None` when `b` is shorter than the
/// length that its own fraud flag calls for.
pub open spec fn micro_header_of(b: Seq<u8>) -> Option<MicroHeaderModel> {
    if b.len() < 5 {
        None
    } else {
        let has_fraud = fraud_flag_set(b[4]);
        if b.len() < micro_header_len_of(has_fraud) {
            None
        } else {
            Some(
                MicroHeaderModel {
                    version: be_value(field(b, 0, 4)),
                    tags: field(b, 4, 4),
                    height: be_value(field(b, 8, 8)),
                    prev_hash: field(b, 16, 32),
                    prev_key_hash: field(b, 48, 32),
                    state_hash: field(b, 80, 32),
                    txs_hash: field(b, 112, 32),
                    time: be_value(field(b, 144, 8)),
                    has_fraud,
                    fraud_hash: if has_fraud {
                        Some(field(b, 152, 32))
                    } else {
                        None
                    },
                    signature: field(b, signature_offset_of(has_fraud), 64),
                },
            )
        }
    }
}

/// A decoded micro header.
pub struct MicroBlockHeader {
    pub version: u32,
    pub tags: Vec<u8>,
    pub height: u64,
    pub prev_hash: Vec<u8>,
    pub prev_key_hash: Vec<u8>,
    pub state_hash: Vec<u8>,
    pub txs_hash: Vec<u8>,
    pub time: u64,
    pub has_fraud: bool,
    pub fraud_hash: Option<Vec<u8>>,
    pub signature: Vec<u8>,
}

impl View for MicroBlockHeader {
    type V = MicroHeaderModel;

    open spec fn view(&self) -> MicroHeaderModel {
        MicroHeaderModel {
            version: self.version as nat,
            tags: self.tags@,
            height: self.height as nat,
            prev_hash: self.prev_hash@,
            prev_key_hash: self.prev_key_hash@,
            state_hash: self.state_hash@,
            txs_hash: self.txs_hash@,
            time: self.time as nat,
            has_fraud: self.has_fraud,
            fraud_hash: match self.fraud_hash {
                Some(h) => Some(h@),
                None => None,
            },
            signature: self.signature@,
        }
    }
}

/// Where the signature of a micro header starts, given its fraud flag.
pub fn signature_offset(has_fraud: bool) -> (r: usize)
    ensures
        r as int == signature_offset_of(has_fraud),
{
    if has_fraud {
        184
    } else {
        152
    }
}

impl MicroBlockHeader {
    /// Decodes a micro header. The flags byte is read first; the place of the
    /// signature, and whether a fraud hash is present, follow from it.
    pub fn new_from_byte_array(bytes: &[u8]) -> (r: Result<MicroBlockHeader, MessageError>)
        ensures
            match r {
                Ok(h) => micro_header_of(bytes@) == Some(h@),
                Err(e) => micro_header_of(bytes@) is None && e == MessageError::TruncatedRecord,
            },
    {
        if bytes.len() < 5 {
            return Err(MessageError::TruncatedRecord);
        }
        let flags = bytes[4];
        let has_fraud = flags & 0x40u8 != 0;
        let sig_start = signature_offset(has_fraud);
        if bytes.len() < sig_start + 64 {
            return Err(MessageError::TruncatedRecord);
        }
        let fraud_hash = if has_fraud {
            Some(copy_range(bytes, 152, 32))
        } else {
            None
        };
        Ok(
            MicroBlockHeader {
                version: be_u32_at(bytes, 0),
                tags: copy_range(bytes, 4, 4),
                height: be_u64_at(bytes, 8),
                prev_hash: copy_range(bytes, 16, 32),
                prev_key_hash: copy_range(bytes, 48, 32),
                state_hash: copy_range(bytes, 80, 32),
                txs_hash: copy_range(bytes, 112, 32),
                time: be_u64_at(bytes, 144),
                has_fraud,
                fraud_hash,
                signature: copy_range(bytes, sig_start, 64),
            },
        )
    }
}

/// Flipping only the fraud bit of a micro header's flags byte toggles whether a
/// fraud hash is present, moves the signature by exactly 32 bytes, and leaves
/// the version untouched; where the longer layout fits, both buffers decode.
pub proof fn lemma_fraud_bit_moves_signature(b: Seq<u8>, flipped: Seq<u8>)
    requires
        b.len() >= 5,
        flipped == b.update(4, b[4] ^ 0x40u8),
    ensures
        fraud_flag_set(flipped[4]) == !fraud_flag_set(b[4]),
        signature_offset_of(fraud_flag_set(flipped[4])) - signature_offset_of(
            fraud_flag_set(b[4]),
        ) == if fraud_flag_set(b[4]) {
            -32int
        } else {
            32int
        },
        field(flipped, 0, 4) == field(b, 0, 4),
        b.len() >= 248 ==> {
            &&& micro_header_of(b) is Some
            &&& micro_header_of(flipped) is Some
            &&& micro_header_of(flipped)->0.version == micro_header_of(b)->0.version
            &&& micro_header_of(flipped)->0.height == micro_header_of(b)->0.height
            &&& (micro_header_of(flipped)->0.fraud_hash is Some) == (micro_header_of(
                b,
            )->0.fraud_hash is None)
        },
{
    let x = b[4];
    assert((x ^ 0x40u8) & 0x40u8 != 0 <==> !(x & 0x40u8 != 0)) by (bit_vector);
    assert(field(flipped, 0, 4) =~= field(b, 0, 4));
    if b.len() >= 248 {
        assert(field(flipped, 8, 8) =~= field(b, 8, 8));
    }
}

} // verus!
