use vstd::prelude::*;

use crate::envelope::{
    item_data, item_data_of, opt_bytes, rlp_count_of, rlp_item_count, rlp_item_raw, rlp_raw_at_of,
    rlp_u16_at, rlp_u16_at_of, rlp_u32_at, rlp_u32_at_of, rlp_u8_at, rlp_u8_at_of,
};
use crate::error::MessageError;
use crate::header::{
    key_block_of, micro_header_of, KeyBlock, KeyBlockModel, MicroBlockHeader, MicroHeaderModel,
};

verus! {

pub const MSG_FRAGMENT: u16 = 0;
pub const MSG_PING: u16 = 1;
pub const MSG_GETHEADERBYHASH: u16 = 3;
pub const MSG_HEADER: u16 = 4;
pub const MSG_GETNSUCCESSORS: u16 = 5;
pub const MSG_HEADERHASHES: u16 = 6;
pub const MSG_GETBLOCKTXS: u16 = 7;
pub const MSG_GETGENERATION: u16 = 8;
pub const MSG_TXS: u16 = 9;
pub const MSG_KEYBLOCK: u16 = 10;
pub const MSG_MICROBLOCK: u16 = 11;
pub const MSG_GENERATION: u16 = 12;
pub const MSG_BLOCKTXS: u16 = 13;
pub const MSG_GETHEADERBYHEIGHT: u16 = 15;
pub const MSG_TXPOOLSYNCINIT: u16 = 20;
pub const MSG_TXPOOLSYNCUNFOLD: u16 = 21;
pub const MSG_TXPOOLSYNCGET: u16 = 22;
pub const MSG_TXPOOLSYNCFINISH: u16 = 23;
pub const MSG_P2PRESPONSE: u16 = 100;
pub const MSG_CLOSE: u16 = 127;

/// Processing a batch of `k` items one after the other, stopping at the first
/// item that fails: the items in order, or the error of the first failure.
pub open spec fn batch_of<T>(item: spec_fn(int) -> Result<T, MessageError>, k: nat) -> Result<
    Seq<T>,
    MessageError,
>
    decreases k,
{
    if k == 0 {
        Ok(Seq::empty())
    } else {
        match batch_of(item, (k - 1) as nat) {
            Err(e) => Err(e),
            Ok(s) => match item(k - 1) {
                Err(e) => Err(e),
                Ok(x) => Ok(s.push(x)),
            },
        }
    }
}

/// Once a batch has failed, processing more items does not change its outcome.
pub proof fn lemma_batch_failure_stays<T>(
    item: spec_fn(int) -> Result<T, MessageError>,
    k: nat,
    m: nat,
)
    requires
        k <= m,
        batch_of(item, k) is Err,
    ensures
        batch_of(item, m) == batch_of(item, k),
    decreases m,
{
    if m > k {
        lemma_batch_failure_stays(item, k, (m - 1) as nat);
    }
}

/// A response: a status around the undecoded body of another message.
pub struct P2pResponse {
    pub version: u8,
    pub result: u8,
    pub response_type: u8,
    pub reason: Vec<u8>,
    pub object: Vec<u8>,
}

pub struct P2pResponseModel {
    pub version: u8,
    pub result: u8,
    pub response_type: u8,
    pub reason: Seq<u8>,
    pub object: Seq<u8>,
}

impl View for P2pResponse {
    type V = P2pResponseModel;

    open spec fn view(&self) -> P2pResponseModel {
        P2pResponseModel {
            version: self.version,
            result: self.result,
            response_type: self.response_type,
            reason: self.reason@,
            object: self.object@,
        }
    }
}

/// A response from its five fields as read: it stands when every field was
/// read, whatever the object holds (an empty object is no error).
pub open spec fn p2p_response_decision(
    version: Option<u8>,
    result: Option<u8>,
    response_type: Option<u8>,
    reason: Option<Seq<u8>>,
    object: Option<Seq<u8>>,
) -> Result<P2pResponseModel, MessageError> {
    match (version, result, response_type, reason, object) {
        (Some(version), Some(result), Some(response_type), Some(reason), Some(object)) => Ok(
            P2pResponseModel { version, result, response_type, reason, object },
        ),
        _ => Err(MessageError::MalformedEnvelope),
    }
}

/// The five fields of a response, read by position.
pub open spec fn p2p_response_of(msg: Seq<u8>) -> Result<P2pResponseModel, MessageError> {
    p2p_response_decision(
        rlp_u8_at_of(msg, 0),
        rlp_u8_at_of(msg, 1),
        rlp_u8_at_of(msg, 2),
        item_data_of(msg, 3),
        item_data_of(msg, 4),
    )
}

/// Builds a response from its five fields as read.
pub fn p2p_response_from_fields(
    version: Option<u8>,
    result: Option<u8>,
    response_type: Option<u8>,
    reason: Option<Vec<u8>>,
    object: Option<Vec<u8>>,
) -> (r: Result<P2pResponse, MessageError>)
    ensures
        match r {
            Ok(p) => p2p_response_decision(
                version,
                result,
                response_type,
                opt_bytes(reason),
                opt_bytes(object),
            ) == Ok::<P2pResponseModel, MessageError>(p@),
            Err(e) => p2p_response_decision(
                version,
                result,
                response_type,
                opt_bytes(reason),
                opt_bytes(object),
            ) == Err::<P2pResponseModel, MessageError>(e),
        },
{
    match (version, result, response_type, reason, object) {
        (Some(version), Some(result), Some(response_type), Some(reason), Some(object)) => Ok(
            P2pResponse { version, result, response_type, reason, object },
        ),
        _ => Err(MessageError::MalformedEnvelope),
    }
}

/// Reads a response. The object is handed back as bytes, whatever it holds,
/// so an empty object is no error.
pub fn handle_p2p_response(msg_data: &[u8]) -> (r: Result<P2pResponse, MessageError>)
    ensures
        match r {
            Ok(p) => p2p_response_of(msg_data@) == Ok::<P2pResponseModel, MessageError>(p@),
            Err(e) => p2p_response_of(msg_data@) == Err::<P2pResponseModel, MessageError>(e),
        },
{
    p2p_response_from_fields(
        rlp_u8_at(msg_data, 0),
        rlp_u8_at(msg_data, 1),
        rlp_u8_at(msg_data, 2),
        item_data(msg_data, 3),
        item_data(msg_data, 4),
    )
}

/// What one key-block pair yields, from its marker as read (`None` where it
/// does not read as a `u16`) and the bytes of its record: any marker other
/// than `1` is a protocol violation.
pub open spec fn key_pair_decision(marker: Option<u16>, record: Option<Seq<u8>>) -> Result<
    KeyBlockModel,
    MessageError,
> {
    if marker != Some(1u16) {
        Err(MessageError::ProtocolInvariantViolation)
    } else {
        match record {
            None => Err(MessageError::MalformedEnvelope),
            Some(r) => match key_block_of(r) {
                None => Err(MessageError::TruncatedRecord),
                Some(kb) => Ok(kb),
            },
        }
    }
}

/// Pair `j` of a key-block batch: marker `1`, then a key header.
pub open spec fn key_pair_of(msg: Seq<u8>, j: int) -> Result<KeyBlockModel, MessageError> {
    key_pair_decision(rlp_u16_at_of(msg, 2 * j), item_data_of(msg, 2 * j + 1))
}

/// Decides one key-block pair from its marker and record; the record is only
/// decoded when the marker is `1`.
pub fn key_pair_step(marker: Option<u16>, record: Option<Vec<u8>>) -> (r: Result<
    KeyBlock,
    MessageError,
>)
    ensures
        match r {
            Ok(kb) => key_pair_decision(marker, opt_bytes(record)) == Ok::<
                KeyBlockModel,
                MessageError,
            >(kb@),
            Err(e) => key_pair_decision(marker, opt_bytes(record)) == Err::<
                KeyBlockModel,
                MessageError,
            >(e),
        },
{
    match marker {
        Some(m) => {
            if m != 1 {
                return Err(MessageError::ProtocolInvariantViolation);
            }
        },
        None => return Err(MessageError::ProtocolInvariantViolation),
    }
    match record {
        None => Err(MessageError::MalformedEnvelope),
        Some(bytes) => handle_key_block(bytes.as_slice()),
    }
}

/// How many pairs a key-block batch of `count` items holds: a batch that is
/// no list is malformed, an odd one a protocol violation.
pub open spec fn key_batch_pairs_of(count: Option<nat>) -> Result<nat, MessageError> {
    match count {
        None => Err(MessageError::MalformedEnvelope),
        Some(n) => if n % 2 != 0 {
            Err(MessageError::ProtocolInvariantViolation)
        } else {
            Ok(n / 2)
        },
    }
}

/// The number of pairs of a key-block batch, from its item count.
pub fn key_batch_pairs(count: Option<usize>) -> (r: Result<usize, MessageError>)
    ensures
        key_batch_pairs_of(
            match count {
                Some(n) => Some(n as nat),
                None => None,
            },
        ) == match r {
            Ok(p) => Ok::<nat, MessageError>(p as nat),
            Err(e) => Err::<nat, MessageError>(e),
        },
        r matches Ok(p) ==> count matches Some(n) && 2 * p == n,
        r matches Ok(p) ==> 2 * p <= usize::MAX,
{
    match count {
        None => Err(MessageError::MalformedEnvelope),
        Some(n) => if n % 2 != 0 {
            Err(MessageError::ProtocolInvariantViolation)
        } else {
            Ok(n / 2)
        },
    }
}

pub open spec fn key_pair_fn(msg: Seq<u8>) -> spec_fn(int) -> Result<KeyBlockModel, MessageError> {
    |j: int| key_pair_of(msg, j)
}

/// A key-block batch: an even number of items, taken pair by pair.
pub open spec fn key_blocks_of(msg: Seq<u8>) -> Result<Seq<KeyBlockModel>, MessageError> {
    match key_batch_pairs_of(rlp_count_of(msg)) {
        Err(e) => Err(e),
        Ok(pairs) => batch_of(key_pair_fn(msg), pairs),
    }
}

pub open spec fn key_blocks_view(v: Seq<KeyBlock>) -> Seq<KeyBlockModel> {
    v.map_values(|kb: KeyBlock| kb@)
}

/// Decodes one key header of a batch.
pub fn handle_key_block(binary: &[u8]) -> (r: Result<KeyBlock, MessageError>)
    ensures
        match r {
            Ok(kb) => key_block_of(binary@) == Some(kb@),
            Err(e) => key_block_of(binary@) is None && e == MessageError::TruncatedRecord,
        },
{
    KeyBlock::new_from_byte_array(binary)
}

/// Decodes a key-block batch, all or nothing: the first bad pair ends it.
pub fn handle_key_blocks(msg_data: &[u8]) -> (r: Result<Vec<KeyBlock>, MessageError>)
    ensures
        match r {
            Ok(v) => key_blocks_of(msg_data@) == Ok::<Seq<KeyBlockModel>, MessageError>(
                key_blocks_view(v@),
            ),
            Err(e) => key_blocks_of(msg_data@) == Err::<Seq<KeyBlockModel>, MessageError>(e),
        },
{
    let pairs = match key_batch_pairs(rlp_item_count(msg_data)) {
        Ok(p) => p,
        Err(e) => return Err(e),
    };
    let ghost f = key_pair_fn(msg_data@);
    let mut blocks: Vec<KeyBlock> = Vec::new();
    assert(key_blocks_view(blocks@) =~= Seq::<KeyBlockModel>::empty());
    let mut i: usize = 0;
    while i < pairs
        invariant
            i <= pairs,
            key_batch_pairs_of(rlp_count_of(msg_data@)) == Ok::<nat, MessageError>(pairs as nat),
            rlp_count_of(msg_data@) matches Some(n) && 2 * pairs == n,
            2 * pairs <= usize::MAX,
            f == key_pair_fn(msg_data@),
            batch_of(f, i as nat) == Ok::<Seq<KeyBlockModel>, MessageError>(
                key_blocks_view(blocks@),
            ),
        decreases pairs - i,
    {
        assert(2 * i + 1 < 2 * pairs);
        let marker = rlp_u16_at(msg_data, 2 * i);
        let record = match marker {
            Some(1) => item_data(msg_data, 2 * i + 1),
            _ => None,
        };
        let step = key_pair_step(marker, record);
        match step {
            Ok(kb) => {
                blocks.push(kb);
                assert(key_blocks_view(blocks@) =~= batch_of(f, (i + 1) as nat)->Ok_0);
            },
            Err(e) => {
                proof {
                    lemma_batch_failure_stays(f, (i + 1) as nat, pairs as nat);
                }
                return Err(e);
            },
        }
        i = i + 1;
    }
    Ok(blocks)
}

/// A transaction of a batch: its type tag and the encoding of the unsigned transaction.
pub struct TxRecord {
    pub tag: u32,
    pub body: Vec<u8>,
}

pub struct TxModel {
    pub tag: u32,
    pub body: Seq<u8>,
}

impl View for TxRecord {
    type V = TxModel;

    open spec fn view(&self) -> TxModel {
        TxModel { tag: self.tag, body: self.body@ }
    }
}

pub open spec fn txs_view(v: Seq<TxRecord>) -> Seq<TxModel> {
    v.map_values(|t: TxRecord| t@)
}

/// Signed transaction `j` of a list: its fourth field holds the unsigned
/// transaction, whose first item is the type tag.
pub open spec fn tx_item_of(list: Seq<u8>, j: int) -> Result<TxModel, MessageError> {
    match item_data_of(list, j) {
        None => Err(MessageError::MalformedEnvelope),
        Some(signed) => match item_data_of(signed, 3) {
            None => Err(MessageError::MalformedEnvelope),
            Some(body) => match rlp_u32_at_of(body, 0) {
                None => Err(MessageError::MalformedEnvelope),
                Some(tag) => Ok(TxModel { tag, body }),
            },
        },
    }
}

pub open spec fn tx_item_fn(list: Seq<u8>) -> spec_fn(int) -> Result<TxModel, MessageError> {
    |j: int| tx_item_of(list, j)
}

/// Whether a transaction list's version item (its payload, where it has one)
/// is the supported version `1`.
pub open spec fn txs_version_decision(version: Option<Seq<u8>>) -> Result<(), MessageError> {
    match version {
        None => Err(MessageError::MalformedEnvelope),
        Some(v) => if v.len() == 0 {
            Err(MessageError::MalformedEnvelope)
        } else if v[0] != 1 {
            Err(MessageError::ProtocolInvariantViolation)
        } else {
            Ok(())
        },
    }
}

/// Checks a transaction list's version item.
pub fn txs_version_check(version: Option<Vec<u8>>) -> (r: Result<(), MessageError>)
    ensures
        r == txs_version_decision(opt_bytes(version)),
{
    match version {
        None => Err(MessageError::MalformedEnvelope),
        Some(v) => if v.len() == 0 {
            Err(MessageError::MalformedEnvelope)
        } else if v[0] != 1 {
            Err(MessageError::ProtocolInvariantViolation)
        } else {
            Ok(())
        },
    }
}

/// A transaction list: version byte `1`, then a list of signed transactions.
/// The version is checked before any transaction is looked at.
pub open spec fn txs_of(msg: Seq<u8>) -> Result<Seq<TxModel>, MessageError> {
    match txs_version_decision(item_data_of(msg, 0)) {
        Err(e) => Err(e),
        Ok(_) => match rlp_raw_at_of(msg, 1) {
            None => Err(MessageError::MalformedEnvelope),
            Some(list) => match rlp_count_of(list) {
                None => Err(MessageError::MalformedEnvelope),
                Some(n) => batch_of(tx_item_fn(list), n),
            },
        },
    }
}

/// Decodes a transaction list, all or nothing: the first bad transaction ends it.
pub fn handle_txs(msg_data: &[u8]) -> (r: Result<Vec<TxRecord>, MessageError>)
    ensures
        match r {
            Ok(v) => txs_of(msg_data@) == Ok::<Seq<TxModel>, MessageError>(txs_view(v@)),
            Err(e) => txs_of(msg_data@) == Err::<Seq<TxModel>, MessageError>(e),
        },
{
    match txs_version_check(item_data(msg_data, 0)) {
        Ok(()) => {},
        Err(e) => return Err(e),
    }
    let list = match rlp_item_raw(msg_data, 1) {
        Some(l) => l,
        None => return Err(MessageError::MalformedEnvelope),
    };
    let count = match rlp_item_count(list.as_slice()) {
        Some(n) => n,
        None => return Err(MessageError::MalformedEnvelope),
    };
    let ghost f = tx_item_fn(list@);
    let mut txs: Vec<TxRecord> = Vec::new();
    assert(txs_view(txs@) =~= Seq::<TxModel>::empty());
    let mut i: usize = 0;
    while i < count
        invariant
            i <= count,
            txs_version_decision(item_data_of(msg_data@, 0)) == Ok::<(), MessageError>(()),
            rlp_raw_at_of(msg_data@, 1) == Some(list@),
            rlp_count_of(list@) == Some(count as nat),
            f == tx_item_fn(list@),
            batch_of(f, i as nat) == Ok::<Seq<TxModel>, MessageError>(txs_view(txs@)),
        decreases count - i,
    {
        let step: Result<TxRecord, MessageError> = match item_data(list.as_slice(), i) {
            None => Err(MessageError::MalformedEnvelope),
            Some(signed) => match item_data(signed.as_slice(), 3) {
                None => Err(MessageError::MalformedEnvelope),
                Some(body) => match rlp_u32_at(body.as_slice(), 0) {
                    None => Err(MessageError::MalformedEnvelope),
                    Some(tag) => Ok(TxRecord { tag, body }),
                },
            },
        };
        match step {
            Ok(tx) => {
                txs.push(tx);
                assert(txs_view(txs@) =~= batch_of(f, (i + 1) as nat)->Ok_0);
            },
            Err(e) => {
                proof {
                    lemma_batch_failure_stays(f, (i + 1) as nat, count as nat);
                }
                return Err(e);
            },
        }
        i = i + 1;
    }
    Ok(txs)
}

/// An odd number of items in a key-block batch is a protocol violation.
pub proof fn lemma_odd_key_batch_fails(msg: Seq<u8>, n: nat)
    requires
        rlp_count_of(msg) == Some(n),
        n % 2 == 1,
    ensures
        key_blocks_of(msg) == Err::<Seq<KeyBlockModel>, MessageError>(
            MessageError::ProtocolInvariantViolation,
        ),
{
}

/// A marker other than `1` in pair `k` (one that reads as another number, or
/// does not read as a `u16` at all), after good pairs, fails the whole batch
/// with a protocol violation, whatever the pairs after it hold.
pub proof fn lemma_bad_marker_fails_key_batch(msg: Seq<u8>, n: nat, k: int)
    requires
        rlp_count_of(msg) == Some(n),
        n % 2 == 0,
        0 <= k < n / 2,
        rlp_u16_at_of(msg, 2 * k) != Some(1u16),
        forall|j: int| 0 <= j < k ==> (#[trigger] key_pair_of(msg, j)) is Ok,
    ensures
        key_blocks_of(msg) == Err::<Seq<KeyBlockModel>, MessageError>(
            MessageError::ProtocolInvariantViolation,
        ),
{
    let f = key_pair_fn(msg);
    lemma_batch_prefix_ok(f, k as nat);
    lemma_batch_failure_stays(f, (k + 1) as nat, n / 2);
}

/// Items that all succeed make a batch that succeeds.
pub proof fn lemma_batch_prefix_ok<T>(item: spec_fn(int) -> Result<T, MessageError>, k: nat)
    requires
        forall|j: int| 0 <= j < k ==> (#[trigger] item(j)) is Ok,
    ensures
        batch_of(item, k) is Ok,
    decreases k,
{
    if k > 0 {
        lemma_batch_prefix_ok(item, (k - 1) as nat);
    }
}

/// A transaction list whose version byte is not `1` fails with a protocol
/// violation, whatever its transactions hold.
pub proof fn lemma_bad_version_fails_txs(msg: Seq<u8>)
    requires
        item_data_of(msg, 0) matches Some(v) && v.len() > 0 && v[0] != 1,
    ensures
        txs_of(msg) == Err::<Seq<TxModel>, MessageError>(MessageError::ProtocolInvariantViolation),
{
}

/// Item `j` of a light block's transaction list: a hash or an identifier, as bytes.
pub open spec fn light_item_of(list: Seq<u8>, j: int) -> Result<Seq<u8>, MessageError> {
    match item_data_of(list, j) {
        None => Err(MessageError::MalformedEnvelope),
        Some(d) => Ok(d),
    }
}

pub open spec fn light_item_fn(list: Seq<u8>) -> spec_fn(int) -> Result<Seq<u8>, MessageError> {
    |j: int| light_item_of(list, j)
}

/// The items of a light block's transaction list.
pub open spec fn light_txs_of(list: Seq<u8>) -> Result<Seq<Seq<u8>>, MessageError> {
    match rlp_count_of(list) {
        None => Err(MessageError::MalformedEnvelope),
        Some(n) => batch_of(light_item_fn(list), n),
    }
}

pub open spec fn bytes_view(v: Seq<Vec<u8>>) -> Seq<Seq<u8>> {
    v.map_values(|b: Vec<u8>| b@)
}

/// Reads the items of a light block's transaction list.
pub fn light_txs(list: &[u8]) -> (r: Result<Vec<Vec<u8>>, MessageError>)
    ensures
        match r {
            Ok(v) => light_txs_of(list@) == Ok::<Seq<Seq<u8>>, MessageError>(bytes_view(v@)),
            Err(e) => light_txs_of(list@) == Err::<Seq<Seq<u8>>, MessageError>(e),
        },
{
    let count = match rlp_item_count(list) {
        Some(n) => n,
        None => return Err(MessageError::MalformedEnvelope),
    };
    let ghost f = light_item_fn(list@);
    let mut items: Vec<Vec<u8>> = Vec::new();
    assert(bytes_view(items@) =~= Seq::<Seq<u8>>::empty());
    let mut i: usize = 0;
    while i < count
        invariant
            i <= count,
            rlp_count_of(list@) == Some(count as nat),
            f == light_item_fn(list@),
            batch_of(f, i as nat) == Ok::<Seq<Seq<u8>>, MessageError>(bytes_view(items@)),
        decreases count - i,
    {
        match item_data(list, i) {
            Some(d) => {
                items.push(d);
                assert(bytes_view(items@) =~= batch_of(f, (i + 1) as nat)->Ok_0);
            },
            None => {
                proof {
                    lemma_batch_failure_stays(f, (i + 1) as nat, count as nat);
                }
                return Err(MessageError::MalformedEnvelope);
            },
        }
        i = i + 1;
    }
    Ok(items)
}

/// The transactions of a micro block: full ones, or, in a light block, hashes
/// and identifiers.
pub enum MicroBlockTxs {
    Full(Vec<TxRecord>),
    Light(Vec<Vec<u8>>),
}

pub enum MicroTxsModel {
    Full(Seq<TxModel>),
    Light(Seq<Seq<u8>>),
}

impl View for MicroBlockTxs {
    type V = MicroTxsModel;

    open spec fn view(&self) -> MicroTxsModel {
        match self {
            MicroBlockTxs::Full(v) => MicroTxsModel::Full(txs_view(v@)),
            MicroBlockTxs::Light(v) => MicroTxsModel::Light(bytes_view(v@)),
        }
    }
}

/// A decoded micro-block message.
pub struct MicroBlock {
    pub version: u8,
    pub light: u8,
    pub header: MicroBlockHeader,
    pub txs: MicroBlockTxs,
}

pub struct MicroBlockModel {
    pub version: u8,
    pub light: u8,
    pub header: MicroHeaderModel,
    pub txs: MicroTxsModel,
}

impl View for MicroBlock {
    type V = MicroBlockModel;

    open spec fn view(&self) -> MicroBlockModel {
        MicroBlockModel {
            version: self.version,
            light: self.light,
            header: self.header@,
            txs: self.txs@,
        }
    }
}

/// The transactions of a micro block: a nonzero light flag means a light block.
pub open spec fn micro_txs_of(light: u8, list: Seq<u8>) -> Result<MicroTxsModel, MessageError> {
    if light == 0 {
        match txs_of(list) {
            Ok(s) => Ok(MicroTxsModel::Full(s)),
            Err(e) => Err(e),
        }
    } else {
        match light_txs_of(list) {
            Ok(s) => Ok(MicroTxsModel::Light(s)),
            Err(e) => Err(e),
        }
    }
}

/// A micro-block message: version, the serialized block, the light flag. The
/// block's third item is the header record, its fourth the transaction list.
pub open spec fn micro_block_of(msg: Seq<u8>) -> Result<MicroBlockModel, MessageError> {
    match (rlp_u8_at_of(msg, 0), item_data_of(msg, 1), rlp_u8_at_of(msg, 2)) {
        (Some(version), Some(block), Some(light)) => match item_data_of(block, 2) {
            None => Err(MessageError::MalformedEnvelope),
            Some(record) => match micro_header_of(record) {
                None => Err(MessageError::TruncatedRecord),
                Some(header) => match rlp_raw_at_of(block, 3) {
                    None => Err(MessageError::MalformedEnvelope),
                    Some(list) => match micro_txs_of(light, list) {
                        Err(e) => Err(e),
                        Ok(txs) => Ok(MicroBlockModel { version, light, header, txs }),
                    },
                },
            },
        },
        _ => Err(MessageError::MalformedEnvelope),
    }
}

/// Decodes a micro-block message, its header and its transactions.
pub fn handle_micro_block(msg_data: &[u8]) -> (r: Result<MicroBlock, MessageError>)
    ensures
        match r {
            Ok(mb) => micro_block_of(msg_data@) == Ok::<MicroBlockModel, MessageError>(mb@),
            Err(e) => micro_block_of(msg_data@) == Err::<MicroBlockModel, MessageError>(e),
        },
{
    let version = match rlp_u8_at(msg_data, 0) {
        Some(v) => v,
        None => return Err(MessageError::MalformedEnvelope),
    };
    let block = match item_data(msg_data, 1) {
        Some(b) => b,
        None => return Err(MessageError::MalformedEnvelope),
    };
    let light = match rlp_u8_at(msg_data, 2) {
        Some(v) => v,
        None => return Err(MessageError::MalformedEnvelope),
    };
    let record = match item_data(block.as_slice(), 2) {
        Some(h) => h,
        None => return Err(MessageError::MalformedEnvelope),
    };
    let header = match MicroBlockHeader::new_from_byte_array(record.as_slice()) {
        Ok(h) => h,
        Err(e) => return Err(e),
    };
    let list = match rlp_item_raw(block.as_slice(), 3) {
        Some(l) => l,
        None => return Err(MessageError::MalformedEnvelope),
    };
    let txs = if light == 0 {
        match handle_txs(list.as_slice()) {
            Ok(v) => MicroBlockTxs::Full(v),
            Err(e) => return Err(e),
        }
    } else {
        match light_txs(list.as_slice()) {
            Ok(v) => MicroBlockTxs::Light(v),
            Err(e) => return Err(e),
        }
    };
    Ok(MicroBlock { version, light, header, txs })
}

/// What a message decodes to, by its type tag.
pub enum Message {
    P2pResponse(P2pResponse),
    TxPoolSyncInit,
    Txs(Vec<TxRecord>),
    KeyBlocks(Vec<KeyBlock>),
    MicroBlock(MicroBlock),
    /// A tag that this library does not decode: it is let through.
    Ignored,
}

pub enum MessageModel {
    P2pResponse(P2pResponseModel),
    TxPoolSyncInit,
    Txs(Seq<TxModel>),
    KeyBlocks(Seq<KeyBlockModel>),
    MicroBlock(MicroBlockModel),
    Ignored,
}

impl View for Message {
    type V = MessageModel;

    open spec fn view(&self) -> MessageModel {
        match self {
            Message::P2pResponse(p) => MessageModel::P2pResponse(p@),
            Message::TxPoolSyncInit => MessageModel::TxPoolSyncInit,
            Message::Txs(v) => MessageModel::Txs(txs_view(v@)),
            Message::KeyBlocks(v) => MessageModel::KeyBlocks(key_blocks_view(v@)),
            Message::MicroBlock(mb) => MessageModel::MicroBlock(mb@),
            Message::Ignored => MessageModel::Ignored,
        }
    }
}

/// The message that a body of type `msg_type` decodes to; unknown tags decode
/// to `Ignored`, and a handler's failure is the message's failure.
pub open spec fn message_of(msg_type: u16, msg: Seq<u8>) -> Result<MessageModel, MessageError> {
    if msg_type == MSG_P2PRESPONSE {
        match p2p_response_of(msg) {
            Ok(p) => Ok(MessageModel::P2pResponse(p)),
            Err(e) => Err(e),
        }
    } else if msg_type == MSG_TXPOOLSYNCINIT {
        Ok(MessageModel::TxPoolSyncInit)
    } else if msg_type == MSG_TXS {
        match txs_of(msg) {
            Ok(v) => Ok(MessageModel::Txs(v)),
            Err(e) => Err(e),
        }
    } else if msg_type == MSG_KEYBLOCK {
        match key_blocks_of(msg) {
            Ok(v) => Ok(MessageModel::KeyBlocks(v)),
            Err(e) => Err(e),
        }
    } else if msg_type == MSG_MICROBLOCK {
        match micro_block_of(msg) {
            Ok(mb) => Ok(MessageModel::MicroBlock(mb)),
            Err(e) => Err(e),
        }
    } else {
        Ok(MessageModel::Ignored)
    }
}

/// Hands a message body to the handler of its type.
pub fn handle_message(msg_type: u16, msg_data: &[u8]) -> (r: Result<Message, MessageError>)
    ensures
        match r {
            Ok(m) => message_of(msg_type, msg_data@) == Ok::<MessageModel, MessageError>(m@),
            Err(e) => message_of(msg_type, msg_data@) == Err::<MessageModel, MessageError>(e),
        },
{
    if msg_type == MSG_P2PRESPONSE {
        match handle_p2p_response(msg_data) {
            Ok(p) => Ok(Message::P2pResponse(p)),
            Err(e) => Err(e),
        }
    } else if msg_type == MSG_TXPOOLSYNCINIT {
        Ok(Message::TxPoolSyncInit)
    } else if msg_type == MSG_TXS {
        match handle_txs(msg_data) {
            Ok(v) => Ok(Message::Txs(v)),
            Err(e) => Err(e),
        }
    } else if msg_type == MSG_KEYBLOCK {
        match handle_key_blocks(msg_data) {
            Ok(v) => Ok(Message::KeyBlocks(v)),
            Err(e) => Err(e),
        }
    } else if msg_type == MSG_MICROBLOCK {
        match handle_micro_block(msg_data) {
            Ok(mb) => Ok(Message::MicroBlock(mb)),
            Err(e) => Err(e),
        }
    } else {
        Ok(Message::Ignored)
    }
}

} // verus!
