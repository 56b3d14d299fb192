use vstd::prelude::*;

use crate::handlers::MSG_PING;

verus! {

/// The generic encoding of a ping: a list of the seven fields, in this order,
/// followed by an empty list of peers.
pub uninterp spec fn ping_rlp_of(
    version: u16,
    port: u16,
    share: u16,
    genesis_hash: Seq<u8>,
    difficulty: u64,
    top_hash: Seq<u8>,
    sync_allowed: u16,
) -> Seq<u8>;

/// Relies on rlp's `RlpStream`: appends each field to a list of eight items,
/// the last an empty list, and hands out the encoding, which starts with the
/// list's header and so is never empty.
#[verifier::external_body]
fn encode_ping_fields(
    version: u16,
    port: u16,
    share: u16,
    genesis_hash: &Vec<u8>,
    difficulty: u64,
    top_hash: &Vec<u8>,
    sync_allowed: u16,
) -> (r: Vec<u8>)
    ensures
        r@ == ping_rlp_of(version, port, share, genesis_hash@, difficulty, top_hash@, sync_allowed),
        r@.len() > 0,
{
    let mut stream = rlp::RlpStream::new();
    stream.begin_list(8).append(&version).append(&port).append(&share).append(genesis_hash).append(
        &difficulty,
    ).append(top_hash).append(&sync_allowed).begin_list(0);
    stream.out().to_vec()
}

/// `s` with every byte 128 turned into 0.
pub open spec fn mangled(s: Seq<u8>) -> Seq<u8> {
    Seq::new(
        s.len(),
        |i: int|
            if s[i] == 128 {
                0u8
            } else {
                s[i]
            },
    )
}

/// The two bytes of `num`, most significant first.
pub open spec fn be_bytes_u16(num: u16) -> Seq<u8> {
    seq![(num / 256) as u8, (num % 256) as u8]
}

/// The two bytes of `num`, most significant first.
pub fn bigend_u16(num: u16) -> (r: Vec<u8>)
    ensures
        r@ == be_bytes_u16(num),
{
    let v = vec![(num / 256) as u8, (num % 256) as u8];
    assert(v@ =~= be_bytes_u16(num));
    v
}

/// Rewrites the generic encoding into this protocol's dialect: each byte 128 becomes 0.
pub fn mangle_rlp(data: &[u8]) -> (r: Vec<u8>)
    ensures
        r@ == mangled(data@),
{
    let n: usize = data.len();
    let mut out: Vec<u8> = Vec::new();
    let mut i: usize = 0;
    while i < n
        invariant
            n == data@.len(),
            i <= n,
            out@ =~= mangled(data@).subrange(0, i as int),
        decreases n - i,
    {
        let b = data[i];
        if b == 128 {
            out.push(0);
        } else {
            out.push(b);
        }
        i = i + 1;
    }
    assert(out@ =~= mangled(data@));
    out
}

/// The only ping version there is.
pub const PING_VERSION: u16 = 1;

/// A liveness announcement. It always goes out as version 1, whatever its
/// `version` field holds.
pub struct Ping {
    pub version: u16,
    pub port: u16,
    pub share: u16,
    pub genesis_hash: Vec<u8>,
    pub difficulty: u64,
    pub top_hash: Vec<u8>,
    pub sync_allowed: u16,
    pub peers: Vec<u8>,
}

impl Ping {
    /// A ping of version 1; the sync flag is kept as 1 or 0.
    pub fn new(
        port: u16,
        share: u16,
        genesis_hash: Vec<u8>,
        difficulty: u64,
        top_hash: Vec<u8>,
        sync_allowed: bool,
        peers: Vec<u8>,
    ) -> (r: Ping)
        ensures
            r.version == PING_VERSION,
            r.port == port,
            r.share == share,
            r.genesis_hash@ == genesis_hash@,
            r.difficulty == difficulty,
            r.top_hash@ == top_hash@,
            r.sync_allowed == if sync_allowed {
                1u16
            } else {
                0u16
            },
            r.peers@ == peers@,
    {
        Ping {
            version: PING_VERSION,
            port,
            share,
            genesis_hash,
            difficulty,
            top_hash,
            sync_allowed: if sync_allowed {
                1
            } else {
                0
            },
            peers,
        }
    }

    /// The wire form of this ping: the ping tag, big-endian, then the mangled
    /// encoding of its fields. The peer list is always encoded empty.
    pub fn rlp(&self) -> (r: Vec<u8>)
        ensures
            r@.len() > 2,
            r@[0] == 0,
            r@[1] == 1,
            r@ == be_bytes_u16(MSG_PING) + mangled(
                ping_rlp_of(
                    PING_VERSION,
                    self.port,
                    self.share,
                    self.genesis_hash@,
                    self.difficulty,
                    self.top_hash@,
                    self.sync_allowed,
                ),
            ),
    {
        let encoded = encode_ping_fields(
            PING_VERSION,
            self.port,
            self.share,
            &self.genesis_hash,
            self.difficulty,
            &self.top_hash,
            self.sync_allowed,
        );
        let mut body = mangle_rlp(encoded.as_slice());
        let mut out = bigend_u16(MSG_PING);
        out.append(&mut body);
        out
    }
}

/// Mangling leaves no byte 128 behind and changes no other byte.
pub proof fn lemma_mangled_has_no_128(s: Seq<u8>)
    ensures
        mangled(s).len() == s.len(),
        forall|i: int| 0 <= i < s.len() ==> #[trigger] mangled(s)[i] != 128,
        forall|i: int| 0 <= i < s.len() && s[i] != 128 ==> #[trigger] mangled(s)[i] == s[i],
{
}

} // verus!
