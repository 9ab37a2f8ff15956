//! How the indexer service starts: which contract it follows, which deployment record it
//! trusts, and from which block height it reads.
use vstd::prelude::*;
use vstd::string::StrSliceExecFns;
use crate::deployments::DeploymentRecord;
use crate::types::bytes32_eq;

verus! {

/// A white-space character, as `char::is_whitespace` has it (Unicode `White_Space`).
pub open spec fn is_white(c: char) -> bool {
    let u = c as u32;
    u == 0x20 || (0x09 <= u && u <= 0x0d) || u == 0x85 || u == 0xa0 || u == 0x1680 || (0x2000
        <= u && u <= 0x200a) || u == 0x2028 || u == 0x2029 || u == 0x202f || u == 0x205f || u
        == 0x3000
}

/// The text without its leading white space.
pub open spec fn trim_start(s: Seq<char>) -> Seq<char>
    decreases s.len(),
{
    if s.len() > 0 && is_white(s[0]) {
        trim_start(s.skip(1))
    } else {
        s
    }
}

/// The text without its trailing white space.
pub open spec fn trim_end(s: Seq<char>) -> Seq<char>
    decreases s.len(),
{
    if s.len() > 0 && is_white(s.last()) {
        trim_end(s.drop_last())
    } else {
        s
    }
}

/// The text without every leading `fuel`.
pub open spec fn strip_fuel(s: Seq<char>) -> Seq<char>
    decreases s.len(),
{
    if s.len() >= 4 && s.take(4) == seq!['f', 'u', 'e', 'l'] {
        strip_fuel(s.skip(4))
    } else {
        s
    }
}

/// The value of a hexadecimal digit, in either case.
pub open spec fn hex_char_value(c: char) -> Option<u8> {
    let u = c as u32;
    if 0x30 <= u && u <= 0x39 {
        Some((u - 0x30) as u8)
    } else if 0x41 <= u && u <= 0x46 {
        Some((u - 0x41 + 10) as u8)
    } else if 0x61 <= u && u <= 0x66 {
        Some((u - 0x61 + 10) as u8)
    } else {
        None
    }
}

/// The text without one leading `0x`.
pub open spec fn without_0x_chars(s: Seq<char>) -> Seq<char> {
    if s.len() >= 2 && s[0] == '0' && s[1] == 'x' {
        s.skip(2)
    } else {
        s
    }
}

/// The 32 bytes of an id (a contract id, an address, an asset id) written as text: after an
/// optional `0x`, exactly 64 hexadecimal digits of either case, two a byte; none for any
/// other text.
pub open spec fn hex32_text(s: Seq<char>) -> Option<Seq<u8>> {
    let t = without_0x_chars(s);
    if t.len() == 64 && forall|i: int| 0 <= i < 64 ==> (#[trigger] hex_char_value(t[i])) is Some {
        Some(
            Seq::new(
                32,
                |i: int| (hex_char_value(t[2 * i]).unwrap() * 16 + hex_char_value(t[2 * i + 1]).unwrap()) as u8,
            ),
        )
    } else {
        None
    }
}

/// Calls `<fuel_tx::ContractId as FromStr>::from_str` on the text. The contract claims what
/// the source of `fuel-types` does: it drops one leading `0x` and decodes the rest with
/// `hex::decode_to_slice` into 32 bytes, which succeeds exactly on 64 hexadecimal digits.
#[verifier::external_body]
pub(crate) fn contract_id_from_str(text: &str) -> (r: Option<[u8; 32]>)
    ensures
        match hex32_text(text@) {
            Some(bytes) => r matches Some(id) && id@ == bytes,
            None => r is None,
        },
{
    match <fuel_tx::ContractId as core::str::FromStr>::from_str(text) {
        Ok(id) => Some(<[u8; 32]>::from(id)),
        Err(_) => None,
    }
}

/// What a contract id given on the command line or in a deployment record reads as: the
/// text trimmed of white space, without every leading `fuel`.
pub open spec fn contract_id_text(raw: Seq<char>) -> Seq<char> {
    strip_fuel(trim_end(trim_start(raw)))
}

/// The contract id that text names, if any.
pub open spec fn contract_id_parsed(raw: Seq<char>) -> Option<Seq<u8>> {
    hex32_text(contract_id_text(raw))
}

fn is_white_char(c: char) -> (b: bool)
    ensures
        b == is_white(c),
{
    let u = c as u32;
    u == 0x20 || (0x09 <= u && u <= 0x0d) || u == 0x85 || u == 0xa0 || u == 0x1680 || (0x2000
        <= u && u <= 0x200a) || u == 0x2028 || u == 0x2029 || u == 0x202f || u == 0x205f || u
        == 0x3000
}

/// The start of what is left of `raw[lo..hi]` once every leading `fuel` is dropped.
fn skip_fuel(raw: &str, lo: usize, hi: usize) -> (r: usize)
    requires
        lo <= hi <= raw@.len(),
    ensures
        lo <= r <= hi,
        strip_fuel(raw@.subrange(lo as int, hi as int)) == raw@.subrange(r as int, hi as int),
{
    let ghost target = strip_fuel(raw@.subrange(lo as int, hi as int));
    let mut k: usize = lo;
    while hi - k >= 4 && raw.get_char(k) == 'f' && raw.get_char(k + 1) == 'u' && raw.get_char(k + 2)
        == 'e' && raw.get_char(k + 3) == 'l'
        invariant
            lo <= k <= hi <= raw@.len(),
            strip_fuel(raw@.subrange(k as int, hi as int)) == target,
        decreases hi - k,
    {
        proof {
            let s = raw@.subrange(k as int, hi as int);
            assert(s.take(4) =~= seq!['f', 'u', 'e', 'l']);
            assert(s.skip(4) =~= raw@.subrange(k + 4, hi as int));
        }
        k = k + 4;
    }
    proof {
        let s = raw@.subrange(k as int, hi as int);
        if s.len() >= 4 && s.take(4) == seq!['f', 'u', 'e', 'l'] {
            assert(s[0] == s.take(4)[0]);
            assert(s[1] == s.take(4)[1]);
            assert(s[2] == s.take(4)[2]);
            assert(s[3] == s.take(4)[3]);
        }
    }
    k
}

/// The contract id a deployment record holds, as the game client reads it: every leading
/// `fuel` dropped, then read as hexadecimal.
pub fn parse_record_contract_id(raw: &str) -> (r: Option<[u8; 32]>)
    ensures
        match hex32_text(strip_fuel(raw@)) {
            Some(bytes) => r matches Some(id) && id@ == bytes,
            None => r is None,
        },
{
    let n = raw.unicode_len();
    proof {
        assert(raw@.subrange(0, n as int) =~= raw@);
    }
    let lo = skip_fuel(raw, 0, n);
    let cleaned = raw.substring_char(lo, n);
    contract_id_from_str(cleaned)
}

/// A contract id from the text of the command line or of a deployment record: trimmed of
/// white space, with every leading `fuel` dropped, then read as hexadecimal.
pub fn parse_contract_id(raw: &str) -> (r: Option<[u8; 32]>)
    ensures
        match contract_id_parsed(raw@) {
            Some(bytes) => r matches Some(id) && id@ == bytes,
            None => r is None,
        },
{
    let n = raw.unicode_len();
    let mut lo: usize = 0;
    proof {
        assert(raw@.subrange(0, n as int) =~= raw@);
    }
    while lo < n && is_white_char(raw.get_char(lo))
        invariant
            lo <= n,
            n == raw@.len(),
            trim_start(raw@.subrange(lo as int, n as int)) == trim_start(raw@),
        decreases n - lo,
    {
        proof {
            assert(raw@.subrange(lo as int, n as int).skip(1) =~= raw@.subrange(lo + 1, n as int));
        }
        lo = lo + 1;
    }
    proof {
        assert(trim_start(raw@) == raw@.subrange(lo as int, n as int));
    }
    let mut hi: usize = n;
    while hi > lo && is_white_char(raw.get_char(hi - 1))
        invariant
            lo <= hi <= n,
            n == raw@.len(),
            trim_end(raw@.subrange(lo as int, hi as int)) == trim_end(trim_start(raw@)),
        decreases hi - lo,
    {
        proof {
            assert(raw@.subrange(lo as int, hi as int).drop_last() =~= raw@.subrange(lo as int, hi - 1));
        }
        hi = hi - 1;
    }
    proof {
        assert(trim_end(trim_start(raw@)) == raw@.subrange(lo as int, hi as int));
    }
    let lo = skip_fuel(raw, lo, hi);
    let cleaned = raw.substring_char(lo, hi);
    contract_id_from_str(cleaned)
}

/// Why the indexer cannot start.
#[derive(Clone, Copy, Debug, PartialEq, Eq, Structural)]
pub enum IndexerStartError {
    /// The deployment record it would follow holds a contract id that does not parse.
    RecordContractId,
    /// No deployment record applies and no contract id was given.
    NoRecord,
    /// The record's deployment block height does not fit in 32 bits.
    HeightTooLarge,
    /// No deployment record applies and no start height was given.
    NoStartHeight,
}

/// How the indexer starts.
#[derive(Clone, Debug)]
pub struct IndexerStart {
    /// The contract whose events it indexes.
    pub contract_id: [u8; 32],
    /// The deployment record it follows, if any.
    pub record_used: Option<DeploymentRecord>,
    /// The height asked for: the record's deployment height or the given start height.
    pub requested_start_height: u32,
    /// The height it indexes from: the requested one, or the last indexed one when higher.
    pub start_height: u32,
    /// The height the event stream reads from: one block earlier than `start_height` when it
    /// must take in the deployment block itself.
    pub event_start_height: u32,
}

/// The stored deployment record the indexer follows: the stored one when no contract id was
/// given, and when one was, the stored one only if its contract id reads as that id.
pub open spec fn selected_record(record: Option<DeploymentRecord>, cli_contract: Option<[u8; 32]>) -> Option<DeploymentRecord> {
    match cli_contract {
        None => record,
        Some(cid) => match record {
            Some(rec) => if contract_id_parsed(rec.contract_id@) == Some(cid@) {
                Some(rec)
            } else {
                None
            },
            None => None,
        },
    }
}

/// The height asked for: the given start height, else the record's deployment height,
/// else zero.
pub open spec fn requested_height(record_height: u32, start_override: Option<u32>) -> u32 {
    match start_override {
        Some(h) => h,
        None => record_height,
    }
}

/// The height indexing resumes from: never below what was already indexed.
pub open spec fn resumed_height(requested: u32, last_indexed: Option<u32>) -> u32 {
    match last_indexed {
        Some(h) => if h > requested { h } else { requested },
        None => requested,
    }
}

/// The height the event stream starts at: one block back, to take in the deployment block,
/// when a record is followed from its deployment height on a fresh store.
pub open spec fn event_height(start: u32, from_record: bool, start_override: Option<u32>, last_indexed: Option<u32>) -> u32 {
    if from_record && last_indexed is None && start_override is None && start > 0 {
        (start - 1) as u32
    } else {
        start
    }
}

/// The start of the indexer for a contract, a followed record and a record height.
pub open spec fn start_for(
    contract_id: [u8; 32],
    record_used: Option<DeploymentRecord>,
    record_height: u32,
    start_override: Option<u32>,
    last_indexed: Option<u32>,
) -> IndexerStart {
    let requested = requested_height(record_height, start_override);
    let start = resumed_height(requested, last_indexed);
    IndexerStart {
        contract_id,
        record_used,
        requested_start_height: requested,
        start_height: start,
        event_start_height: event_height(start, record_used is Some, start_override, last_indexed),
    }
}

/// How the indexer starts from the stored deployment record, the contract id and start
/// height given on the command line, and the last height already indexed.
pub open spec fn indexer_start_result(
    record: Option<DeploymentRecord>,
    cli_contract: Option<[u8; 32]>,
    start_override: Option<u32>,
    last_indexed: Option<u32>,
) -> Result<IndexerStart, IndexerStartError> {
    match selected_record(record, cli_contract) {
        Some(rec) => match contract_id_parsed(rec.contract_id@) {
            None => Err(IndexerStartError::RecordContractId),
            Some(bytes) => match rec.deployment_block_height {
                Some(h) => if h > u32::MAX {
                    Err(IndexerStartError::HeightTooLarge)
                } else {
                    Ok(start_for(bytes_as_id(bytes), Some(rec), h as u32, start_override, last_indexed))
                },
                None => Ok(start_for(bytes_as_id(bytes), Some(rec), 0, start_override, last_indexed)),
            },
        },
        None => match cli_contract {
            None => Err(IndexerStartError::NoRecord),
            Some(cid) => if start_override is None {
                Err(IndexerStartError::NoStartHeight)
            } else {
                Ok(start_for(cid, None, 0, start_override, last_indexed))
            },
        },
    }
}

/// The 32-byte array whose bytes are these.
pub open spec fn bytes_as_id(bytes: Seq<u8>) -> [u8; 32] {
    choose|id: [u8; 32]| id@ == bytes
}

proof fn lemma_id_from_bytes(a: [u8; 32], b: [u8; 32])
    requires
        a@ == b@,
    ensures
        a == b,
        bytes_as_id(a@) == a,
{
    broadcast use vstd::array::group_array_axioms;

    assert(a =~= b) by {
        assert forall|i: int| 0 <= i < 32 implies a[i] == b[i] by {
            assert(a@[i] == b@[i]);
        }
    }
    let c = bytes_as_id(a@);
    assert(c@ == a@);
    assert(c =~= a) by {
        assert forall|i: int| 0 <= i < 32 implies c[i] == a[i] by {
            assert(c@[i] == a@[i]);
        }
    }
}

/// Decides how the indexer starts: which contract it follows and from which height.
///
/// A stored deployment record is followed when no contract id is given, or when its own
/// contract id reads as the given one; the record's contract id must then parse and its
/// deployment height fit in 32 bits. Without a record a contract id and a start height must
/// be given. A given start height replaces the record's; indexing never resumes below the
/// last indexed height; and a record followed from its own height on an empty store makes
/// the event stream start one block earlier, at the deployment block.
pub fn indexer_start(
    record: Option<DeploymentRecord>,
    cli_contract: Option<[u8; 32]>,
    start_override: Option<u32>,
    last_indexed: Option<u32>,
) -> (r: Result<IndexerStart, IndexerStartError>)
    ensures
        r == indexer_start_result(record, cli_contract, start_override, last_indexed),
{
    let selected: Option<(DeploymentRecord, [u8; 32])> = match record {
        Some(rec) => match parse_contract_id(rec.contract_id.as_str()) {
            Some(id) => match cli_contract {
                None => Some((rec, id)),
                Some(cid) => {
                    proof {
                        if id@ == cid@ {
                            lemma_id_from_bytes(id, cid);
                        }
                    }
                    if bytes32_eq(&id, &cid) {
                        Some((rec, id))
                    } else {
                        None
                    }
                },
            },
            None => match cli_contract {
                None => return Err(IndexerStartError::RecordContractId),
                Some(_) => None,
            },
        },
        None => None,
    };
    match selected {
        Some((rec, id)) => {
            proof {
                lemma_id_from_bytes(id, id);
            }
            let base: u32 = match rec.deployment_block_height {
                Some(h) => {
                    if h > 0xffff_ffffu64 {
                        return Err(IndexerStartError::HeightTooLarge);
                    }
                    h as u32
                },
                None => 0,
            };
            Ok(plan_start(id, Some(rec), base, start_override, last_indexed))
        },
        None => match cli_contract {
            None => Err(IndexerStartError::NoRecord),
            Some(cid) => {
                if start_override.is_none() {
                    return Err(IndexerStartError::NoStartHeight);
                }
                Ok(plan_start(cid, None, 0, start_override, last_indexed))
            },
        },
    }
}

fn plan_start(
    contract_id: [u8; 32],
    record_used: Option<DeploymentRecord>,
    record_height: u32,
    start_override: Option<u32>,
    last_indexed: Option<u32>,
) -> (r: IndexerStart)
    ensures
        r == start_for(contract_id, record_used, record_height, start_override, last_indexed),
{
    let requested = match start_override {
        Some(h) => h,
        None => record_height,
    };
    let start = match last_indexed {
        Some(h) => if h > requested { h } else { requested },
        None => requested,
    };
    let backfill = record_used.is_some() && last_indexed.is_none() && start_override.is_none();
    let event = if backfill {
        start.saturating_sub(1)
    } else {
        start
    };
    IndexerStart {
        contract_id,
        record_used,
        requested_start_height: requested,
        start_height: start,
        event_start_height: event,
    }
}


/// The indexer never starts below what it has already indexed nor below the height asked
/// for, and the event stream starts at most one block earlier, and only for a followed
/// record on a fresh store.
pub proof fn law_indexer_never_rewinds(
    record: Option<DeploymentRecord>,
    cli_contract: Option<[u8; 32]>,
    start_override: Option<u32>,
    last_indexed: Option<u32>,
)
    ensures
        indexer_start_result(record, cli_contract, start_override, last_indexed) matches Ok(s) ==> {
            &&& s.start_height >= s.requested_start_height
            &&& (last_indexed matches Some(h) ==> s.start_height >= h)
            &&& s.event_start_height <= s.start_height <= s.event_start_height + 1
            &&& (s.event_start_height < s.start_height ==> s.record_used is Some && last_indexed is None
                && start_override is None)
        },
{
}

} // verus!
