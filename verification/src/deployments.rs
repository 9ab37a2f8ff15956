//! Records of the contract's deployments, one file per network, and the hash of the
//! bytecode that a record was deployed from.
use vstd::prelude::*;
use vstd::string::{StringExecFns, StringSliceAdditionalSpecFns};
use vstd::utf8::{decode_utf8, encode_utf8, encode_utf8_decode_utf8, is_char_boundary};
use crate::crypto::{sha256_digest, sha256_of};

verus! {

/// The networks a deployment can target.
#[derive(Clone, Copy, Debug, PartialEq, Eq, Structural)]
pub enum DeploymentEnv {
    Dev,
    Test,
    Local,
}

/// The directory under `.deployments` that holds a network's records.
pub open spec fn env_dir(env: DeploymentEnv) -> Seq<char> {
    match env {
        DeploymentEnv::Dev => seq!['d', 'e', 'v'],
        DeploymentEnv::Test => seq!['t', 'e', 's', 't'],
        DeploymentEnv::Local => seq!['l', 'o', 'c', 'a', 'l'],
    }
}

/// The name under which a network is shown.
pub open spec fn env_title(env: DeploymentEnv) -> Seq<char> {
    match env {
        DeploymentEnv::Dev => seq!['D', 'e', 'v', 'n', 'e', 't'],
        DeploymentEnv::Test => seq!['T', 'e', 's', 't', 'n', 'e', 't'],
        DeploymentEnv::Local => seq!['L', 'o', 'c', 'a', 'l'],
    }
}

impl DeploymentEnv {
    pub fn dir_name(self) -> (r: &'static str)
        ensures
            r@ == env_dir(self),
    {
        match self {
            DeploymentEnv::Dev => {
                proof {
                    reveal_strlit("dev");
                }
                "dev"
            },
            DeploymentEnv::Test => {
                proof {
                    reveal_strlit("test");
                }
                "test"
            },
            DeploymentEnv::Local => {
                proof {
                    reveal_strlit("local");
                }
                "local"
            },
        }
    }

    /// The network's name for display.
    pub fn display_name(self) -> (r: &'static str)
        ensures
            r@ == env_title(self),
    {
        match self {
            DeploymentEnv::Dev => {
                proof {
                    reveal_strlit("Devnet");
                }
                "Devnet"
            },
            DeploymentEnv::Test => {
                proof {
                    reveal_strlit("Testnet");
                }
                "Testnet"
            },
            DeploymentEnv::Local => {
                proof {
                    reveal_strlit("Local");
                }
                "Local"
            },
        }
    }
}

/// One deployment of the contract.
#[derive(Clone, Debug, PartialEq, Eq)]
pub struct DeploymentRecord {
    pub deployed_at: String,
    pub contract_id: String,
    pub bytecode_hash: String,
    pub network_url: String,
    pub chip_asset_id: Option<String>,
    pub chip_asset_ticker: Option<String>,
    pub contract_salt: Option<String>,
    pub vrf_salt: Option<String>,
    pub vrf_contract_id: Option<String>,
    pub vrf_bytecode_hash: Option<String>,
    pub deployment_block_height: Option<u64>,
    pub roll_frequency: Option<u32>,
}

impl DeploymentRecord {
    /// The record was deployed from bytecode with the given hash.
    pub fn is_compatible_with_hash(&self, hash: &str) -> (r: bool)
        ensures
            r == (self.bytecode_hash@ == hash@),
    {
        let other = hash.to_owned();
        self.bytecode_hash == other
    }

    /// The record of a fresh deployment made at `deployed_at`: the contract, the hash of its
    /// bytecode, the network and the chip asset; nothing else is known of it yet.
    pub fn new_deployment(
        deployed_at: String,
        contract_id: String,
        bytecode_hash: String,
        network_url: String,
        chip_asset_id: Option<String>,
        chip_asset_ticker: Option<String>,
    ) -> (r: Self)
        ensures
            r.deployed_at == deployed_at,
            r.contract_id == contract_id,
            r.bytecode_hash == bytecode_hash,
            r.network_url == network_url,
            r.chip_asset_id == chip_asset_id,
            r.chip_asset_ticker == chip_asset_ticker,
            r.contract_salt is None,
            r.vrf_salt is None,
            r.vrf_contract_id is None,
            r.vrf_bytecode_hash is None,
            r.deployment_block_height is None,
            r.roll_frequency is None,
    {
        DeploymentRecord {
            deployed_at,
            contract_id,
            bytecode_hash,
            network_url,
            chip_asset_id,
            chip_asset_ticker,
            contract_salt: None,
            vrf_salt: None,
            vrf_contract_id: None,
            vrf_bytecode_hash: None,
            deployment_block_height: None,
            roll_frequency: None,
        }
    }
}

/// Why the records of a network could not be read.
#[derive(Clone, Copy, Debug, PartialEq, Eq, Structural)]
pub enum DeploymentError {
    /// The file holds neither one record nor a list of records.
    UnparsableRecord,
    /// The network has no deployment yet.
    NoDeployments,
}

/// The file of a network's deployment records, relative to the working directory.
pub open spec fn store_path(env: DeploymentEnv) -> Seq<char> {
    seq!['.', 'd', 'e', 'p', 'l', 'o', 'y', 'm', 'e', 'n', 't', 's', '/'] + env_dir(env) + seq![
        '/',
        'd',
        'e',
        'p',
        'l',
        'o',
        'y',
        'm',
        'e',
        'n',
        't',
        's',
        '.',
        'j',
        's',
        'o',
        'n',
    ]
}

/// The record file of one network.
#[derive(Debug, PartialEq, Eq)]
pub struct DeploymentStore {
    path: String,
}

impl DeploymentStore {
    pub closed spec fn path_view(&self) -> Seq<char> {
        self.path@
    }

    /// The store of the network's records, at `.deployments/<network>/deployments.json`.
    pub fn new(env: DeploymentEnv) -> (s: Self)
        ensures
            s.path_view() == store_path(env),
    {
        let mut path = String::from_str(".deployments/");
        path.append(env.dir_name());
        path.append("/deployments.json");
        proof {
            reveal_strlit(".deployments/");
            reveal_strlit("/deployments.json");
            assert(path@ =~= store_path(env));
        }
        DeploymentStore { path }
    }

    pub fn path(&self) -> (r: &str)
        ensures
            r@ == self.path_view(),
    {
        self.path.as_str()
    }

    /// The record held by the store, given the contents of its file and what a JSON parse
    /// of them gives as one record and as a list of records.
    pub fn load(
        &self,
        data: &[u8],
        as_record: Option<DeploymentRecord>,
        as_list: Option<Vec<DeploymentRecord>>,
    ) -> (r: Result<Option<DeploymentRecord>, DeploymentError>)
        ensures
            r == read_outcome(data@, as_record, list_view(as_list)),
    {
        read_record(data, as_record, as_list)
    }
}

/// A parsed list of records, as a sequence.
pub open spec fn list_view(list: Option<Vec<DeploymentRecord>>) -> Option<Seq<DeploymentRecord>> {
    match list {
        Some(v) => Some(v@),
        None => None,
    }
}

/// A byte that `u8::is_ascii_whitespace` accepts: space, tab, line feed, form feed or
/// carriage return.
pub open spec fn is_ascii_whitespace(b: u8) -> bool {
    b == 0x20 || b == 0x09 || b == 0x0A || b == 0x0C || b == 0x0D
}

/// The file holds nothing but whitespace.
pub open spec fn is_blank(data: Seq<u8>) -> bool {
    forall|i: int| 0 <= i < data.len() ==> is_ascii_whitespace(#[trigger] data[i])
}

/// What reading a record file gives: nothing for a blank file, else the one record it
/// holds, else the last of the list of records it holds, else an error.
pub open spec fn read_outcome(
    data: Seq<u8>,
    as_record: Option<DeploymentRecord>,
    as_list: Option<Seq<DeploymentRecord>>,
) -> Result<Option<DeploymentRecord>, DeploymentError> {
    if is_blank(data) {
        Ok(None)
    } else if as_record is Some {
        Ok(as_record)
    } else if as_list is Some {
        let list = as_list.unwrap();
        if list.len() == 0 {
            Ok(None)
        } else {
            Ok(Some(list.last()))
        }
    } else {
        Err(DeploymentError::UnparsableRecord)
    }
}

fn is_blank_bytes(data: &[u8]) -> (r: bool)
    ensures
        r == is_blank(data@),
{
    let mut i: usize = 0;
    while i < data.len()
        invariant
            i <= data@.len(),
            forall|j: int| 0 <= j < i ==> is_ascii_whitespace(#[trigger] data@[j]),
        decreases data@.len() - i,
    {
        let b = data[i];
        if !(b == 0x20 || b == 0x09 || b == 0x0A || b == 0x0C || b == 0x0D) {
            return false;
        }
        i = i + 1;
    }
    true
}

/// Reads a record file from its contents and the results of parsing them as one record
/// and as a list of records.
pub fn read_record(
    data: &[u8],
    as_record: Option<DeploymentRecord>,
    as_list: Option<Vec<DeploymentRecord>>,
) -> (r: Result<Option<DeploymentRecord>, DeploymentError>)
    ensures
        r == read_outcome(data@, as_record, list_view(as_list)),
{
    if is_blank_bytes(data) {
        return Ok(None);
    }
    if as_record.is_some() {
        return Ok(as_record);
    }
    match as_list {
        Some(mut records) => Ok(records.pop()),
        None => Err(DeploymentError::UnparsableRecord),
    }
}

/// The latest deployment of a network, given what its store held.
pub fn latest_record(loaded: Option<DeploymentRecord>) -> (r: Result<DeploymentRecord, DeploymentError>)
    ensures
        match loaded {
            Some(record) => r == Ok::<DeploymentRecord, DeploymentError>(record),
            None => r == Err::<DeploymentRecord, DeploymentError>(DeploymentError::NoDeployments),
        },
{
    match loaded {
        Some(record) => Ok(record),
        None => Err(DeploymentError::NoDeployments),
    }
}

/// The record files that make up the deployment directory, one per network, in the
/// order Dev, Test, Local; the caller creates those that are missing.
pub fn ensure_structure() -> (r: Vec<String>)
    ensures
        r@.len() == 3,
        r@[0]@ == store_path(DeploymentEnv::Dev),
        r@[1]@ == store_path(DeploymentEnv::Test),
        r@[2]@ == store_path(DeploymentEnv::Local),
{
    let mut files: Vec<String> = Vec::new();
    let dev = DeploymentStore::new(DeploymentEnv::Dev);
    files.push(dev.path);
    let test = DeploymentStore::new(DeploymentEnv::Test);
    files.push(test.path);
    let local = DeploymentStore::new(DeploymentEnv::Local);
    files.push(local.path);
    files
}

/// The lowercase hexadecimal digit of a value below sixteen.
pub open spec fn hex_digit(n: u8) -> char {
    if n < 10 {
        (('0' as u8) + n) as char
    } else {
        (('a' as u8) + (n - 10)) as char
    }
}

/// Bytes written as lowercase hexadecimal, two digits per byte.
pub open spec fn lower_hex(bytes: Seq<u8>) -> Seq<char>
    decreases bytes.len(),
{
    if bytes.len() == 0 {
        Seq::empty()
    } else {
        lower_hex(bytes.drop_last()) + seq![hex_digit(bytes.last() / 16), hex_digit(bytes.last() % 16)]
    }
}

fn hex_digit_str(n: u8) -> (r: &'static str)
    requires
        n < 16,
    ensures
        r@ == seq![hex_digit(n)],
{
    match n {
        0 => { proof { reveal_strlit("0"); } "0" },
        1 => { proof { reveal_strlit("1"); } "1" },
        2 => { proof { reveal_strlit("2"); } "2" },
        3 => { proof { reveal_strlit("3"); } "3" },
        4 => { proof { reveal_strlit("4"); } "4" },
        5 => { proof { reveal_strlit("5"); } "5" },
        6 => { proof { reveal_strlit("6"); } "6" },
        7 => { proof { reveal_strlit("7"); } "7" },
        8 => { proof { reveal_strlit("8"); } "8" },
        9 => { proof { reveal_strlit("9"); } "9" },
        10 => { proof { reveal_strlit("a"); } "a" },
        11 => { proof { reveal_strlit("b"); } "b" },
        12 => { proof { reveal_strlit("c"); } "c" },
        13 => { proof { reveal_strlit("d"); } "d" },
        14 => { proof { reveal_strlit("e"); } "e" },
        _ => { proof { reveal_strlit("f"); } "f" },
    }
}

/// Bytes as lowercase hexadecimal text.
pub fn to_lower_hex(bytes: &[u8]) -> (r: String)
    ensures
        r@ == lower_hex(bytes@),
{
    let mut out = String::new();
    let mut i: usize = 0;
    while i < bytes.len()
        invariant
            i <= bytes@.len(),
            out@ == lower_hex(bytes@.take(i as int)),
        decreases bytes@.len() - i,
    {
        let b = bytes[i];
        out.append(hex_digit_str(b / 16));
        out.append(hex_digit_str(b % 16));
        proof {
            assert(bytes@.take(i + 1).drop_last() =~= bytes@.take(i as int));
        }
        i = i + 1;
    }
    proof {
        assert(bytes@.take(bytes@.len() as int) =~= bytes@);
    }
    out
}

/// A lowercase hexadecimal digit: `0` to `9` or `a` to `f`.
pub open spec fn is_lower_hex_char(c: char) -> bool {
    (0x30 <= (c as u32) && (c as u32) <= 0x39) || (0x61 <= (c as u32) && (c as u32) <= 0x66)
}

/// Bytes in lowercase hexadecimal take two characters each, and each is a lowercase
/// hexadecimal digit.
pub proof fn lemma_lower_hex_shape(b: Seq<u8>)
    ensures
        lower_hex(b).len() == 2 * b.len(),
        forall|i: int| 0 <= i < lower_hex(b).len() ==> is_lower_hex_char(#[trigger] lower_hex(b)[i]),
    decreases b.len(),
{
    if b.len() > 0 {
        lemma_lower_hex_shape(b.drop_last());
        let x = b.last();
        lemma_hex_digit_is_lower_hex(x / 16);
        lemma_hex_digit_is_lower_hex(x % 16);
        let l = lower_hex(b.drop_last());
        assert forall|i: int| 0 <= i < lower_hex(b).len() implies is_lower_hex_char(#[trigger] lower_hex(b)[i]) by {
            if i < l.len() {
                assert(lower_hex(b)[i] == l[i]);
            }
        }
    }
}

proof fn lemma_hex_digit_is_lower_hex(n: u8)
    requires
        n < 16,
    ensures
        is_lower_hex_char(hex_digit(n)),
{
    if n < 10 {
        assert(((('0' as u8) + n) as char) as u32 == 0x30 + n);
    } else {
        assert(((('a' as u8) + (n - 10)) as char) as u32 == 0x61 + n - 10);
    }
}

/// The hash under which a deployment records the contract's bytecode: the SHA-256 digest
/// of the bytes, in lowercase hexadecimal: sixty-four lowercase hexadecimal digits.
pub fn bytecode_hash(bytecode: &[u8]) -> (r: String)
    ensures
        r@ == lower_hex(sha256_of(bytecode@)),
        r@.len() == 64,
        forall|i: int| 0 <= i < r@.len() ==> is_lower_hex_char(#[trigger] r@[i]),
{
    let digest = sha256_digest(bytecode);
    proof {
        lemma_lower_hex_shape(digest@);
    }
    to_lower_hex(&digest)
}

/// How many bytes of a hash a preview shows.
pub open spec fn preview_len(hash: &str) -> int {
    if hash.len() < 16 {
        hash.len() as int
    } else {
        16
    }
}

/// The first sixteen bytes of a hash, followed by `...` when the hash is longer.
pub fn hash_preview(hash: &str) -> (r: String)
    requires
        is_char_boundary(hash.spec_bytes(), preview_len(hash)),
    ensures
        r@ == decode_utf8(hash.spec_bytes().subrange(0, preview_len(hash))) + if hash.len() > 16 {
            seq!['.', '.', '.']
        } else {
            Seq::<char>::empty()
        },
{
    let len = hash.len();
    let cut = if len < 16 {
        len
    } else {
        16
    };
    let (head, _) = hash.split_at(cut);
    let mut preview = head.to_owned();
    proof {
        encode_utf8_decode_utf8(head@);
        assert(head.spec_bytes() =~= hash.spec_bytes().subrange(0, preview_len(hash)));
    }
    if len > cut {
        preview.append("...");
        proof {
            reveal_strlit("...");
        }
    }
    preview
}

/// The length in bytes of a hash's text.
pub open spec fn text_len(h: Seq<char>) -> usize {
    encode_utf8(h).len() as usize
}

/// How many bytes of a hash's text a preview keeps.
pub open spec fn preview_cut(h: Seq<char>) -> int {
    if text_len(h) < 16 {
        text_len(h) as int
    } else {
        16
    }
}

/// The preview of a hash's text: its first sixteen bytes, then `...` when it is longer.
pub open spec fn preview_text(h: Seq<char>) -> Seq<char> {
    decode_utf8(encode_utf8(h).subrange(0, preview_cut(h))) + if text_len(h) > 16 {
        seq!['.', '.', '.']
    } else {
        Seq::<char>::empty()
    }
}

/// The preview of a hash's text cuts it between characters.
pub open spec fn previewable(h: Seq<char>) -> bool {
    is_char_boundary(encode_utf8(h), preview_cut(h))
}

/// The text or, when there is none, `fallback`.
pub open spec fn or_text(t: Option<String>, fallback: Seq<char>) -> Seq<char> {
    match t {
        Some(s) => s@,
        None => fallback,
    }
}

/// The chip asset's ticker in brackets, when known.
pub open spec fn ticker_part(t: Option<String>) -> Seq<char> {
    match t {
        Some(t) => " ("@ + t@ + ")"@,
        None => Seq::empty(),
    }
}

/// The start of the line describing a recorded deployment: when and what was deployed
/// where, and the preview of its bytecode hash.
pub open spec fn record_head(r: DeploymentRecord) -> Seq<char> {
    "\n  "@ + r.deployed_at@ + " - "@ + r.contract_id@ + " @ "@ + r.network_url@ + " (hash "@ + preview_text(
        r.bytecode_hash@,
    ) + ")"@
}

/// ` [compatible]` when the recorded bytecode hash is the local one.
pub open spec fn compat_part(r: DeploymentRecord, current_hash: Seq<char>) -> Seq<char> {
    if r.bytecode_hash@ == current_hash {
        " [compatible]"@
    } else {
        Seq::empty()
    }
}

/// The recorded chip asset, with its ticker.
pub open spec fn asset_part(r: DeploymentRecord) -> Seq<char> {
    " asset "@ + or_text(r.chip_asset_id, "(unknown asset)"@) + ticker_part(r.chip_asset_ticker)
}

/// The recorded salts and VRF contract.
pub open spec fn salts_part(r: DeploymentRecord) -> Seq<char> {
    " contract_salt "@ + or_text(r.contract_salt, "(unknown salt)"@) + " vrf_salt "@ + or_text(
        r.vrf_salt,
        "(unknown vrf salt)"@,
    ) + " vrf_contract "@ + or_text(r.vrf_contract_id, "(unknown vrf id)"@) + " vrf_hash "@ + or_text(
        r.vrf_bytecode_hash,
        "(unknown vrf hash)"@,
    )
}

/// The line describing a recorded deployment: when and what was deployed where, the
/// preview of its bytecode hash, whether it matches the local bytecode, its chip asset
/// (with its ticker) and its salts and VRF contract, each with a stand-in when unknown.
pub open spec fn record_line(r: DeploymentRecord, current_hash: Seq<char>) -> Seq<char> {
    record_head(r) + compat_part(r, current_hash) + asset_part(r) + salts_part(r)
}

/// The message shown when no deployment of the network at `url` matches the local
/// bytecode: what is recorded, the local hash's preview, and the records file.
pub open spec fn deployment_summary_text(
    env: DeploymentEnv,
    url: Seq<char>,
    path: Seq<char>,
    record: Option<DeploymentRecord>,
    current_hash: Seq<char>,
) -> Seq<char> {
    "No compatible deployment recorded for "@ + env_title(env) + " at "@ + url + ".\n\nRecorded deployment for "@
        + env_title(env) + ":"@ + (match record {
        Some(r) => record_line(r, current_hash),
        None => "\n  (none recorded)"@,
    }) + "\n\nCurrent local bytecode hash: "@ + preview_text(current_hash) + "\nDeployment records file: "@ + path
}

fn push_or(out: &mut String, t: &Option<String>, fallback: &str)
    ensures
        final(out)@ == old(out)@ + or_text(*t, fallback@),
{
    match t {
        Some(s) => out.append(s.as_str()),
        None => out.append(fallback),
    }
}

fn preview_of(h: &String) -> (r: String)
    requires
        previewable(h@),
    ensures
        r@ == preview_text(h@),
{
    let s = h.as_str();
    assert(s.spec_bytes() == encode_utf8(h@));
    hash_preview(s)
}

fn push_record_head(m: &mut String, rec: &DeploymentRecord)
    requires
        previewable(rec.bytecode_hash@),
    ensures
        final(m)@ == old(m)@ + record_head(*rec),
{
    let ghost start = m@;
    m.append("\n  ");
    m.append(rec.deployed_at.as_str());
    m.append(" - ");
    m.append(rec.contract_id.as_str());
    m.append(" @ ");
    m.append(rec.network_url.as_str());
    m.append(" (hash ");
    let preview = preview_of(&rec.bytecode_hash);
    m.append(preview.as_str());
    m.append(")");
    assert(m@ =~= start + record_head(*rec));
}

fn push_asset(m: &mut String, rec: &DeploymentRecord)
    ensures
        final(m)@ == old(m)@ + asset_part(*rec),
{
    let ghost start = m@;
    m.append(" asset ");
    push_or(m, &rec.chip_asset_id, "(unknown asset)");
    let ghost before_ticker = m@;
    match &rec.chip_asset_ticker {
        Some(t) => {
            m.append(" (");
            m.append(t.as_str());
            m.append(")");
        },
        None => {},
    }
    assert(m@ =~= before_ticker + ticker_part(rec.chip_asset_ticker));
    assert(m@ =~= start + asset_part(*rec));
}

fn push_salts(m: &mut String, rec: &DeploymentRecord)
    ensures
        final(m)@ == old(m)@ + salts_part(*rec),
{
    let ghost start = m@;
    m.append(" contract_salt ");
    push_or(m, &rec.contract_salt, "(unknown salt)");
    m.append(" vrf_salt ");
    push_or(m, &rec.vrf_salt, "(unknown vrf salt)");
    m.append(" vrf_contract ");
    push_or(m, &rec.vrf_contract_id, "(unknown vrf id)");
    m.append(" vrf_hash ");
    push_or(m, &rec.vrf_bytecode_hash, "(unknown vrf hash)");
    assert(m@ =~= start + salts_part(*rec));
}

fn push_record_line(m: &mut String, rec: &DeploymentRecord, current_hash: &String)
    requires
        previewable(rec.bytecode_hash@),
    ensures
        final(m)@ == old(m)@ + record_line(*rec, current_hash@),
{
    let ghost start = m@;
    push_record_head(m, rec);
    let ghost head = m@;
    if rec.is_compatible_with_hash(current_hash.as_str()) {
        m.append(" [compatible]");
    }
    assert(m@ =~= head + compat_part(*rec, current_hash@));
    push_asset(m, rec);
    push_salts(m, rec);
    assert(m@ =~= start + record_line(*rec, current_hash@));
}

/// The message shown when no recorded deployment of `env` at `url` matches the local
/// bytecode, whose hash is `current_hash`.
pub fn format_deployment_summary(
    env: DeploymentEnv,
    url: &str,
    store: &DeploymentStore,
    record: Option<&DeploymentRecord>,
    current_hash: &String,
) -> (r: String)
    requires
        previewable(current_hash@),
        match record {
            Some(rec) => previewable(rec.bytecode_hash@),
            None => true,
        },
    ensures
        r@ == deployment_summary_text(
            env,
            url@,
            store.path_view(),
            match record {
                Some(rec) => Some(*rec),
                None => None,
            },
            current_hash@,
        ),
{
    let mut m = "No compatible deployment recorded for ".to_owned();
    m.append(env.display_name());
    m.append(" at ");
    m.append(url);
    m.append(".\n\nRecorded deployment for ");
    m.append(env.display_name());
    m.append(":");
    let ghost head = m@;
    match record {
        Some(rec) => push_record_line(&mut m, rec, current_hash),
        None => m.append("\n  (none recorded)"),
    }
    let ghost body = m@;
    m.append("\n\nCurrent local bytecode hash: ");
    let current = preview_of(current_hash);
    m.append(current.as_str());
    m.append("\nDeployment records file: ");
    m.append(store.path());
    proof {
        let part = match record {
            Some(rec) => record_line(*rec, current_hash@),
            None => "\n  (none recorded)"@,
        };
        assert(body =~= head + part);
        assert(m@ =~= deployment_summary_text(
            env,
            url@,
            store.path_view(),
            match record {
                Some(rec) => Some(*rec),
                None => None,
            },
            current_hash@,
        ));
    }
    m
}

/// A strap as the game history files store it.
#[derive(Clone, Debug, PartialEq, Eq)]
pub struct StoredStrap {
    pub level: u8,
    pub kind: String,
    pub modifier: String,
}

/// A strap reward offered for a roll, as stored.
#[derive(Clone, Debug, PartialEq, Eq)]
pub struct StoredStrapReward {
    pub roll: String,
    pub strap: StoredStrap,
    pub cost: u64,
}

/// A modifier that became active on a roll, as stored.
#[derive(Clone, Debug, PartialEq, Eq)]
pub struct StoredModifier {
    pub roll: String,
    pub modifier: String,
    pub roll_index: u32,
}

/// A bet, as stored.
#[derive(Clone, Debug, PartialEq, Eq)]
pub struct StoredBet {
    pub bet_type: String,
    pub amount: u64,
    pub roll_index: u32,
    pub strap: Option<StoredStrap>,
}

/// The bets on one roll, as stored.
#[derive(Clone, Debug, PartialEq, Eq)]
pub struct StoredRollBets {
    pub roll: String,
    pub bets: Vec<StoredBet>,
}

/// A finished game, as stored.
#[derive(Clone, Debug, PartialEq, Eq)]
pub struct StoredGameHistory {
    pub game_id: u32,
    pub rolls: Vec<String>,
    pub modifiers: Vec<StoredModifier>,
    pub alice_bets: Vec<StoredRollBets>,
    pub strap_rewards: Vec<StoredStrapReward>,
    pub alice_claimed: bool,
}

} // verus!
