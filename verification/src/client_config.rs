//! How the game client is configured, and what it decides from its configuration and the
//! recorded deployment before it connects.
use vstd::prelude::*;
use crate::deployments::{DeploymentRecord, lower_hex};
use crate::indexer_start::{contract_id_from_str, hex32_text, parse_record_contract_id, strip_fuel};
use crate::types::bytes32_eq;

verus! {

/// Which VRF contract the client drives.
#[derive(Clone, Copy, Debug, PartialEq, Eq, Structural)]
pub enum VrfMode {
    Fake,
    Pseudo,
}

/// The network the client talks to.
#[derive(Clone, Debug, PartialEq, Eq)]
pub enum NetworkTarget {
    Testnet { url: String },
    Devnet { url: String },
    LocalNode { url: String },
}

/// Where the client's wallet comes from: a forc keystore profile in a directory.
#[derive(Clone, Debug, PartialEq, Eq)]
pub enum WalletConfig {
    ForcKeystore { owner: String, dir: String },
}

/// The client's configuration.
#[derive(Clone, Debug, PartialEq, Eq)]
pub struct AppConfig {
    pub vrf_mode: VrfMode,
    pub network: NetworkTarget,
    pub wallets: WalletConfig,
    pub indexer_url: Option<String>,
}

/// The most gas a script of the client may use.
pub const DEFAULT_SAFE_SCRIPT_GAS_LIMIT: u64 = 29_000_000;

/// The script gas limit the client uses: one less than the chain's limit per transaction,
/// kept between 1 and `DEFAULT_SAFE_SCRIPT_GAS_LIMIT`.
pub open spec fn gas_limit_for(max_gas_per_tx: u64) -> u64 {
    let below: u64 = if max_gas_per_tx == 0 {
        0
    } else {
        (max_gas_per_tx - 1) as u64
    };
    if below < 1 {
        1
    } else if below > DEFAULT_SAFE_SCRIPT_GAS_LIMIT {
        DEFAULT_SAFE_SCRIPT_GAS_LIMIT
    } else {
        below
    }
}

pub fn safe_script_gas_limit(max_gas_per_tx: u64) -> (g: u64)
    ensures
        g == gas_limit_for(max_gas_per_tx),
{
    let below = max_gas_per_tx.saturating_sub(1);
    if below < 1 {
        1
    } else if below > DEFAULT_SAFE_SCRIPT_GAS_LIMIT {
        DEFAULT_SAFE_SCRIPT_GAS_LIMIT
    } else {
        below
    }
}

/// The VRF number the client starts with.
pub fn initial_vrf(mode: VrfMode) -> (n: u64)
    ensures
        mode == VrfMode::Fake ==> n == 19,
        mode == VrfMode::Pseudo ==> n == 0,
{
    match mode {
        VrfMode::Fake => 19,
        VrfMode::Pseudo => 0,
    }
}

/// The deployment the client plays against: the recorded one, when it was deployed from
/// the local bytecode; otherwise what was recorded, to explain the refusal.
pub fn select_deployment(record: Option<DeploymentRecord>, bytecode_hash: &str) -> (r: Result<
    DeploymentRecord,
    Option<DeploymentRecord>,
>)
    ensures
        match record {
            Some(rec) => if rec.bytecode_hash@ == bytecode_hash@ {
                r == Ok::<DeploymentRecord, Option<DeploymentRecord>>(rec)
            } else {
                r == Err::<DeploymentRecord, Option<DeploymentRecord>>(Some(rec))
            },
            None => r == Err::<DeploymentRecord, Option<DeploymentRecord>>(None),
        },
{
    match record {
        Some(rec) => {
            if rec.is_compatible_with_hash(bytecode_hash) {
                Ok(rec)
            } else {
                Err(Some(rec))
            }
        },
        None => Err(None),
    }
}

/// Why a chip asset id does not parse.
#[derive(Clone, Copy, Debug, PartialEq, Eq, Structural)]
pub enum AssetIdError {
    /// The text is not hexadecimal.
    InvalidHex,
    /// The text does not hold 32 bytes.
    WrongLength,
}

/// The value of a hexadecimal digit, in either case.
pub open spec fn hex_value(b: u8) -> Option<u8> {
    if 0x30 <= b && b <= 0x39 {
        Some((b - 0x30) as u8)
    } else if 0x41 <= b && b <= 0x46 {
        Some((b - 0x41 + 10) as u8)
    } else if 0x61 <= b && b <= 0x66 {
        Some((b - 0x61 + 10) as u8)
    } else {
        None
    }
}

/// The bytes that hexadecimal text stands for: none for text of odd length or with a
/// character that is not a hexadecimal digit.
pub open spec fn hex_decoded(text: Seq<u8>) -> Option<Seq<u8>> {
    if text.len() % 2 != 0 || exists|i: int| 0 <= i < text.len() && (#[trigger] hex_value(text[i])) is None {
        None
    } else {
        Some(
            Seq::new(
                text.len() / 2,
                |i: int| (hex_value(text[2 * i]).unwrap() * 16 + hex_value(text[2 * i + 1]).unwrap()) as u8,
            ),
        )
    }
}

/// Calls `hex::decode` on the bytes; the contract claims that it decodes hexadecimal text
/// of either case, two digits a byte, and fails on text of odd length or with any other
/// character, as the crate's source does.
#[verifier::external_body]
fn hex_decode(text: &[u8]) -> (r: Option<Vec<u8>>)
    ensures
        match r {
            Some(v) => hex_decoded(text@) == Some(v@),
            None => hex_decoded(text@) is None,
        },
{
    hex::decode(text).ok()
}

/// Calls `hex::encode` on 32 bytes; the contract claims that it writes each byte as two
/// lowercase hexadecimal digits, as the crate documents.
#[verifier::external_body]
pub(crate) fn hex_encode(bytes: &[u8; 32]) -> (r: String)
    ensures
        r@ == lower_hex(bytes@),
{
    hex::encode(bytes)
}

/// The text of an asset id without a leading `0x`.
pub open spec fn without_0x(raw: Seq<u8>) -> Seq<u8> {
    if raw.len() >= 2 && raw[0] == 0x30 && raw[1] == 0x78 {
        raw.skip(2)
    } else {
        raw
    }
}

/// A chip asset id from its hexadecimal text, with or without a leading `0x`.
pub fn parse_asset_id(raw: &[u8]) -> (r: Result<[u8; 32], AssetIdError>)
    ensures
        match hex_decoded(without_0x(raw@)) {
            None => r == Err::<[u8; 32], AssetIdError>(AssetIdError::InvalidHex),
            Some(bytes) => if bytes.len() == 32 {
                r matches Ok(id) && id@ == bytes
            } else {
                r == Err::<[u8; 32], AssetIdError>(AssetIdError::WrongLength)
            },
        },
{
    let start: usize = if raw.len() >= 2 && raw[0] == 0x30 && raw[1] == 0x78 {
        2
    } else {
        0
    };
    let mut cleaned: Vec<u8> = Vec::new();
    let mut i: usize = start;
    while i < raw.len()
        invariant
            start <= i <= raw@.len(),
            cleaned@ == raw@.subrange(start as int, i as int),
        decreases raw@.len() - i,
    {
        cleaned.push(raw[i]);
        proof {
            assert(raw@.subrange(start as int, i + 1) =~= raw@.subrange(start as int, i as int).push(raw@[i as int]));
        }
        i = i + 1;
    }
    proof {
        assert(cleaned@ =~= without_0x(raw@));
    }
    let bytes = match hex_decode(cleaned.as_slice()) {
        Some(b) => b,
        None => return Err(AssetIdError::InvalidHex),
    };
    if bytes.len() != 32 {
        return Err(AssetIdError::WrongLength);
    }
    let mut id = [0u8; 32];
    let mut k: usize = 0;
    while k < 32
        invariant
            k <= 32,
            bytes@.len() == 32,
            forall|j: int| 0 <= j < k ==> id@[j] == bytes@[j],
        decreases 32 - k,
    {
        id[k] = bytes[k];
        k = k + 1;
    }
    assert(id@ =~= bytes@);
    Ok(id)
}


/// The contracts and the chip asset a remote game client uses, read from the deployment
/// record it plays against.
#[derive(Clone, Debug)]
pub struct RemoteContracts {
    pub contract_id: [u8; 32],
    pub chip_asset_id: [u8; 32],
    pub chip_asset_ticker: Option<String>,
    /// The VRF contract the record names; without one the client asks the game contract.
    pub vrf_contract_id: Option<[u8; 32]>,
}

/// Why the deployment record cannot be played against.
#[derive(Clone, Copy, Debug, PartialEq, Eq, Structural)]
pub enum RemoteSetupError {
    InvalidContractId,
    InvalidChipAssetId,
    InvalidVrfContractId,
}

/// Calls `<fuel_tx::AssetId as FromStr>::from_str` on the text. The contract claims what the
/// source of `fuel-types` does, as for contract ids: it drops one leading `0x` and decodes
/// the rest into 32 bytes, which succeeds exactly on 64 hexadecimal digits.
#[verifier::external_body]
fn asset_id_from_str(text: &str) -> (r: Option<[u8; 32]>)
    ensures
        match hex32_text(text@) {
            Some(bytes) => r matches Some(id) && id@ == bytes,
            None => r is None,
        },
{
    match <fuel_tx::AssetId as core::str::FromStr>::from_str(text) {
        Ok(id) => Some(<[u8; 32]>::from(id)),
        Err(_) => None,
    }
}

/// Reads the contract ids and the chip asset of the deployment record the client plays
/// against. The record's contract id is read without its leading `fuel`s, the VRF contract
/// id as it stands; a record without a chip ticker names the chip `Gwei` when the chip is
/// the chain's base asset.
pub fn resolve_remote_contracts(record: &DeploymentRecord, base_asset_id: [u8; 32]) -> (r: Result<
    RemoteContracts,
    RemoteSetupError,
>)
    requires
        record.chip_asset_id is Some,
    ensures
        hex32_text(strip_fuel(record.contract_id@)) is None ==> r == Err::<
            RemoteContracts,
            RemoteSetupError,
        >(RemoteSetupError::InvalidContractId),
        hex32_text(strip_fuel(record.contract_id@)) is Some && hex32_text(record.chip_asset_id.unwrap()@) is None ==> r == Err::<RemoteContracts, RemoteSetupError>(
            RemoteSetupError::InvalidChipAssetId,
        ),
        hex32_text(strip_fuel(record.contract_id@)) is Some && hex32_text(record.chip_asset_id.unwrap()@) is Some && (record.vrf_contract_id matches Some(v) && hex32_text(v@) is None)
            ==> r == Err::<RemoteContracts, RemoteSetupError>(
            RemoteSetupError::InvalidVrfContractId,
        ),
        r is Ok <==> (hex32_text(strip_fuel(record.contract_id@)) is Some && hex32_text(record.chip_asset_id.unwrap()@) is Some && !(record.vrf_contract_id matches Some(v) && hex32_text(v@) is None)),
        r matches Ok(c) ==> {
            &&& Some(c.contract_id@) == hex32_text(strip_fuel(record.contract_id@))
            &&& Some(c.chip_asset_id@) == hex32_text(record.chip_asset_id.unwrap()@)
            &&& match record.vrf_contract_id {
                Some(v) => c.vrf_contract_id matches Some(id) && Some(id@) == hex32_text(v@),
                None => c.vrf_contract_id is None,
            }
            &&& match record.chip_asset_ticker {
                Some(t) => c.chip_asset_ticker == Some(t),
                None => if c.chip_asset_id == base_asset_id {
                    c.chip_asset_ticker matches Some(t) && t@ == "Gwei"@
                } else {
                    c.chip_asset_ticker is None
                },
            }
        },
{
    let contract_id = match parse_record_contract_id(record.contract_id.as_str()) {
        Some(id) => id,
        None => return Err(RemoteSetupError::InvalidContractId),
    };
    let chip_text = match &record.chip_asset_id {
        Some(t) => t,
        None => return Err(RemoteSetupError::InvalidChipAssetId),
    };
    let chip_asset_id = match asset_id_from_str(chip_text.as_str()) {
        Some(id) => id,
        None => return Err(RemoteSetupError::InvalidChipAssetId),
    };
    let vrf_contract_id = match &record.vrf_contract_id {
        Some(v) => match contract_id_from_str(v.as_str()) {
            Some(id) => Some(id),
            None => return Err(RemoteSetupError::InvalidVrfContractId),
        },
        None => None,
    };
    let chip_asset_ticker = match &record.chip_asset_ticker {
        Some(t) => Some(t.clone()),
        None => if bytes32_eq(&chip_asset_id, &base_asset_id) {
            proof {
                reveal_strlit("Gwei");
            }
            Some("Gwei".to_owned())
        } else {
            None
        },
    };
    Ok(RemoteContracts { contract_id, chip_asset_id, chip_asset_ticker, vrf_contract_id })
}

/// The RPC endpoint of the Fuel testnet.
pub const DEFAULT_TESTNET_RPC_URL: &'static str = "https://testnet.fuel.network";

/// The RPC endpoint of the Fuel devnet.
pub const DEFAULT_DEVNET_RPC_URL: &'static str = "https://devnet.fuel.network";

/// The RPC endpoint of a Fuel node on this machine.
pub const DEFAULT_LOCAL_RPC_URL: &'static str = "http://localhost:4000/";

/// A network flag of the command line.
#[derive(Clone, Copy, Debug, PartialEq, Eq, Structural)]
pub enum NetworkFlag {
    Devnet,
    Testnet,
    Local,
}

/// An option of the command line that takes a value.
#[derive(Clone, Copy, Debug, PartialEq, Eq, Structural)]
pub enum CliOption {
    RpcUrl,
    WalletDir,
    Wallet,
    IndexerUrl,
}

/// Why the command line was refused.
#[derive(Clone, Debug, PartialEq, Eq)]
pub enum CliError {
    /// More than one of `--devnet`, `--testnet`, `--local`.
    MultipleNetworks,
    /// An option came last, without its value.
    MissingValue(CliOption),
    /// An option was given twice.
    Repeated(CliOption),
    /// `--rpc-url` came before any network flag.
    RpcUrlWithoutNetwork,
    /// An argument that is no flag or option of the client.
    UnknownArgument(String),
    /// No network flag was given.
    NoNetwork,
    /// No `--wallet` was given.
    NoWallet,
}

/// What a valid command line asks of the client, before the wallet directory is resolved.
#[derive(Clone, Debug, PartialEq, Eq)]
pub struct CliArgs {
    pub vrf_mode: VrfMode,
    pub network: NetworkTarget,
    pub wallet: String,
    pub wallet_dir: Option<String>,
    pub indexer_url: Option<String>,
}

/// What the command line asks for: the usage text, or a game.
#[derive(Clone, Debug, PartialEq, Eq)]
pub enum CliRequest {
    Help,
    Run(CliArgs),
}

/// The options read so far, their text taken by its characters.
pub struct CliScan {
    pub vrf_mode: VrfMode,
    pub network: Option<NetworkFlag>,
    pub custom_url: Option<Seq<char>>,
    pub wallet_dir: Option<Seq<char>>,
    pub wallet: Option<Seq<char>>,
    pub indexer_url: Option<Seq<char>>,
}

/// Why a command line is refused, its text taken by its characters.
pub enum CliErrorModel {
    MultipleNetworks,
    MissingValue(CliOption),
    Repeated(CliOption),
    RpcUrlWithoutNetwork,
    UnknownArgument(Seq<char>),
    NoNetwork,
    NoWallet,
}

/// Where reading the arguments stops: at a request for help, at an error, or at the end.
pub enum ScanEnd {
    Help,
    Failed(CliErrorModel),
    Done(CliScan),
}

/// A network as a command line names it, with its endpoint's characters.
pub enum NetworkModel {
    Testnet(Seq<char>),
    Devnet(Seq<char>),
    LocalNode(Seq<char>),
}

/// A valid command line's request, its text taken by its characters.
pub enum CliRequestModel {
    Help,
    Run {
        vrf_mode: VrfMode,
        network: NetworkModel,
        wallet: Seq<char>,
        wallet_dir: Option<Seq<char>>,
        indexer_url: Option<Seq<char>>,
    },
}

pub open spec fn opt_view(o: Option<String>) -> Option<Seq<char>> {
    match o {
        Some(s) => Some(s@),
        None => None,
    }
}

pub open spec fn network_view(n: NetworkTarget) -> NetworkModel {
    match n {
        NetworkTarget::Testnet { url } => NetworkModel::Testnet(url@),
        NetworkTarget::Devnet { url } => NetworkModel::Devnet(url@),
        NetworkTarget::LocalNode { url } => NetworkModel::LocalNode(url@),
    }
}

pub open spec fn cli_error_view(e: CliError) -> CliErrorModel {
    match e {
        CliError::MultipleNetworks => CliErrorModel::MultipleNetworks,
        CliError::MissingValue(o) => CliErrorModel::MissingValue(o),
        CliError::Repeated(o) => CliErrorModel::Repeated(o),
        CliError::RpcUrlWithoutNetwork => CliErrorModel::RpcUrlWithoutNetwork,
        CliError::UnknownArgument(a) => CliErrorModel::UnknownArgument(a@),
        CliError::NoNetwork => CliErrorModel::NoNetwork,
        CliError::NoWallet => CliErrorModel::NoWallet,
    }
}

pub open spec fn cli_request_view(r: CliRequest) -> CliRequestModel {
    match r {
        CliRequest::Help => CliRequestModel::Help,
        CliRequest::Run(a) => CliRequestModel::Run {
            vrf_mode: a.vrf_mode,
            network: network_view(a.network),
            wallet: a.wallet@,
            wallet_dir: opt_view(a.wallet_dir),
            indexer_url: opt_view(a.indexer_url),
        },
    }
}

/// The scan before any argument: pseudo VRF, nothing else chosen.
pub open spec fn scan_start() -> CliScan {
    CliScan {
        vrf_mode: VrfMode::Pseudo,
        network: None,
        custom_url: None,
        wallet_dir: None,
        wallet: None,
        indexer_url: None,
    }
}

/// Reads the arguments from position `i` on, in the state `st`: flags set their choice; an
/// option takes the next argument as its value, and may be given once; `--rpc-url` needs a
/// network flag before it; `--help` or `-h` stops with a request for help; anything else is
/// refused.
pub open spec fn scan_from(args: Seq<Seq<char>>, i: nat, st: CliScan) -> ScanEnd
    decreases args.len() - i,
{
    if i >= args.len() {
        ScanEnd::Done(st)
    } else {
        let a = args[i as int];
        let has_value = i + 1 < args.len();
        let value = args[i + 1 as int];
        if a == "--fake-vrf"@ {
            scan_from(args, i + 1, CliScan { vrf_mode: VrfMode::Fake, ..st })
        } else if a == "--devnet"@ {
            if st.network is Some {
                ScanEnd::Failed(CliErrorModel::MultipleNetworks)
            } else {
                scan_from(args, i + 1, CliScan { network: Some(NetworkFlag::Devnet), ..st })
            }
        } else if a == "--testnet"@ {
            if st.network is Some {
                ScanEnd::Failed(CliErrorModel::MultipleNetworks)
            } else {
                scan_from(args, i + 1, CliScan { network: Some(NetworkFlag::Testnet), ..st })
            }
        } else if a == "--local"@ {
            if st.network is Some {
                ScanEnd::Failed(CliErrorModel::MultipleNetworks)
            } else {
                scan_from(args, i + 1, CliScan { network: Some(NetworkFlag::Local), ..st })
            }
        } else if a == "--rpc-url"@ {
            if !has_value {
                ScanEnd::Failed(CliErrorModel::MissingValue(CliOption::RpcUrl))
            } else if st.custom_url is Some {
                ScanEnd::Failed(CliErrorModel::Repeated(CliOption::RpcUrl))
            } else if st.network is None {
                ScanEnd::Failed(CliErrorModel::RpcUrlWithoutNetwork)
            } else {
                scan_from(args, i + 2, CliScan { custom_url: Some(value), ..st })
            }
        } else if a == "--wallet-dir"@ {
            if !has_value {
                ScanEnd::Failed(CliErrorModel::MissingValue(CliOption::WalletDir))
            } else if st.wallet_dir is Some {
                ScanEnd::Failed(CliErrorModel::Repeated(CliOption::WalletDir))
            } else {
                scan_from(args, i + 2, CliScan { wallet_dir: Some(value), ..st })
            }
        } else if a == "--wallet"@ {
            if !has_value {
                ScanEnd::Failed(CliErrorModel::MissingValue(CliOption::Wallet))
            } else if st.wallet is Some {
                ScanEnd::Failed(CliErrorModel::Repeated(CliOption::Wallet))
            } else {
                scan_from(args, i + 2, CliScan { wallet: Some(value), ..st })
            }
        } else if a == "--indexer-url"@ {
            if !has_value {
                ScanEnd::Failed(CliErrorModel::MissingValue(CliOption::IndexerUrl))
            } else if st.indexer_url is Some {
                ScanEnd::Failed(CliErrorModel::Repeated(CliOption::IndexerUrl))
            } else {
                scan_from(args, i + 2, CliScan { indexer_url: Some(value), ..st })
            }
        } else if a == "--help"@ || a == "-h"@ {
            ScanEnd::Help
        } else {
            ScanEnd::Failed(CliErrorModel::UnknownArgument(a))
        }
    }
}

/// The custom endpoint, else the network's own.
pub open spec fn endpoint(custom: Option<Seq<char>>, default: Seq<char>) -> Seq<char> {
    match custom {
        Some(u) => u,
        None => default,
    }
}

/// What a command line (the arguments after the program's name) asks for: once all
/// arguments are read, a network flag and a wallet are needed.
pub open spec fn cli_outcome(args: Seq<Seq<char>>) -> Result<CliRequestModel, CliErrorModel> {
    match scan_from(args, 0, scan_start()) {
        ScanEnd::Help => Ok(CliRequestModel::Help),
        ScanEnd::Failed(e) => Err(e),
        ScanEnd::Done(st) => match st.network {
            None => Err(CliErrorModel::NoNetwork),
            Some(flag) => match st.wallet {
                None => Err(CliErrorModel::NoWallet),
                Some(wallet) => Ok(
                    CliRequestModel::Run {
                        vrf_mode: st.vrf_mode,
                        network: match flag {
                            NetworkFlag::Devnet => NetworkModel::Devnet(
                                endpoint(st.custom_url, DEFAULT_DEVNET_RPC_URL@),
                            ),
                            NetworkFlag::Testnet => NetworkModel::Testnet(
                                endpoint(st.custom_url, DEFAULT_TESTNET_RPC_URL@),
                            ),
                            NetworkFlag::Local => NetworkModel::LocalNode(
                                endpoint(st.custom_url, DEFAULT_LOCAL_RPC_URL@),
                            ),
                        },
                        wallet,
                        wallet_dir: st.wallet_dir,
                        indexer_url: st.indexer_url,
                    },
                ),
            },
        },
    }
}

/// The characters of each argument.
pub open spec fn args_view(args: Seq<String>) -> Seq<Seq<char>> {
    args.map_values(|s: String| s@)
}

fn is_arg(arg: &String, flag: &str) -> (r: bool)
    ensures
        r == (arg@ == flag@),
{
    *arg == flag.to_owned()
}

fn copy_string(s: &String) -> (r: String)
    ensures
        r@ == s@,
{
    s.clone()
}

fn opt_url(custom: Option<String>, default: &str) -> (r: String)
    ensures
        r@ == endpoint(opt_view(custom), default@),
{
    match custom {
        Some(u) => u,
        None => default.to_owned(),
    }
}

/// Reads the client's command line: `args` are the arguments after the program's name.
pub fn parse_cli_args(args: &Vec<String>) -> (r: Result<CliRequest, CliError>)
    ensures
        match r {
            Ok(req) => cli_outcome(args_view(args@)) == Ok::<CliRequestModel, CliErrorModel>(cli_request_view(req)),
            Err(e) => cli_outcome(args_view(args@)) == Err::<CliRequestModel, CliErrorModel>(cli_error_view(e)),
        },
{
    let ghost av = args_view(args@);
    let mut vrf_mode = VrfMode::Pseudo;
    let mut network: Option<NetworkFlag> = None;
    let mut custom_url: Option<String> = None;
    let mut wallet_dir: Option<String> = None;
    let mut wallet: Option<String> = None;
    let mut indexer_url: Option<String> = None;
    let mut i: usize = 0;
    while i < args.len()
        invariant
            av == args_view(args@),
            i <= args@.len(),
            scan_from(av, 0, scan_start()) == scan_from(
                av,
                i as nat,
                CliScan {
                    vrf_mode,
                    network,
                    custom_url: opt_view(custom_url),
                    wallet_dir: opt_view(wallet_dir),
                    wallet: opt_view(wallet),
                    indexer_url: opt_view(indexer_url),
                },
            ),
        decreases args@.len() - i,
    {
        let ghost st = CliScan {
            vrf_mode,
            network,
            custom_url: opt_view(custom_url),
            wallet_dir: opt_view(wallet_dir),
            wallet: opt_view(wallet),
            indexer_url: opt_view(indexer_url),
        };
        let a = &args[i];
        assert(av[i as int] == a@);
        let has_value = i + 1 < args.len();
        proof {
            if has_value {
                assert(av[i + 1] == args@[i + 1]@);
            }
        }
        if is_arg(a, "--fake-vrf") {
            vrf_mode = VrfMode::Fake;
            i = i + 1;
        } else if is_arg(a, "--devnet") || is_arg(a, "--testnet") || is_arg(a, "--local") {
            let flag = if is_arg(a, "--devnet") {
                NetworkFlag::Devnet
            } else if is_arg(a, "--testnet") {
                NetworkFlag::Testnet
            } else {
                NetworkFlag::Local
            };
            if network.is_some() {
                return Err(CliError::MultipleNetworks);
            }
            network = Some(flag);
            i = i + 1;
        } else if is_arg(a, "--rpc-url") {
            if !has_value {
                return Err(CliError::MissingValue(CliOption::RpcUrl));
            }
            if custom_url.is_some() {
                return Err(CliError::Repeated(CliOption::RpcUrl));
            }
            if network.is_none() {
                return Err(CliError::RpcUrlWithoutNetwork);
            }
            custom_url = Some(copy_string(&args[i + 1]));
            i = i + 2;
        } else if is_arg(a, "--wallet-dir") {
            if !has_value {
                return Err(CliError::MissingValue(CliOption::WalletDir));
            }
            if wallet_dir.is_some() {
                return Err(CliError::Repeated(CliOption::WalletDir));
            }
            wallet_dir = Some(copy_string(&args[i + 1]));
            i = i + 2;
        } else if is_arg(a, "--wallet") {
            if !has_value {
                return Err(CliError::MissingValue(CliOption::Wallet));
            }
            if wallet.is_some() {
                return Err(CliError::Repeated(CliOption::Wallet));
            }
            wallet = Some(copy_string(&args[i + 1]));
            i = i + 2;
        } else if is_arg(a, "--indexer-url") {
            if !has_value {
                return Err(CliError::MissingValue(CliOption::IndexerUrl));
            }
            if indexer_url.is_some() {
                return Err(CliError::Repeated(CliOption::IndexerUrl));
            }
            indexer_url = Some(copy_string(&args[i + 1]));
            i = i + 2;
        } else if is_arg(a, "--help") || is_arg(a, "-h") {
            return Ok(CliRequest::Help);
        } else {
            return Err(CliError::UnknownArgument(copy_string(a)));
        }
    }
    let flag = match network {
        None => return Err(CliError::NoNetwork),
        Some(f) => f,
    };
    let wallet = match wallet {
        None => return Err(CliError::NoWallet),
        Some(w) => w,
    };
    let network = match flag {
        NetworkFlag::Devnet => NetworkTarget::Devnet { url: opt_url(custom_url, DEFAULT_DEVNET_RPC_URL) },
        NetworkFlag::Testnet => NetworkTarget::Testnet { url: opt_url(custom_url, DEFAULT_TESTNET_RPC_URL) },
        NetworkFlag::Local => NetworkTarget::LocalNode { url: opt_url(custom_url, DEFAULT_LOCAL_RPC_URL) },
    };
    Ok(CliRequest::Run(CliArgs { vrf_mode, network, wallet, wallet_dir, indexer_url }))
}

impl CliArgs {
    /// The client's configuration, with the wallet directory that was resolved for it.
    pub fn into_config(self, dir: String) -> (c: AppConfig)
        ensures
            c.vrf_mode == self.vrf_mode,
            c.network == self.network,
            c.wallets == (WalletConfig::ForcKeystore { owner: self.wallet, dir }),
            c.indexer_url == self.indexer_url,
    {
        AppConfig {
            vrf_mode: self.vrf_mode,
            network: self.network,
            wallets: WalletConfig::ForcKeystore { owner: self.wallet, dir },
            indexer_url: self.indexer_url,
        }
    }
}

} // verus!
