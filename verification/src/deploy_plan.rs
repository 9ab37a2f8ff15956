//! The decisions of the deployment tool before it talks to the network: which chip asset it
//! uses, which settings a deployment needs, and what an owner action is aimed at.
use vstd::prelude::*;
use vstd::utf8::encode_utf8;
use crate::client_config::{AssetIdError, hex_decoded, parse_asset_id, without_0x};
use crate::deployments::DeploymentRecord;
use crate::indexer_start::{contract_id_from_str, hex32_text};
use crate::types::Identity;

verus! {

/// What the deployment tool is asked to do.
#[derive(Clone, Copy, Debug, PartialEq, Eq, Structural)]
pub enum DeployAction {
    Deploy,
    Balance,
    Withdraw,
}

/// Why the deployment tool refuses its arguments or its stored record.
#[derive(Clone, Copy, Debug, PartialEq, Eq, Structural)]
pub enum DeployCliError {
    /// The chip asset id given or stored does not parse.
    InvalidChipAssetId(AssetIdError),
    /// A withdrawal was asked for without `--withdraw <amount>`.
    MissingWithdrawAmount,
    /// The stored deployment record holds a contract id that does not parse.
    InvalidStoredContractId,
    /// `--withdraw-to` is not an address.
    InvalidWithdrawTo,
    /// A deployment was asked for without `--roll-frequency`.
    MissingRollFrequency,
    /// A deployment was asked for with a roll frequency of zero.
    ZeroRollFrequency,
}

/// The chip asset id written as text: 32 bytes of hexadecimal, with or without `0x`.
pub open spec fn chip_asset_parsed(text: Seq<char>) -> Option<Seq<u8>> {
    match hex_decoded(without_0x(encode_utf8(text))) {
        Some(bytes) => if bytes.len() == 32 {
            Some(bytes)
        } else {
            None
        },
        None => None,
    }
}

/// What parsing a chip asset id gives: its 32 bytes, or why it does not parse.
pub open spec fn chip_asset_result(text: Seq<char>) -> Result<[u8; 32], AssetIdError> {
    match hex_decoded(without_0x(encode_utf8(text))) {
        None => Err(AssetIdError::InvalidHex),
        Some(bytes) => if bytes.len() == 32 {
            Ok(choose|id: [u8; 32]| id@ == bytes)
        } else {
            Err(AssetIdError::WrongLength)
        },
    }
}

fn parse_chip_text(text: &str) -> (r: Result<[u8; 32], AssetIdError>)
    ensures
        match r {
            Ok(id) => chip_asset_parsed(text@) == Some(id@),
            Err(e) => chip_asset_parsed(text@) is None && chip_asset_result(text@) == Err::<[u8; 32], AssetIdError>(e),
        },
{
    parse_asset_id(text.as_bytes())
}

/// The chip asset a deployment uses: the one given, else the chain's base asset.
pub fn deploy_chip_asset(arg: Option<&str>, base_asset_id: [u8; 32]) -> (r: Result<[u8; 32], DeployCliError>)
    ensures
        match arg {
            None => r == Ok::<[u8; 32], DeployCliError>(base_asset_id),
            Some(t) => match chip_asset_result(t@) {
                Ok(_) => r matches Ok(id) && chip_asset_parsed(t@) == Some(id@),
                Err(e) => r == Err::<[u8; 32], DeployCliError>(DeployCliError::InvalidChipAssetId(e)),
            },
        },
{
    match arg {
        None => Ok(base_asset_id),
        Some(t) => match parse_chip_text(t) {
            Ok(id) => Ok(id),
            Err(e) => Err(DeployCliError::InvalidChipAssetId(e)),
        },
    }
}

/// The withdrawal amount an action needs: a withdrawal must be given one.
pub fn withdraw_amount(action: DeployAction, withdraw: Option<u64>) -> (r: Result<Option<u64>, DeployCliError>)
    ensures
        action == DeployAction::Withdraw && withdraw is None ==> r == Err::<Option<u64>, DeployCliError>(
            DeployCliError::MissingWithdrawAmount,
        ),
        !(action == DeployAction::Withdraw && withdraw is None) ==> r == Ok::<Option<u64>, DeployCliError>(withdraw),
{
    match action {
        DeployAction::Withdraw => if withdraw.is_none() {
            Err(DeployCliError::MissingWithdrawAmount)
        } else {
            Ok(withdraw)
        },
        _ => Ok(withdraw),
    }
}

/// The blocks between rolls a deployment sets: it must be given, and be positive.
pub fn deploy_roll_frequency(roll_frequency: Option<u32>) -> (r: Result<u32, DeployCliError>)
    ensures
        match roll_frequency {
            None => r == Err::<u32, DeployCliError>(DeployCliError::MissingRollFrequency),
            Some(f) => if f == 0 {
                r == Err::<u32, DeployCliError>(DeployCliError::ZeroRollFrequency)
            } else {
                r == Ok::<u32, DeployCliError>(f)
            },
        },
{
    match roll_frequency {
        None => Err(DeployCliError::MissingRollFrequency),
        Some(f) => if f == 0 {
            Err(DeployCliError::ZeroRollFrequency)
        } else {
            Ok(f)
        },
    }
}

/// Calls `<fuel_tx::Address as FromStr>::from_str` on the text. The contract claims what the
/// source of `fuel-types` does, as for contract ids: it drops one leading `0x` and decodes
/// the rest into 32 bytes, which succeeds exactly on 64 hexadecimal digits.
#[verifier::external_body]
fn address_from_str(text: &str) -> (r: Option<[u8; 32]>)
    ensures
        match hex32_text(text@) {
            Some(bytes) => r matches Some(a) && a@ == bytes,
            None => r is None,
        },
{
    match <fuel_tx::Address as core::str::FromStr>::from_str(text) {
        Ok(address) => Some(<[u8; 32]>::from(address)),
        Err(_) => None,
    }
}

/// An address given on the command line: 64 hexadecimal digits, with or without `0x`.
pub fn parse_identity(raw: &str) -> (r: Option<Identity>)
    ensures
        match hex32_text(raw@) {
            Some(bytes) => r matches Some(Identity::Address(a)) && a@ == bytes,
            None => r is None,
        },
{
    match address_from_str(raw) {
        Some(a) => Some(Identity::Address(a)),
        None => None,
    }
}

/// What a balance query or a withdrawal is aimed at.
#[derive(Clone, Copy, Debug, PartialEq, Eq)]
pub struct OwnerTarget {
    /// The deployed contract, as the stored record names it.
    pub contract_id: [u8; 32],
    /// The chip asset: the one given, else the stored one, else the chain's base asset.
    pub chip_asset_id: [u8; 32],
    /// Where a withdrawal goes: the address given, else the tool's own wallet.
    pub withdraw_to: Option<Identity>,
}

/// Aims a balance query or a withdrawal: reads the stored record's contract id as it stands,
/// takes the chip asset given, else the stored one, else the base asset, and for a
/// withdrawal the destination given, else the wallet's own address.
pub fn owner_target(
    action: DeployAction,
    record: &DeploymentRecord,
    chip_arg: Option<&str>,
    base_asset_id: [u8; 32],
    withdraw_to: Option<&str>,
    wallet: [u8; 32],
) -> (r: Result<OwnerTarget, DeployCliError>)
    ensures
        hex32_text(record.contract_id@) is None ==> r == Err::<OwnerTarget, DeployCliError>(
            DeployCliError::InvalidStoredContractId,
        ),
        hex32_text(record.contract_id@) is Some ==> {
            let chip_text: Option<Seq<char>> = match chip_arg {
                Some(t) => Some(t@),
                None => match record.chip_asset_id {
                    Some(s) => Some(s@),
                    None => None,
                },
            };
            match chip_text {
                Some(t) if chip_asset_result(t) is Err => r == Err::<OwnerTarget, DeployCliError>(
                    DeployCliError::InvalidChipAssetId(chip_asset_result(t)->Err_0),
                ),
                _ => if action == DeployAction::Withdraw && (withdraw_to matches Some(w) && hex32_text(w@) is None) {
                    r == Err::<OwnerTarget, DeployCliError>(DeployCliError::InvalidWithdrawTo)
                } else {
                    r matches Ok(target) && {
                        &&& Some(target.contract_id@) == hex32_text(record.contract_id@)
                        &&& match chip_text {
                            Some(t) => Some(target.chip_asset_id@) == chip_asset_parsed(t),
                            None => target.chip_asset_id == base_asset_id,
                        }
                        &&& if action == DeployAction::Withdraw {
                            match withdraw_to {
                                Some(w) => target.withdraw_to matches Some(Identity::Address(a)) && Some(a@)
                                    == hex32_text(w@),
                                None => target.withdraw_to == Some(Identity::Address(wallet)),
                            }
                        } else {
                            target.withdraw_to is None
                        }
                    }
                },
            }
        },
{
    let contract_id = match contract_id_from_str(record.contract_id.as_str()) {
        Some(id) => id,
        None => return Err(DeployCliError::InvalidStoredContractId),
    };
    let chip_asset_id = match chip_arg {
        Some(t) => match parse_chip_text(t) {
            Ok(id) => id,
            Err(e) => return Err(DeployCliError::InvalidChipAssetId(e)),
        },
        None => match &record.chip_asset_id {
            Some(s) => match parse_chip_text(s.as_str()) {
                Ok(id) => id,
                Err(e) => return Err(DeployCliError::InvalidChipAssetId(e)),
            },
            None => base_asset_id,
        },
    };
    let target_identity = match action {
        DeployAction::Withdraw => match withdraw_to {
            Some(w) => match parse_identity(w) {
                Some(identity) => Some(identity),
                None => return Err(DeployCliError::InvalidWithdrawTo),
            },
            None => Some(Identity::Address(wallet)),
        },
        _ => None,
    };
    Ok(OwnerTarget { contract_id, chip_asset_id, withdraw_to: target_identity })
}


/// Which of the candidate contract binaries to load: the first that exists, given whether
/// each candidate exists; none when none of them does.
pub fn choose_binary(exists: &Vec<bool>) -> (r: Option<usize>)
    ensures
        match r {
            Some(i) => i < exists@.len() && exists@[i as int] && forall|j: int| 0 <= j < i ==> !exists@[j],
            None => forall|j: int| 0 <= j < exists@.len() ==> !exists@[j],
        },
{
    let mut i: usize = 0;
    while i < exists.len()
        invariant
            i <= exists@.len(),
            forall|j: int| 0 <= j < i ==> !exists@[j],
        decreases exists@.len() - i,
    {
        if exists[i] {
            return Some(i);
        }
        i = i + 1;
    }
    None
}

} // verus!
