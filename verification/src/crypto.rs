//! Hashes computed by outside crates: the asset id under which the game contract mints a
//! strap, and the SHA-256 digest of contract bytecode.
use vstd::prelude::*;

verus! {

/// The asset id that `fuel_tx::ContractIdExt::asset_id` derives from a contract id and a
/// sub id.
pub uninterp spec fn asset_id_of(contract_id: [u8; 32], sub_id: [u8; 32]) -> [u8; 32];

/// The SHA-256 digest that `sha2::Sha256` computes of some bytes.
pub uninterp spec fn sha256_of(data: Seq<u8>) -> Seq<u8>;

/// Calls `fuel_tx::ContractIdExt::asset_id` on the contract id and the sub id. The contract
/// claims only that the result is the asset id named by `asset_id_of` for these two
/// arguments; what that hash is, is not stated.
#[verifier::external_body]
pub(crate) fn contract_asset_id(contract_id: &[u8; 32], sub_id: &[u8; 32]) -> (r: [u8; 32])
    ensures
        r == asset_id_of(*contract_id, *sub_id),
{
    let contract = fuel_tx::ContractId::new(*contract_id);
    let sub = fuel_tx::SubAssetId::new(*sub_id);
    let asset = fuel_tx::ContractIdExt::asset_id(&contract, &sub);
    <[u8; 32]>::from(asset)
}

/// Calls `sha2::Sha256::digest` on the bytes. The contract claims only that the 32-byte
/// result is the digest named by `sha256_of` for these bytes.
#[verifier::external_body]
pub(crate) fn sha256_digest(data: &[u8]) -> (r: [u8; 32])
    ensures
        r@ == sha256_of(data@),
{
    let digest = <sha2::Sha256 as sha2::Digest>::digest(data);
    <[u8; 32]>::from(digest)
}

} // verus!
