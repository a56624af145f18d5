use crate::errors::ErrorCode;
use crate::events::{MetadataUpdate, Mint, Transfer};
use crate::principal::Principal;
use vstd::prelude::*;

verus! {

/// The record of one asset: who owns it, where its metadata lies, and the
/// mint of the fungible shares in it.
#[derive(Clone, Debug, PartialEq, Eq)]
pub struct VehicleAccount {
    pub owner: Principal,
    pub vehicle_id: u64,
    pub metadata_uri: String,
    pub shares_mint: Principal,
}

/// The most bytes a metadata address may take.
pub const MAX_METADATA_URI_LEN: usize = 200;

/// Whether a metadata address fits the record, by its length in bytes.
pub open spec fn uri_fits(uri: String) -> bool {
    vstd::utf8::encode_utf8(uri@).len() <= MAX_METADATA_URI_LEN
}

/// Registers an asset for its minter, with the event that announces it. An
/// address that does not fit is refused.
pub fn mint_vehicle(
    minter: Principal,
    shares_mint: Principal,
    vehicle_id: u64,
    metadata_uri: String,
) -> (result: Result<(VehicleAccount, Mint), ErrorCode>)
    ensures
        result == if uri_fits(metadata_uri) {
            Ok::<(VehicleAccount, Mint), ErrorCode>(
                (
                    VehicleAccount { owner: minter, vehicle_id, metadata_uri, shares_mint },
                    Mint { minter, vehicle_id, metadata_uri },
                ),
            )
        } else {
            Err(ErrorCode::InvalidMetadata)
        },
{
    if metadata_uri.as_str().as_bytes().len() > MAX_METADATA_URI_LEN {
        return Err(ErrorCode::InvalidMetadata);
    }
    let announced = metadata_uri.clone();
    Ok(
        (
            VehicleAccount { owner: minter, vehicle_id, metadata_uri, shares_mint },
            Mint { minter, vehicle_id, metadata_uri: announced },
        ),
    )
}

/// Whether `caller` may dispose of the asset under the identifier named.
pub open spec fn owns(vehicle: VehicleAccount, caller: Principal, vehicle_id: u64) -> bool {
    vehicle.vehicle_id == vehicle_id && vehicle.owner == caller
}

/// Hands the asset from its owner to a new one.
pub fn transfer_vehicle(
    vehicle: &mut VehicleAccount,
    current_owner: Principal,
    new_owner: Principal,
    vehicle_id: u64,
) -> (result: Result<Transfer, ErrorCode>)
    ensures
        if owns(*old(vehicle), current_owner, vehicle_id) {
            result == Ok::<Transfer, ErrorCode>(
                Transfer { from: current_owner, to: new_owner, vehicle_id },
            ) && *final(vehicle) == (VehicleAccount { owner: new_owner, ..*old(vehicle) })
        } else {
            result == Err::<Transfer, ErrorCode>(ErrorCode::InvalidOwner) && *final(vehicle)
                == *old(vehicle)
        },
{
    if vehicle.vehicle_id != vehicle_id || !vehicle.owner.same_as(&current_owner) {
        return Err(ErrorCode::InvalidOwner);
    }
    vehicle.owner = new_owner;
    Ok(Transfer { from: current_owner, to: new_owner, vehicle_id })
}

/// Replaces the asset's metadata address, for its owner. The length is
/// looked at first.
pub fn update_metadata(
    vehicle: &mut VehicleAccount,
    owner: Principal,
    vehicle_id: u64,
    new_uri: String,
) -> (result: Result<MetadataUpdate, ErrorCode>)
    ensures
        if !uri_fits(new_uri) {
            result == Err::<MetadataUpdate, ErrorCode>(ErrorCode::InvalidMetadata) && *final(vehicle) == *old(vehicle)
        } else if !owns(*old(vehicle), owner, vehicle_id) {
            result == Err::<MetadataUpdate, ErrorCode>(ErrorCode::InvalidOwner) && *final(vehicle)
                == *old(vehicle)
        } else {
            result == Ok::<MetadataUpdate, ErrorCode>(MetadataUpdate { vehicle_id, new_uri })
                && *final(vehicle) == (VehicleAccount { metadata_uri: new_uri, ..*old(vehicle) })
        },
{
    if new_uri.as_str().as_bytes().len() > MAX_METADATA_URI_LEN {
        return Err(ErrorCode::InvalidMetadata);
    }
    if vehicle.vehicle_id != vehicle_id || !vehicle.owner.same_as(&owner) {
        return Err(ErrorCode::InvalidOwner);
    }
    let announced = new_uri.clone();
    vehicle.metadata_uri = new_uri;
    Ok(MetadataUpdate { vehicle_id, new_uri: announced })
}

} // verus!
