//! Construction of typed-transaction variants from a selector and a fee
//! profile.

use crate::codec::Address;
use vstd::prelude::*;

verus! {

/// Number of selectors in the closed probing set: codes `0` to `5`.
pub const SELECTOR_COUNT: u8 = 6;

/// The gas-price fields attached to one probing attempt.
#[derive(Clone, Copy, Debug)]
pub struct FeeProfile {
    /// Single gas price for the legacy-shaped variants, when suggested.
    pub suggested_gas_price: Option<u128>,
    /// Priority fee per gas of the fee-market variant.
    pub max_priority_fee_per_gas: u128,
    /// Fee-per-gas ceiling of the fee-market variant.
    pub max_fee_per_gas: u128,
}

/// The legacy-shaped body shared by the legacy and access-list variants.
#[derive(Debug)]
pub struct LegacyBase {
    pub sender: Address,
    pub recipient: Address,
    /// Transferred value in base units.
    pub value: u128,
    /// Single gas-price field; omitted when the profile suggests none.
    pub gas_price: Option<u128>,
}

/// One declared storage access of an access-list attachment.
#[derive(Debug)]
pub struct AccessListEntry {
    pub address: Address,
    pub storage_keys: Vec<Vec<u8>>,
}

/// A transaction variant as constructed by the builder, before signing.
#[derive(Debug)]
pub enum TransactionSpec {
    /// The single-gas-price format.
    Legacy(LegacyBase),
    /// A legacy-shaped body plus an explicit, possibly empty, access list.
    AccessList(LegacyBase, Vec<AccessListEntry>),
    /// The fee-market format with a priority fee and a fee ceiling.
    FeeMarket {
        sender: Address,
        recipient: Address,
        value: u128,
        max_priority_fee_per_gas: u128,
        max_fee_per_gas: u128,
    },
}

/// Why a selector was refused by the builder.
#[derive(Clone, Copy, Debug, PartialEq, Eq, Structural)]
pub enum BuildError {
    /// A selector of the closed set that the builder deliberately does not
    /// encode.
    UnsupportedType(u8),
    /// A selector outside the closed set.
    UnknownType(u8),
}

/// The selector-specific field rule of a built transaction: which variant a
/// supported selector yields and which fee fields it draws from the profile.
pub open spec fn built_spec_ok(
    tx: TransactionSpec,
    selector: u8,
    sender: Seq<u8>,
    recipient: Seq<u8>,
    value: u128,
    profile: FeeProfile,
) -> bool {
    if selector == 0 {
        tx matches TransactionSpec::Legacy(b) && b.sender@ == sender && b.recipient@ == recipient
            && b.value == value && b.gas_price == profile.suggested_gas_price
    } else if selector == 1 {
        tx matches TransactionSpec::AccessList(b, al) && b.sender@ == sender && b.recipient@
            == recipient && b.value == value && b.gas_price == profile.suggested_gas_price
            && al@.len() == 0
    } else if selector == 2 {
        tx matches TransactionSpec::FeeMarket {
            sender: s,
            recipient: t,
            value: v,
            max_priority_fee_per_gas: p,
            max_fee_per_gas: m,
        } && s@ == sender && t@ == recipient && v == value && p == profile.max_priority_fee_per_gas
            && m == profile.max_fee_per_gas
    } else {
        false
    }
}

/// Builds the transaction variant for `selector` from well-formed addresses, a
/// value in base units and a fee profile. Selectors `0` to `2` always succeed
/// and draw their fee fields from the profile; `3` to `5` always fail as
/// unsupported; anything higher always fails as unknown.
pub fn build(
    selector: u8,
    sender: &Address,
    recipient: &Address,
    value: u128,
    profile: &FeeProfile,
) -> (r: Result<TransactionSpec, BuildError>)
    ensures
        selector <= 2 ==> (r matches Ok(tx) && built_spec_ok(
            tx,
            selector,
            sender@,
            recipient@,
            value,
            *profile,
        )),
        3 <= selector <= 5 ==> r == Err::<TransactionSpec, BuildError>(
            BuildError::UnsupportedType(selector),
        ),
        selector > 5 ==> r == Err::<TransactionSpec, BuildError>(BuildError::UnknownType(selector)),
{
    if selector == 0 {
        Ok(
            TransactionSpec::Legacy(
                LegacyBase {
                    sender: sender.dup(),
                    recipient: recipient.dup(),
                    value,
                    gas_price: profile.suggested_gas_price,
                },
            ),
        )
    } else if selector == 1 {
        Ok(
            TransactionSpec::AccessList(
                LegacyBase {
                    sender: sender.dup(),
                    recipient: recipient.dup(),
                    value,
                    gas_price: profile.suggested_gas_price,
                },
                Vec::new(),
            ),
        )
    } else if selector == 2 {
        Ok(
            TransactionSpec::FeeMarket {
                sender: sender.dup(),
                recipient: recipient.dup(),
                value,
                max_priority_fee_per_gas: profile.max_priority_fee_per_gas,
                max_fee_per_gas: profile.max_fee_per_gas,
            },
        )
    } else if selector <= 5 {
        Err(BuildError::UnsupportedType(selector))
    } else {
        Err(BuildError::UnknownType(selector))
    }
}

} // verus!
