//! The records that a candy machine is created from and the errors it reports.
use vstd::prelude::*;

verus! {

/// Errors of creating a candy machine and of writing its config lines.
#[derive(Debug, Clone, Copy, PartialEq, Eq, Structural)]
pub enum CandyError {
    UuidMustBeExactly6Length,
    MintMismatch,
    TooManyCreators,
    NumericalOverflowError,
    SlotOutOfRange,
    FieldTooLong,
}

/// A public key, as its 32 bytes.
pub type Pubkey = [u8; 32];

/// A creator of the items, with its share of royalties.
#[derive(Debug, Clone, Copy)]
pub struct Creator {
    pub address: Pubkey,
    pub verified: bool,
    pub share: u8,
}

/// Settings of a candy machine whose items all show one placeholder until revealed;
/// such a machine holds no table of config lines.
#[derive(Debug, Clone)]
pub struct HiddenSettings {
    pub name: Vec<u8>,
    pub uri: Vec<u8>,
    pub hash: [u8; 32],
}

/// Settings of a candy machine whose config lines are generated from a name
/// prefix and a uri prefix; a sequel mint holds no table of config lines.
#[derive(Debug, Clone)]
pub struct CometMintSettings {
    pub name: Vec<u8>,
    pub uri: Vec<u8>,
    pub sequel_mint: bool,
}

/// What a candy machine is created from.
#[derive(Debug, Clone)]
pub struct CandyMachineData {
    pub uuid: Vec<u8>,
    pub price: u64,
    pub symbol: Vec<u8>,
    pub seller_fee_basis_points: u16,
    pub max_supply: u64,
    pub is_mutable: bool,
    pub retain_authority: bool,
    pub go_live_date: Option<i64>,
    pub items_available: u32,
    pub creators: Vec<Creator>,
    pub hidden_settings: Option<HiddenSettings>,
    pub comet_mint_settings: Option<CometMintSettings>,
}

/// The header of a candy machine account.
#[derive(Debug, Clone)]
pub struct CandyMachine {
    pub authority: Pubkey,
    pub wallet: Pubkey,
    pub token_mint: Option<Pubkey>,
    pub items_redeemed: u64,
    pub data: CandyMachineData,
}

/// Whether `data` describes a sequel mint, whose account holds no table.
pub open spec fn is_sequel_mint(data: CandyMachineData) -> bool {
    match data.comet_mint_settings {
        Some(cms) => cms.sequel_mint,
        None => false,
    }
}

/// Whether an account made from `data` holds a table of config lines.
pub open spec fn has_table(data: CandyMachineData) -> bool {
    data.hidden_settings is None && !is_sequel_mint(data)
}

/// One config line as given by a caller: a name and a uri, unpadded.
#[derive(Debug, Clone)]
pub struct ConfigLine {
    pub name: Vec<u8>,
    pub uri: Vec<u8>,
}

} // verus!
