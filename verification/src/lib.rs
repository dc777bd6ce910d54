//! The rules of a candy machine: a program that sells the items of an NFT collection one by
//! one, together with the layout of the account in which the machine keeps its state and the
//! config lines of the items that are still to be sold.
pub mod account_laws;
pub mod accounts;
pub mod basic_laws;
pub mod codec;
pub mod config_lines;
pub mod decoding;
pub mod error;
pub mod instruction;
pub mod laws;
pub mod layout;
pub mod line_laws;
pub mod manage;
pub mod mint;
pub mod pubkey;
pub mod sale_laws;
pub mod stage_laws;
pub mod state;
pub mod state_laws;
pub mod utils;

pub use crate::accounts::{
    AccountRef, AddConfigLines, InitializeCandyMachine, MintNFT, UpdateCandyMachine, WithdrawFunds,
};
pub use crate::config_lines::{add_config_lines, get_config_line, ConfigLine};
pub use crate::error::{Constraint, ErrorCode, ProgramError};
pub use crate::layout::{
    get_config_count, get_space_for_candy, CONFIG_ARRAY_START, CONFIG_LINE_SIZE,
};
pub use crate::manage::{
    initialize_candy_machine, update_authority, update_candy_machine, withdraw_funds,
};
pub use crate::mint::{mint_nft, try_mint_nft, MintStage};
pub use crate::pubkey::Pubkey;
pub use crate::state::{
    CandyMachine, CandyMachineData, Creator, EndSettings, HiddenSetting, WhitelistMintMode,
    WhitelistMintSettings,
};
