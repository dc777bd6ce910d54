//! What can go wrong.
use vstd::prelude::*;

verus! {

/// The errors of the candy machine itself.
#[derive(Clone, Copy, Debug, PartialEq, Eq, Structural)]
pub enum ErrorCode {
    /// Account does not have correct owner!
    IncorrectOwner,
    /// Account is not initialized!
    Uninitialized,
    /// Mint Mismatch!
    MintMismatch,
    /// Index greater than length!
    IndexGreaterThanLength,
    /// Numerical overflow error!
    NumericalOverflowError,
    /// Can only provide up to 4 creators to candy machine (because candy machine is one)!
    TooManyCreators,
    /// Uuid must be exactly of 6 length
    UuidMustBeExactly6Length,
    /// Not enough tokens to pay for this minting
    NotEnoughTokens,
    /// Not enough SOL to pay for this minting
    NotEnoughSOL,
    /// Token transfer failed
    TokenTransferFailed,
    /// Candy machine is empty!
    CandyMachineEmpty,
    /// Candy machine is not live!
    CandyMachineNotLive,
    /// Configs that are using hidden uris do not have config lines, they have a single hash representing hashed order
    HiddenSettingConfigsDoNotHaveConfigLines,
    /// Cannot change number of lines unless is a hidden config
    CannotChangeNumberOfLines,
    /// Derived key invalid
    DerivedKeyInvalid,
    /// Public key mismatch
    PublicKeyMismatch,
    /// No whitelist token present
    NoWhitelistToken,
    /// Token burn failed
    TokenBurnFailed,
}

impl ErrorCode {
    /// The text shown to the user.
    pub open spec fn spec_message(self) -> Seq<char> {
        match self {
            ErrorCode::IncorrectOwner => "Account does not have correct owner!"@,
            ErrorCode::Uninitialized => "Account is not initialized!"@,
            ErrorCode::MintMismatch => "Mint Mismatch!"@,
            ErrorCode::IndexGreaterThanLength => "Index greater than length!"@,
            ErrorCode::NumericalOverflowError => "Numerical overflow error!"@,
            ErrorCode::TooManyCreators => "Can only provide up to 4 creators to candy machine (because candy machine is one)!"@,
            ErrorCode::UuidMustBeExactly6Length => "Uuid must be exactly of 6 length"@,
            ErrorCode::NotEnoughTokens => "Not enough tokens to pay for this minting"@,
            ErrorCode::NotEnoughSOL => "Not enough SOL to pay for this minting"@,
            ErrorCode::TokenTransferFailed => "Token transfer failed"@,
            ErrorCode::CandyMachineEmpty => "Candy machine is empty!"@,
            ErrorCode::CandyMachineNotLive => "Candy machine is not live!"@,
            ErrorCode::HiddenSettingConfigsDoNotHaveConfigLines => "Configs that are using hidden uris do not have config lines, they have a single hash representing hashed order"@,
            ErrorCode::CannotChangeNumberOfLines => "Cannot change number of lines unless is a hidden config"@,
            ErrorCode::DerivedKeyInvalid => "Derived key invalid"@,
            ErrorCode::PublicKeyMismatch => "Public key mismatch"@,
            ErrorCode::NoWhitelistToken => "No whitelist token present"@,
            ErrorCode::TokenBurnFailed => "Token burn failed"@,
        }
    }

    /// The text shown to the user.
    pub fn message(self) -> (r: &'static str)
        ensures
            r@ == self.spec_message(),
    {
        match self {
            ErrorCode::IncorrectOwner => "Account does not have correct owner!",
            ErrorCode::Uninitialized => "Account is not initialized!",
            ErrorCode::MintMismatch => "Mint Mismatch!",
            ErrorCode::IndexGreaterThanLength => "Index greater than length!",
            ErrorCode::NumericalOverflowError => "Numerical overflow error!",
            ErrorCode::TooManyCreators => "Can only provide up to 4 creators to candy machine (because candy machine is one)!",
            ErrorCode::UuidMustBeExactly6Length => "Uuid must be exactly of 6 length",
            ErrorCode::NotEnoughTokens => "Not enough tokens to pay for this minting",
            ErrorCode::NotEnoughSOL => "Not enough SOL to pay for this minting",
            ErrorCode::TokenTransferFailed => "Token transfer failed",
            ErrorCode::CandyMachineEmpty => "Candy machine is empty!",
            ErrorCode::CandyMachineNotLive => "Candy machine is not live!",
            ErrorCode::HiddenSettingConfigsDoNotHaveConfigLines => "Configs that are using hidden uris do not have config lines, they have a single hash representing hashed order",
            ErrorCode::CannotChangeNumberOfLines => "Cannot change number of lines unless is a hidden config",
            ErrorCode::DerivedKeyInvalid => "Derived key invalid",
            ErrorCode::PublicKeyMismatch => "Public key mismatch",
            ErrorCode::NoWhitelistToken => "No whitelist token present",
            ErrorCode::TokenBurnFailed => "Token burn failed",
        }
    }
}

/// The conditions on the accounts of an instruction that are checked before it runs.
#[derive(Clone, Copy, Debug, PartialEq, Eq, Structural)]
pub enum Constraint {
    /// An account that is written to must be writable.
    Mut,
    /// An address recorded in the candy machine must be that of the account passed in.
    HasOne,
    /// The account must belong to this program and be large enough.
    Raw,
    /// The account must have the address derived from the candy machine.
    Seeds,
    /// The account must have a given address.
    Address,
}

/// The errors that an instruction returns.
#[derive(Clone, Copy, Debug, PartialEq, Eq, Structural)]
pub enum ProgramError {
    /// An error of the candy machine itself.
    Candy(ErrorCode),
    /// A condition on the accounts does not hold.
    Constraint(Constraint),
    /// The data of a token account or mint has the wrong shape.
    InvalidAccountData,
    /// The token program is not the one that its instructions are made for.
    IncorrectProgramId,
    /// The bytes of a config line are not those of a config line.
    BorshIoError,
    /// An error of another program that was invoked, by its number.
    Runtime(u64),
}

} // verus!
