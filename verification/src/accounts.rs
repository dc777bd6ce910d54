//! The accounts that the instructions work on, and the conditions on them that are tested
//! before anything else.
use crate::error::{Constraint, ProgramError};
use crate::layout::{account_space, get_space_for_candy};
use crate::pubkey::{lemma_same_bytes, Pubkey};
use crate::state::{CandyMachine, CandyMachineData, CandyMachineDataView};
use crate::utils::{
    copy_of, create_program_address, key_bytes, program_address, seed_bytes, AccountSnapshot,
    SignerSeeds,
};
use vstd::prelude::*;
use vstd::string::*;
use vstd::utf8::*;

verus! {

/// The address of the token metadata program.
pub const METADATA_PROGRAM: [u8; 32] = [11, 112, 101, 177, 227, 209, 124, 69, 56, 157, 82, 127, 107, 4, 195, 205, 88, 184, 108, 115, 26, 160, 253, 181, 73, 182, 209, 188, 3, 248, 41, 70];

/// The accounts of the instruction that sets up a candy machine.
pub struct InitializeCandyMachine {
    /// The program that the account of the candy machine belongs to.
    pub candy_machine_owner: Pubkey,
    pub candy_machine_is_writable: bool,
    pub wallet: AccountSnapshot,
    pub authority: Pubkey,
}

/// The accounts of the instruction that fills in config lines.
pub struct AddConfigLines {
    pub candy_machine: CandyMachine,
    pub candy_machine_is_writable: bool,
    pub authority: Pubkey,
}

/// The accounts of the instruction that closes down a candy machine.
pub struct WithdrawFunds {
    pub candy_machine: CandyMachine,
    pub candy_machine_is_writable: bool,
    pub candy_machine_lamports: u64,
    pub authority: Pubkey,
    pub authority_lamports: u64,
}

/// The accounts of the instructions that change a candy machine.
pub struct UpdateCandyMachine {
    pub candy_machine: CandyMachine,
    pub candy_machine_is_writable: bool,
    pub authority: Pubkey,
}

/// An account that is handed on to another program.
#[derive(Clone, Copy, Debug)]
pub struct AccountRef {
    pub key: Pubkey,
    pub is_writable: bool,
}

/// The accounts of the instruction that sells an item.
pub struct MintNFT {
    /// The state of the candy machine.
    pub candy_machine: CandyMachine,
    /// The account that holds the candy machine.
    pub candy_machine_account: AccountRef,
    /// The address with which the candy machine is a creator of the item.
    pub candy_machine_creator: Pubkey,
    pub payer: Pubkey,
    pub payer_lamports: u64,
    pub wallet: AccountRef,
    pub metadata: AccountRef,
    pub mint: AccountRef,
    pub mint_authority: Pubkey,
    pub update_authority: Pubkey,
    pub master_edition: AccountRef,
    pub token_metadata_program: Pubkey,
    pub token_program: Pubkey,
    /// The time, in seconds.
    pub unix_timestamp: i64,
    /// The hashes of the latest blocks, the latest first.
    pub recent_blockhashes: Vec<[u8; 32]>,
}

/// The condition that fails for an account that is written to on behalf of `authority`, if
/// there is one: the account must be writable, and record that authority.
pub open spec fn authority_violation(
    is_writable: bool,
    recorded: Pubkey,
    authority: Pubkey,
) -> Option<ProgramError> {
    if !is_writable {
        Some(ProgramError::Constraint(Constraint::Mut))
    } else if recorded != authority {
        Some(ProgramError::Constraint(Constraint::HasOne))
    } else {
        None
    }
}

/// Tests the conditions on an account that is written to on behalf of `authority`.
fn check_authority(is_writable: bool, recorded: Pubkey, authority: Pubkey) -> (r: Result<
    (),
    ProgramError,
>)
    ensures
        match authority_violation(is_writable, recorded, authority) {
            Some(e) => r == Err::<(), ProgramError>(e),
            None => r is Ok,
        },
{
    if !is_writable {
        Err(ProgramError::Constraint(Constraint::Mut))
    } else if recorded != authority {
        Err(ProgramError::Constraint(Constraint::HasOne))
    } else {
        Ok(())
    }
}

impl AddConfigLines {
    /// The condition on the accounts that fails, if there is one.
    pub open spec fn violation(self) -> Option<ProgramError> {
        authority_violation(
            self.candy_machine_is_writable,
            self.candy_machine.authority,
            self.authority,
        )
    }

    /// Tests the conditions on the accounts.
    pub fn check(&self) -> (r: Result<(), ProgramError>)
        ensures
            match self.violation() {
                Some(e) => r == Err::<(), ProgramError>(e),
                None => r is Ok,
            },
    {
        check_authority(
            self.candy_machine_is_writable,
            self.candy_machine.authority,
            self.authority,
        )
    }
}

impl WithdrawFunds {
    /// The condition on the accounts that fails, if there is one.
    pub open spec fn violation(self) -> Option<ProgramError> {
        authority_violation(
            self.candy_machine_is_writable,
            self.candy_machine.authority,
            self.authority,
        )
    }

    /// Tests the conditions on the accounts.
    pub fn check(&self) -> (r: Result<(), ProgramError>)
        ensures
            match self.violation() {
                Some(e) => r == Err::<(), ProgramError>(e),
                None => r is Ok,
            },
    {
        check_authority(
            self.candy_machine_is_writable,
            self.candy_machine.authority,
            self.authority,
        )
    }
}

impl UpdateCandyMachine {
    /// The condition on the accounts that fails, if there is one.
    pub open spec fn violation(self) -> Option<ProgramError> {
        authority_violation(
            self.candy_machine_is_writable,
            self.candy_machine.authority,
            self.authority,
        )
    }

    /// Tests the conditions on the accounts.
    pub fn check(&self) -> (r: Result<(), ProgramError>)
        ensures
            match self.violation() {
                Some(e) => r == Err::<(), ProgramError>(e),
                None => r is Ok,
            },
    {
        check_authority(
            self.candy_machine_is_writable,
            self.candy_machine.authority,
            self.authority,
        )
    }
}

impl InitializeCandyMachine {
    /// The condition on the accounts that fails, if there is one: the account of the candy
    /// machine, which has `data_len` bytes, must be writable, belong to this program, and have
    /// room for a machine with these settings.
    pub open spec fn violation(
        self,
        d: CandyMachineDataView,
        data_len: int,
        program_id: Pubkey,
    ) -> Option<ProgramError> {
        if !self.candy_machine_is_writable {
            Some(ProgramError::Constraint(Constraint::Mut))
        } else if self.candy_machine_owner != program_id || data_len < account_space(d) {
            Some(ProgramError::Constraint(Constraint::Raw))
        } else {
            None
        }
    }

    /// Tests the conditions on the accounts.
    pub fn check(&self, data: &CandyMachineData, data_len: usize, program_id: Pubkey) -> (r: Result<
        (),
        ProgramError,
    >)
        requires
            self.candy_machine_is_writable && self.candy_machine_owner == program_id
                ==> account_space(data@) <= usize::MAX,
        ensures
            match self.violation(data@, data_len as int, program_id) {
                Some(e) => r == Err::<(), ProgramError>(e),
                None => r is Ok,
            },
    {
        if !self.candy_machine_is_writable {
            return Err(ProgramError::Constraint(Constraint::Mut));
        }
        if self.candy_machine_owner != program_id {
            return Err(ProgramError::Constraint(Constraint::Raw));
        }
        let space: usize = get_space_for_candy(data)?;
        if data_len < space {
            return Err(ProgramError::Constraint(Constraint::Raw));
        }
        Ok(())
    }
}

impl SignerSeeds {
    /// The seeds: a fixed text, the address of the candy machine, and a byte that makes the
    /// address that is derived from them valid.
    pub open spec fn spec_seeds(self) -> Seq<Seq<u8>> {
        seq![encode_utf8("candy_machine"@), self.candy_machine@, seq![self.bump]]
    }

    /// The seeds: a fixed text, the address of the candy machine, and a byte that makes the
    /// address that is derived from them valid.
    pub fn seeds(&self) -> (r: Vec<Vec<u8>>)
        ensures
            seed_bytes(r@) == self.spec_seeds(),
    {
        let bump = vec![self.bump];
        assert(bump@ =~= seq![self.bump]);
        let r = vec![
            copy_of("candy_machine".as_bytes()),
            copy_of(self.candy_machine.bytes.as_slice()),
            bump,
        ];
        assert(seed_bytes(r@) =~= self.spec_seeds());
        r
    }
}

impl MintNFT {
    /// The seeds with which the candy machine signs.
    pub open spec fn spec_signer_seeds(self, creator_bump: u8) -> SignerSeeds {
        SignerSeeds { candy_machine: self.candy_machine_account.key, bump: creator_bump }
    }

    /// The seeds with which the candy machine signs.
    pub fn signer_seeds(&self, creator_bump: u8) -> (r: SignerSeeds)
        ensures
            r == self.spec_signer_seeds(creator_bump),
    {
        SignerSeeds { candy_machine: self.candy_machine_account.key, bump: creator_bump }
    }

    /// The address that is derived from the candy machine, if there is one.
    pub open spec fn creator_address(self, creator_bump: u8, program_id: Pubkey) -> Option<
        Seq<u8>,
    > {
        program_address(self.spec_signer_seeds(creator_bump).spec_seeds(), program_id@)
    }

    /// The condition on the accounts that fails, if there is one: the candy machine must be
    /// writable and record the wallet, the creator must have the address `creator`, the
    /// accounts that are written to must be writable, and the metadata program must be the real
    /// one.
    pub open spec fn violation(self, creator: Option<Seq<u8>>) -> Option<ProgramError> {
        if !self.candy_machine_account.is_writable {
            Some(ProgramError::Constraint(Constraint::Mut))
        } else if self.candy_machine.wallet != self.wallet.key {
            Some(ProgramError::Constraint(Constraint::HasOne))
        } else if creator != Some(self.candy_machine_creator@) {
            Some(ProgramError::Constraint(Constraint::Seeds))
        } else if !self.wallet.is_writable || !self.metadata.is_writable || !self.mint.is_writable
            || !self.master_edition.is_writable {
            Some(ProgramError::Constraint(Constraint::Mut))
        } else if self.token_metadata_program@ != METADATA_PROGRAM@ {
            Some(ProgramError::Constraint(Constraint::Address))
        } else {
            None
        }
    }

    /// The address that is derived from the candy machine, if there is one.
    pub fn derive_creator(&self, creator_bump: u8, program_id: Pubkey) -> (r: Option<Pubkey>)
        ensures
            key_bytes(r) == self.creator_address(creator_bump, program_id),
    {
        create_program_address(&self.signer_seeds(creator_bump).seeds(), program_id)
    }

    /// Tests the conditions on the accounts, with `creator` as the address that is derived from
    /// the candy machine.
    pub fn check(&self, creator: Option<Pubkey>) -> (r: Result<(), ProgramError>)
        ensures
            match self.violation(key_bytes(creator)) {
                Some(e) => r == Err::<(), ProgramError>(e),
                None => r is Ok,
            },
    {
        if !self.candy_machine_account.is_writable {
            return Err(ProgramError::Constraint(Constraint::Mut));
        }
        if self.candy_machine.wallet != self.wallet.key {
            return Err(ProgramError::Constraint(Constraint::HasOne));
        }
        match creator {
            None => {
                return Err(ProgramError::Constraint(Constraint::Seeds));
            },
            Some(address) => {
                if address != self.candy_machine_creator {
                    proof {
                        if address@ == self.candy_machine_creator@ {
                            lemma_same_bytes(address, self.candy_machine_creator);
                        }
                    }
                    return Err(ProgramError::Constraint(Constraint::Seeds));
                }
            },
        }
        if !self.wallet.is_writable || !self.metadata.is_writable || !self.mint.is_writable
            || !self.master_edition.is_writable {
            return Err(ProgramError::Constraint(Constraint::Mut));
        }
        let metadata_program = Pubkey { bytes: METADATA_PROGRAM };
        if self.token_metadata_program != metadata_program {
            proof {
                if self.token_metadata_program@ == metadata_program@ {
                    lemma_same_bytes(self.token_metadata_program, metadata_program);
                }
            }
            return Err(ProgramError::Constraint(Constraint::Address));
        }
        Ok(())
    }
}

} // verus!
