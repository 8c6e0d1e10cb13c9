//! The requests that the program hands to its host. The program decides
//! what is asked for; the host carries the request out against the system
//! program, the delegation program or the rollup's scheduler, and reports
//! how it went.

use vstd::prelude::*;
use crate::address::Address;
use crate::codec::seed_views;

verus! {

/// How a delegated account is to be treated by the rollup.
#[derive(Clone, Copy, Debug, PartialEq, Eq)]
pub struct DelegateConfig {
    /// The time between two commits to the base layer, in milliseconds.
    pub commit_frequency_ms: u32,
    /// The validator that is to run the account, if one is asked for.
    pub validator: Option<Address>,
}

/// A request to allocate and fund the storage of a new account, signed by
/// the program with the seeds of the account's address.
#[derive(Debug, PartialEq, Eq)]
pub struct CreateAccountRequest {
    /// The account that pays for the storage.
    pub payer: Address,
    /// The account to create.
    pub new_account: Address,
    /// The number of bytes to allocate. The account is funded with the
    /// least balance that keeps storage of this size alive.
    pub space: u64,
    /// The program that is to own the account.
    pub owner: Address,
    /// The system program.
    pub system_program: Address,
    /// The seeds that the address of the new account derives from, bump
    /// seed included.
    pub signer_seeds: Vec<Vec<u8>>,
}

/// A request to hand write authority over one account to the rollup.
#[derive(Debug, PartialEq, Eq)]
pub struct DelegationRequest {
    /// The account that initiates and pays for the delegation.
    pub payer: Address,
    /// The account to delegate.
    pub pda: Address,
    /// The program that owns the account.
    pub owner_program: Address,
    /// The buffer that holds the account's state during the hand-over.
    pub buffer: Address,
    /// The record that the delegation program keeps of the delegation.
    pub delegation_record: Address,
    /// The metadata that the delegation program keeps with the record.
    pub delegation_metadata: Address,
    /// The delegation program.
    pub delegation_program: Address,
    /// The system program.
    pub system_program: Address,
    /// The seeds that the address of the delegated account derives from,
    /// without the bump seed. Returning the account later takes the same
    /// seeds.
    pub pda_seeds: Vec<Vec<u8>>,
    /// The terms of the delegation.
    pub config: DelegateConfig,
}

/// A request to schedule the replication of accounts from the rollup to the
/// base layer, and, if asked, their return to it afterwards.
#[derive(Debug, PartialEq, Eq)]
pub struct CommitRequest {
    /// The account that initiates the commit. It has signed.
    pub payer: Address,
    /// The accounts to replicate.
    pub accounts: Vec<Address>,
    /// The context account of the scheduler.
    pub magic_context: Address,
    /// The scheduling program.
    pub magic_program: Address,
    /// Whether authority goes back to the base layer once the commit is
    /// scheduled.
    pub undelegate: bool,
}

/// A request to return write authority over one account to the base layer.
#[derive(Debug, PartialEq, Eq)]
pub struct UndelegationRequest {
    /// The account that comes back.
    pub delegated_account: Address,
    /// The program that owns the account.
    pub owner_program: Address,
    /// The buffer that holds the state to restore.
    pub buffer: Address,
    /// The account that pays for restoring the storage.
    pub payer: Address,
    /// The system program.
    pub system_program: Address,
    /// The seeds that the account's address was derived from when it was
    /// delegated.
    pub pda_seeds: Vec<Vec<u8>>,
}

/// A request to the host.
#[derive(Debug, PartialEq, Eq)]
pub enum Request {
    /// For the system program.
    CreateAccount(CreateAccountRequest),
    /// For the delegation program, on the base layer.
    Delegate(DelegationRequest),
    /// For the scheduler of the rollup.
    Commit(CommitRequest),
    /// For the delegation program, on the base layer.
    Undelegate(UndelegationRequest),
}

/// Where an instruction stands once the program has done its part.
#[derive(Debug, PartialEq, Eq)]
pub enum Step {
    /// The instruction is finished.
    Done,
    /// The host has to carry out the request and report how it went.
    Call(Request),
}

/// A request to create an account as a mathematical value.
pub struct CreateAccountRequestView {
    pub payer: Address,
    pub new_account: Address,
    pub space: u64,
    pub owner: Address,
    pub system_program: Address,
    pub signer_seeds: Seq<Seq<u8>>,
}

/// A delegation request as a mathematical value.
pub struct DelegationRequestView {
    pub payer: Address,
    pub pda: Address,
    pub owner_program: Address,
    pub buffer: Address,
    pub delegation_record: Address,
    pub delegation_metadata: Address,
    pub delegation_program: Address,
    pub system_program: Address,
    pub pda_seeds: Seq<Seq<u8>>,
    pub config: DelegateConfig,
}

/// A commit request as a mathematical value.
pub struct CommitRequestView {
    pub payer: Address,
    pub accounts: Seq<Address>,
    pub magic_context: Address,
    pub magic_program: Address,
    pub undelegate: bool,
}

/// An undelegation request as a mathematical value.
pub struct UndelegationRequestView {
    pub delegated_account: Address,
    pub owner_program: Address,
    pub buffer: Address,
    pub payer: Address,
    pub system_program: Address,
    pub pda_seeds: Seq<Seq<u8>>,
}

/// A request as a mathematical value.
pub enum RequestView {
    CreateAccount(CreateAccountRequestView),
    Delegate(DelegationRequestView),
    Commit(CommitRequestView),
    Undelegate(UndelegationRequestView),
}

impl View for CreateAccountRequest {
    type V = CreateAccountRequestView;

    open spec fn view(&self) -> CreateAccountRequestView {
        CreateAccountRequestView {
            payer: self.payer,
            new_account: self.new_account,
            space: self.space,
            owner: self.owner,
            system_program: self.system_program,
            signer_seeds: seed_views(self.signer_seeds@),
        }
    }
}

impl View for DelegationRequest {
    type V = DelegationRequestView;

    open spec fn view(&self) -> DelegationRequestView {
        DelegationRequestView {
            payer: self.payer,
            pda: self.pda,
            owner_program: self.owner_program,
            buffer: self.buffer,
            delegation_record: self.delegation_record,
            delegation_metadata: self.delegation_metadata,
            delegation_program: self.delegation_program,
            system_program: self.system_program,
            pda_seeds: seed_views(self.pda_seeds@),
            config: self.config,
        }
    }
}

impl View for CommitRequest {
    type V = CommitRequestView;

    open spec fn view(&self) -> CommitRequestView {
        CommitRequestView {
            payer: self.payer,
            accounts: self.accounts@,
            magic_context: self.magic_context,
            magic_program: self.magic_program,
            undelegate: self.undelegate,
        }
    }
}

impl View for UndelegationRequest {
    type V = UndelegationRequestView;

    open spec fn view(&self) -> UndelegationRequestView {
        UndelegationRequestView {
            delegated_account: self.delegated_account,
            owner_program: self.owner_program,
            buffer: self.buffer,
            payer: self.payer,
            system_program: self.system_program,
            pda_seeds: seed_views(self.pda_seeds@),
        }
    }
}

impl View for Request {
    type V = RequestView;

    open spec fn view(&self) -> RequestView {
        match *self {
            Request::CreateAccount(request) => RequestView::CreateAccount(request@),
            Request::Delegate(request) => RequestView::Delegate(request@),
            Request::Commit(request) => RequestView::Commit(request@),
            Request::Undelegate(request) => RequestView::Undelegate(request@),
        }
    }
}

impl View for Step {
    type V = Option<RequestView>;

    open spec fn view(&self) -> Option<RequestView> {
        match *self {
            Step::Done => None,
            Step::Call(request) => Some(request@),
        }
    }
}

} // verus!
