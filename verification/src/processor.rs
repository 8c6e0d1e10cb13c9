//! The processor: what each instruction does to the accounts it is given,
//! what it asks of the host, and what follows from the host's answer.
//!
//! An instruction runs in one or two steps. The first validates the accounts
//! and either finishes or names a request for the host to carry out. The
//! second, `complete_request`, takes the host's answer. Every failure leaves
//! the accounts as they were.

use vstd::prelude::*;
use crate::account::{ledger, Account, AccountView};
use crate::address::{counter_address, counter_seed_list, counter_seeds, derivation_view,
    find_counter_address, is_counter_of, program_address, yields, Address};
use crate::codec::{lemma_le_bytes_len, seed_views};
use crate::error::ProgramError;
use crate::instructions::{decoding, InstructionView, ProgramInstruction};
use crate::requests::{CommitRequest, CommitRequestView, CreateAccountRequest,
    CreateAccountRequestView, DelegateConfig, DelegationRequest, DelegationRequestView, Request,
    RequestView, Step, UndelegationRequest, UndelegationRequestView};
use crate::states::{lemma_counter_round_trip, Counter};

verus! {

/// The time between two commits that every delegation asks for, in
/// milliseconds.
pub const COMMIT_FREQUENCY_MS: u32 = 30_000;

/// What a step of an instruction leaves behind: the accounts after it, and
/// the request that the host has to carry out, if there is one.
pub struct Transition {
    pub accounts: Seq<AccountView>,
    pub request: Option<RequestView>,
}

/// `account` with `count` stored in the first eight bytes of its storage.
pub open spec fn with_count(account: AccountView, count: u64) -> AccountView {
    AccountView { data: Counter { count }.encoding() + account.data.skip(8), ..account }
}

/// The count stored in `account`, if its storage holds a counter.
pub open spec fn count_of(account: AccountView) -> Option<u64> {
    match Counter::decoding(account.data) {
        Some(counter) => Some(counter.count),
        None => None,
    }
}

/// The request that creates the counter account: storage for one counter,
/// owned by the program, paid for by the owner of the counter, signed with
/// the seeds of the counter's address.
pub open spec fn creation_request(program_id: Address, accounts: Seq<AccountView>, bump: u8)
    -> CreateAccountRequestView {
    CreateAccountRequestView {
        payer: accounts[0].key,
        new_account: accounts[1].key,
        space: Counter::USIZE as u64,
        owner: program_id,
        system_program: accounts[2].key,
        signer_seeds: counter_seeds(accounts[0].key).push(seq![bump]),
    }
}

/// Setting the counter in the second account to 0. Storage that holds no
/// counter is refused.
pub open spec fn reset_counter(accounts: Seq<AccountView>) -> Result<Transition, ProgramError> {
    if count_of(accounts[1]) is Some {
        Ok(Transition { accounts: accounts.update(1, with_count(accounts[1], 0)), request: None })
    } else {
        Err(ProgramError::BorshIoError)
    }
}

/// `InitializeCounter` on the accounts: the owner, the counter account and
/// the system program. `derived` is the address derived for the owner's
/// counter, with its bump seed. A counter account that holds no balance has
/// to be created first; one that exists is reset at once.
pub open spec fn initialize_counter(
    derived: Option<(Seq<u8>, u8)>,
    program_id: Address,
    accounts: Seq<AccountView>,
) -> Result<Transition, ProgramError> {
    if accounts.len() < 3 {
        Err(ProgramError::NotEnoughAccountKeys)
    } else if !yields(derived, accounts[1].key) {
        Err(ProgramError::InvalidArgument)
    } else if accounts[1].lamports == 0 {
        Ok(
            Transition {
                accounts,
                request: Some(
                    RequestView::CreateAccount(
                        creation_request(program_id, accounts, derived.unwrap().1),
                    ),
                ),
            },
        )
    } else {
        reset_counter(accounts)
    }
}

/// `IncreaseCounter` on the accounts: the owner, the counter account and the
/// system program. `derived` is the address derived for the owner's counter.
/// A sum that does not fit the counter is refused.
pub open spec fn increase_counter(
    derived: Option<(Seq<u8>, u8)>,
    accounts: Seq<AccountView>,
    increase_by: u64,
) -> Result<Transition, ProgramError> {
    if accounts.len() < 3 {
        Err(ProgramError::NotEnoughAccountKeys)
    } else if !yields(derived, accounts[1].key) {
        Err(ProgramError::InvalidArgument)
    } else {
        match count_of(accounts[1]) {
            None => Err(ProgramError::BorshIoError),
            Some(count) => if count + increase_by > u64::MAX {
                Err(ProgramError::ArithmeticOverflow)
            } else {
                Ok(
                    Transition {
                        accounts: accounts.update(
                            1,
                            with_count(accounts[1], (count + increase_by) as u64),
                        ),
                        request: None,
                    },
                )
            },
        }
    }
}

/// The delegation that `Delegate` asks for: the eight accounts in their
/// roles, the seeds of the initiator's counter, a commit every thirty
/// seconds and no validator named.
pub open spec fn delegation_request(accounts: Seq<AccountView>) -> DelegationRequestView {
    DelegationRequestView {
        payer: accounts[0].key,
        pda: accounts[1].key,
        owner_program: accounts[2].key,
        buffer: accounts[3].key,
        delegation_record: accounts[4].key,
        delegation_metadata: accounts[5].key,
        delegation_program: accounts[6].key,
        system_program: accounts[7].key,
        pda_seeds: counter_seeds(accounts[0].key),
        config: DelegateConfig { commit_frequency_ms: COMMIT_FREQUENCY_MS, validator: None },
    }
}

/// `Delegate` on the accounts: the initiator, the account to delegate, the
/// owning program, the buffer, the delegation record, the delegation
/// metadata, the delegation program and the system program.
pub open spec fn delegate(accounts: Seq<AccountView>) -> Result<Transition, ProgramError> {
    if accounts.len() < 8 {
        Err(ProgramError::NotEnoughAccountKeys)
    } else {
        Ok(
            Transition {
                accounts,
                request: Some(RequestView::Delegate(delegation_request(accounts))),
            },
        )
    }
}

/// The commit that `Commit` and `CommitAndUndelegate` ask for: the counter
/// account alone, on behalf of the initiator.
pub open spec fn commit_request(accounts: Seq<AccountView>, undelegate: bool) -> CommitRequestView {
    CommitRequestView {
        payer: accounts[0].key,
        accounts: seq![accounts[1].key],
        magic_context: accounts[3].key,
        magic_program: accounts[2].key,
        undelegate,
    }
}

/// `Commit`, or with `undelegate` set `CommitAndUndelegate`, on the accounts:
/// the initiator, the counter account, the scheduling program and its
/// context. Without the initiator's signature nothing is asked of the host.
pub open spec fn commit(accounts: Seq<AccountView>, undelegate: bool) -> Result<
    Transition,
    ProgramError,
> {
    if accounts.len() < 4 {
        Err(ProgramError::NotEnoughAccountKeys)
    } else if !accounts[0].is_signer {
        Err(ProgramError::MissingRequiredSignature)
    } else {
        Ok(
            Transition {
                accounts,
                request: Some(RequestView::Commit(commit_request(accounts, undelegate))),
            },
        )
    }
}

/// The undelegation that `Undelegate` asks for: the seeds as they came with
/// the instruction.
pub open spec fn undelegation_request(
    program_id: Address,
    accounts: Seq<AccountView>,
    pda_seeds: Seq<Seq<u8>>,
) -> UndelegationRequestView {
    UndelegationRequestView {
        delegated_account: accounts[0].key,
        owner_program: program_id,
        buffer: accounts[1].key,
        payer: accounts[2].key,
        system_program: accounts[3].key,
        pda_seeds,
    }
}

/// `Undelegate` on the accounts: the delegated account, the buffer, the
/// initiator and the system program.
pub open spec fn undelegate(
    program_id: Address,
    accounts: Seq<AccountView>,
    pda_seeds: Seq<Seq<u8>>,
) -> Result<Transition, ProgramError> {
    if accounts.len() < 4 {
        Err(ProgramError::NotEnoughAccountKeys)
    } else {
        Ok(
            Transition {
                accounts,
                request: Some(
                    RequestView::Undelegate(undelegation_request(program_id, accounts, pda_seeds)),
                ),
            },
        )
    }
}

/// The first step of `instruction` on the accounts.
pub open spec fn execute(
    program_id: Address,
    accounts: Seq<AccountView>,
    instruction: InstructionView,
) -> Result<Transition, ProgramError> {
    match instruction {
        InstructionView::InitializeCounter => initialize_counter(
            counter_address(accounts[0].key, program_id),
            program_id,
            accounts,
        ),
        InstructionView::IncreaseCounter { increase_by } => increase_counter(
            counter_address(accounts[0].key, program_id),
            accounts,
            increase_by,
        ),
        InstructionView::Delegate => delegate(accounts),
        InstructionView::CommitAndUndelegate => commit(accounts, true),
        InstructionView::Commit => commit(accounts, false),
        InstructionView::Undelegate { pda_seeds } => undelegate(program_id, accounts, pda_seeds),
    }
}

/// The first step of the instruction that `data` carries. Data that carries
/// no instruction is refused.
pub open spec fn process(program_id: Address, accounts: Seq<AccountView>, data: Seq<u8>) -> Result<
    Transition,
    ProgramError,
> {
    match decoding(data) {
        Some(instruction) => execute(program_id, accounts, instruction),
        None => Err(ProgramError::InvalidInstructionData),
    }
}

/// The second step: what follows from the host's answer to `request`. A
/// request that failed fails the instruction with the error the host
/// reported, whichever request it was. After the counter account has been
/// created, the counter in it is set to 0; after any other request nothing
/// is left to do.
pub open spec fn complete(
    accounts: Seq<AccountView>,
    request: RequestView,
    reply: Result<(), ProgramError>,
) -> Result<Seq<AccountView>, ProgramError> {
    match reply {
        Err(error) => Err(error),
        Ok(_) => match request {
            RequestView::CreateAccount(creation) => if accounts.len() < 2 {
                Err(ProgramError::NotEnoughAccountKeys)
            } else if accounts[1].key != creation.new_account {
                Err(ProgramError::InvalidArgument)
            } else {
                match reset_counter(accounts) {
                    Ok(transition) => Ok(transition.accounts),
                    Err(error) => Err(error),
                }
            },
            _ => Ok(accounts),
        },
    }
}

/// Whether a step that began on `before` and was to go as `expected` ended
/// with `outcome` on `after`: the same error and the accounts untouched, or
/// the same request and the accounts as expected.
pub open spec fn carried_out(
    before: Seq<AccountView>,
    expected: Result<Transition, ProgramError>,
    outcome: Result<Step, ProgramError>,
    after: Seq<AccountView>,
) -> bool {
    match expected {
        Ok(transition) => {
            &&& outcome matches Ok(step)
            &&& step@ == transition.request
            &&& after == transition.accounts
        },
        Err(error) => {
            &&& outcome matches Err(raised)
            &&& raised == error
            &&& after == before
        },
    }
}

/// Runs the first step of the instruction that `instruction_data` carries.
pub fn process_instruction(
    program_id: &Address,
    accounts: &mut Vec<Account>,
    instruction_data: &[u8],
) -> (outcome: Result<Step, ProgramError>)
    ensures
        carried_out(
            ledger(old(accounts)@),
            process(*program_id, ledger(old(accounts)@), instruction_data@),
            outcome,
            ledger(final(accounts)@),
        ),
{
    let instruction = match ProgramInstruction::unpack(instruction_data) {
        Ok(instruction) => instruction,
        Err(error) => {
            return Err(error);
        },
    };
    match instruction {
        ProgramInstruction::InitializeCounter => process_initialize_counter(program_id, accounts),
        ProgramInstruction::IncreaseCounter { increase_by } => process_increase_counter(
            program_id,
            accounts,
            increase_by,
        ),
        ProgramInstruction::Delegate => process_delegate(program_id, accounts.as_slice()),
        ProgramInstruction::CommitAndUndelegate => process_commit_and_undelegate(
            program_id,
            accounts.as_slice(),
        ),
        ProgramInstruction::Commit => process_commit(program_id, accounts.as_slice()),
        ProgramInstruction::Undelegate { pda_seeds } => process_undelegate(
            program_id,
            accounts.as_slice(),
            pda_seeds,
        ),
    }
}

/// `InitializeCounter`: sets the counter of the first account to 0, or asks
/// for the counter account to be created where it holds no balance yet. In
/// the second case the counter is set once the host reports the creation to
/// `complete_request`.
pub fn process_initialize_counter(program_id: &Address, accounts: &mut Vec<Account>) -> (outcome:
    Result<Step, ProgramError>)
    ensures
        carried_out(
            ledger(old(accounts)@),
            initialize_counter(
                counter_address(ledger(old(accounts)@)[0].key, *program_id),
                *program_id,
                ledger(old(accounts)@),
            ),
            outcome,
            ledger(final(accounts)@),
        ),
{
    if accounts.len() < 3 {
        return Err(ProgramError::NotEnoughAccountKeys);
    }
    let derived = find_counter_address(&accounts[0].key, program_id);
    initialize_counter_at(derived, program_id, accounts)
}

/// `InitializeCounter`, given the address that was derived for the owner's
/// counter.
pub fn initialize_counter_at(
    derived: Option<(Address, u8)>,
    program_id: &Address,
    accounts: &mut Vec<Account>,
) -> (outcome: Result<Step, ProgramError>)
    ensures
        carried_out(
            ledger(old(accounts)@),
            initialize_counter(derivation_view(derived), *program_id, ledger(old(accounts)@)),
            outcome,
            ledger(final(accounts)@),
        ),
{
    if accounts.len() < 3 {
        return Err(ProgramError::NotEnoughAccountKeys);
    }
    let bump = match bump_for(derived, &accounts[1].key) {
        Some(bump) => bump,
        None => {
            return Err(ProgramError::InvalidArgument);
        },
    };
    if accounts[1].lamports == 0 {
        let mut signer_seeds = counter_seed_list(&accounts[0].key);
        let mut bump_seed: Vec<u8> = Vec::with_capacity(1);
        bump_seed.push(bump);
        signer_seeds.push(bump_seed);
        let creation = CreateAccountRequest {
            payer: accounts[0].key,
            new_account: accounts[1].key,
            space: Counter::USIZE as u64,
            owner: *program_id,
            system_program: accounts[2].key,
            signer_seeds,
        };
        assert(creation@ =~= creation_request(*program_id, ledger(accounts@), bump)) by {
            assert(creation@.signer_seeds =~= counter_seeds(accounts@[0].key).push(seq![bump]));
        }
        return Ok(Step::Call(Request::CreateAccount(creation)));
    }
    reset(accounts)
}

/// `IncreaseCounter`: adds `increase_by` to the counter of the first
/// account.
pub fn process_increase_counter(
    program_id: &Address,
    accounts: &mut Vec<Account>,
    increase_by: u64,
) -> (outcome: Result<Step, ProgramError>)
    ensures
        carried_out(
            ledger(old(accounts)@),
            increase_counter(
                counter_address(ledger(old(accounts)@)[0].key, *program_id),
                ledger(old(accounts)@),
                increase_by,
            ),
            outcome,
            ledger(final(accounts)@),
        ),
{
    if accounts.len() < 3 {
        return Err(ProgramError::NotEnoughAccountKeys);
    }
    let derived = find_counter_address(&accounts[0].key, program_id);
    increase_counter_at(derived, accounts, increase_by)
}

/// `IncreaseCounter`, given the address that was derived for the owner's
/// counter.
pub fn increase_counter_at(
    derived: Option<(Address, u8)>,
    accounts: &mut Vec<Account>,
    increase_by: u64,
) -> (outcome: Result<Step, ProgramError>)
    ensures
        carried_out(
            ledger(old(accounts)@),
            increase_counter(derivation_view(derived), ledger(old(accounts)@), increase_by),
            outcome,
            ledger(final(accounts)@),
        ),
{
    if accounts.len() < 3 {
        return Err(ProgramError::NotEnoughAccountKeys);
    }
    if bump_for(derived, &accounts[1].key).is_none() {
        return Err(ProgramError::InvalidArgument);
    }
    let mut counter = match Counter::try_from_slice(accounts[1].data.as_slice()) {
        Ok(counter) => counter,
        Err(error) => {
            return Err(error);
        },
    };
    counter.count = match counter.count.checked_add(increase_by) {
        Some(sum) => sum,
        None => {
            return Err(ProgramError::ArithmeticOverflow);
        },
    };
    match counter.serialize(&mut accounts[1].data) {
        Ok(()) => {
            assert(ledger(accounts@) =~= ledger(old(accounts)@).update(
                1,
                with_count(ledger(old(accounts)@)[1], counter.count),
            ));
            Ok(Step::Done)
        },
        Err(error) => Err(error),
    }
}

/// `Delegate`: asks for the counter account to be handed to the rollup.
pub fn process_delegate(_program_id: &Address, accounts: &[Account]) -> (outcome: Result<
    Step,
    ProgramError,
>)
    ensures
        carried_out(ledger(accounts@), delegate(ledger(accounts@)), outcome, ledger(accounts@)),
{
    if accounts.len() < 8 {
        return Err(ProgramError::NotEnoughAccountKeys);
    }
    let delegation = DelegationRequest {
        payer: accounts[0].key,
        pda: accounts[1].key,
        owner_program: accounts[2].key,
        buffer: accounts[3].key,
        delegation_record: accounts[4].key,
        delegation_metadata: accounts[5].key,
        delegation_program: accounts[6].key,
        system_program: accounts[7].key,
        pda_seeds: counter_seed_list(&accounts[0].key),
        config: DelegateConfig { commit_frequency_ms: COMMIT_FREQUENCY_MS, validator: None },
    };
    Ok(Step::Call(Request::Delegate(delegation)))
}

/// `Undelegate`: asks for the delegated account to be returned to the base
/// layer, with the seeds that came with the instruction. Whether the seeds
/// are those that the account was delegated with is for the delegation
/// program to decide.
pub fn process_undelegate(
    program_id: &Address,
    accounts: &[Account],
    pda_seeds: Vec<Vec<u8>>,
) -> (outcome: Result<Step, ProgramError>)
    ensures
        carried_out(
            ledger(accounts@),
            undelegate(*program_id, ledger(accounts@), seed_views(pda_seeds@)),
            outcome,
            ledger(accounts@),
        ),
{
    if accounts.len() < 4 {
        return Err(ProgramError::NotEnoughAccountKeys);
    }
    let undelegation = UndelegationRequest {
        delegated_account: accounts[0].key,
        owner_program: *program_id,
        buffer: accounts[1].key,
        payer: accounts[2].key,
        system_program: accounts[3].key,
        pda_seeds,
    };
    Ok(Step::Call(Request::Undelegate(undelegation)))
}

/// `CommitAndUndelegate`: asks for a commit of the counter to the base layer
/// and, once that is scheduled, for its return to it.
pub fn process_commit_and_undelegate(_program_id: &Address, accounts: &[Account]) -> (outcome:
    Result<Step, ProgramError>)
    ensures
        carried_out(
            ledger(accounts@),
            commit(ledger(accounts@), true),
            outcome,
            ledger(accounts@),
        ),
{
    schedule(accounts, true)
}

/// `Commit`: asks for a commit of the counter to the base layer.
pub fn process_commit(_program_id: &Address, accounts: &[Account]) -> (outcome: Result<
    Step,
    ProgramError,
>)
    ensures
        carried_out(
            ledger(accounts@),
            commit(ledger(accounts@), false),
            outcome,
            ledger(accounts@),
        ),
{
    schedule(accounts, false)
}

/// Runs the second step of an instruction: takes the host's answer to
/// `request`. Before it reports that an account was created, the host brings
/// the entry of that account in `accounts` up to date.
///
/// A failed undelegation fails the instruction like any other failed
/// request.
pub fn complete_request(
    accounts: &mut Vec<Account>,
    request: &Request,
    reply: Result<(), ProgramError>,
) -> (outcome: Result<(), ProgramError>)
    ensures
        match complete(ledger(old(accounts)@), request@, reply) {
            Ok(after) => outcome is Ok && ledger(final(accounts)@) == after,
            Err(error) => outcome == Err::<(), ProgramError>(error) && ledger(final(accounts)@)
                == ledger(old(accounts)@),
        },
{
    match reply {
        Err(error) => {
            return Err(error);
        },
        Ok(_) => {},
    }
    match request {
        Request::CreateAccount(creation) => {
            if accounts.len() < 2 {
                return Err(ProgramError::NotEnoughAccountKeys);
            }
            if !accounts[1].key.matches(&creation.new_account) {
                return Err(ProgramError::InvalidArgument);
            }
            match reset(accounts) {
                Ok(_) => Ok(()),
                Err(error) => Err(error),
            }
        },
        _ => Ok(()),
    }
}

/// The bump seed of a derivation that has yielded `key`.
fn bump_for(derived: Option<(Address, u8)>, key: &Address) -> (bump: Option<u8>)
    ensures
        match bump {
            Some(seed) => yields(derivation_view(derived), *key) && derivation_view(
                derived,
            ).unwrap().1 == seed,
            None => !yields(derivation_view(derived), *key),
        },
{
    match derived {
        Some((address, seed)) => {
            if address.matches(key) {
                Some(seed)
            } else {
                None
            }
        },
        None => None,
    }
}

/// Sets the counter in the second account to 0.
fn reset(accounts: &mut Vec<Account>) -> (outcome: Result<Step, ProgramError>)
    requires
        old(accounts)@.len() >= 2,
    ensures
        carried_out(
            ledger(old(accounts)@),
            reset_counter(ledger(old(accounts)@)),
            outcome,
            ledger(final(accounts)@),
        ),
{
    let mut counter = match Counter::try_from_slice(accounts[1].data.as_slice()) {
        Ok(counter) => counter,
        Err(error) => {
            return Err(error);
        },
    };
    counter.count = 0;
    match counter.serialize(&mut accounts[1].data) {
        Ok(()) => {
            assert(ledger(accounts@) =~= ledger(old(accounts)@).update(
                1,
                with_count(ledger(old(accounts)@)[1], 0),
            ));
            Ok(Step::Done)
        },
        Err(error) => Err(error),
    }
}

/// Builds the commit of the counter account for an initiator that has
/// signed.
fn schedule(accounts: &[Account], undelegate: bool) -> (outcome: Result<Step, ProgramError>)
    ensures
        carried_out(
            ledger(accounts@),
            commit(ledger(accounts@), undelegate),
            outcome,
            ledger(accounts@),
        ),
{
    if accounts.len() < 4 {
        return Err(ProgramError::NotEnoughAccountKeys);
    }
    if !accounts[0].is_signer {
        return Err(ProgramError::MissingRequiredSignature);
    }
    let mut committed: Vec<Address> = Vec::with_capacity(1);
    committed.push(accounts[1].key);
    let scheduled = CommitRequest {
        payer: accounts[0].key,
        accounts: committed,
        magic_context: accounts[3].key,
        magic_program: accounts[2].key,
        undelegate,
    };
    assert(scheduled@ =~= commit_request(ledger(accounts@), undelegate)) by {
        assert(scheduled@.accounts =~= seq![accounts@[1].key]);
    }
    Ok(Step::Call(Request::Commit(scheduled)))
}

/// `InitializeCounter` on a counter account that holds no balance changes
/// nothing and asks for storage of exactly one counter. Once the host has
/// allocated that storage and reports so, the counter in it is 0, and no
/// other account has changed.
pub proof fn lemma_initialize_fresh_account(
    derived: Option<(Seq<u8>, u8)>,
    program_id: Address,
    accounts: Seq<AccountView>,
    created: Seq<AccountView>,
)
    requires
        accounts.len() >= 3,
        yields(derived, accounts[1].key),
        accounts[1].lamports == 0,
        created.len() == accounts.len(),
        created[1].key == accounts[1].key,
        created[1].data.len() == Counter::USIZE,
    ensures
        ({
            &&& initialize_counter(derived, program_id, accounts) matches Ok(asked)
            &&& asked.accounts == accounts
            &&& asked.request matches Some(RequestView::CreateAccount(creation))
            &&& creation.space == Counter::USIZE
            &&& creation.new_account == accounts[1].key
            &&& complete(created, asked.request.unwrap(), Ok(())) matches Ok(after)
            &&& after.len() == created.len()
            &&& after[1].data.len() == Counter::USIZE
            &&& count_of(after[1]) == Some(0u64)
            &&& forall|i: int| 0 <= i < after.len() && i != 1 ==> after[i] == created[i]
        }),
{
    lemma_counter_round_trip(Counter { count: 0 });
    assert(created[1].data.skip(8) =~= Seq::empty());
    assert(with_count(created[1], 0).data =~= Counter { count: 0 }.encoding());
}

/// `InitializeCounter` on a counter account that holds a balance and a
/// counter asks nothing of the host: it sets the count to 0 and leaves the
/// size of the storage, and every other account, as it was.
pub proof fn lemma_initialize_funded_account(
    derived: Option<(Seq<u8>, u8)>,
    program_id: Address,
    accounts: Seq<AccountView>,
)
    requires
        accounts.len() >= 3,
        yields(derived, accounts[1].key),
        accounts[1].lamports != 0,
        count_of(accounts[1]) is Some,
    ensures
        ({
            &&& initialize_counter(derived, program_id, accounts) matches Ok(reset)
            &&& reset.request is None
            &&& reset.accounts.len() == accounts.len()
            &&& reset.accounts[1].data.len() == accounts[1].data.len()
            &&& count_of(reset.accounts[1]) == Some(0u64)
            &&& forall|i: int|
                0 <= i < accounts.len() && i != 1 ==> reset.accounts[i] == accounts[i]
        }),
{
    lemma_counter_round_trip(Counter { count: 0 });
    assert(accounts[1].data.skip(8) =~= Seq::empty());
    assert(with_count(accounts[1], 0).data =~= Counter { count: 0 }.encoding());
}

/// `IncreaseCounter` on a counter that can take the increase adds it to the
/// count and changes nothing else.
pub proof fn lemma_increase_adds(
    derived: Option<(Seq<u8>, u8)>,
    accounts: Seq<AccountView>,
    increase_by: u64,
    count: u64,
)
    requires
        accounts.len() >= 3,
        yields(derived, accounts[1].key),
        count_of(accounts[1]) == Some(count),
        count + increase_by <= u64::MAX,
    ensures
        ({
            &&& increase_counter(derived, accounts, increase_by) matches Ok(increased)
            &&& increased.request is None
            &&& increased.accounts.len() == accounts.len()
            &&& increased.accounts[1].data.len() == accounts[1].data.len()
            &&& count_of(increased.accounts[1]) == Some((count + increase_by) as u64)
            &&& forall|i: int|
                0 <= i < accounts.len() && i != 1 ==> increased.accounts[i] == accounts[i]
        }),
{
    let sum = (count + increase_by) as u64;
    lemma_counter_round_trip(Counter { count: sum });
    assert(accounts[1].data.skip(8) =~= Seq::empty());
    assert(with_count(accounts[1], sum).data =~= Counter { count: sum }.encoding());
}

/// `IncreaseCounter` on an account that is not the counter of the caller
/// fails with `InvalidArgument`, and whatever is stored in any account stays
/// as it was.
pub proof fn lemma_increase_rejects_foreign_account(
    derived: Option<(Seq<u8>, u8)>,
    accounts: Seq<AccountView>,
    increase_by: u64,
    outcome: Result<Step, ProgramError>,
    after: Seq<AccountView>,
)
    requires
        accounts.len() >= 3,
        !yields(derived, accounts[1].key),
        carried_out(accounts, increase_counter(derived, accounts, increase_by), outcome, after),
    ensures
        outcome matches Err(error) && error == ProgramError::InvalidArgument,
        after == accounts,
{
}

/// `Commit` and `CommitAndUndelegate` without the initiator's signature fail
/// with `MissingRequiredSignature`: no request is handed to the host and no
/// account changes.
pub proof fn lemma_commit_needs_signature(
    accounts: Seq<AccountView>,
    undelegate: bool,
    outcome: Result<Step, ProgramError>,
    after: Seq<AccountView>,
)
    requires
        accounts.len() >= 4,
        !accounts[0].is_signer,
        carried_out(accounts, commit(accounts, undelegate), outcome, after),
    ensures
        outcome matches Err(error) && error == ProgramError::MissingRequiredSignature,
        after == accounts,
{
}

/// `Undelegate` hands the seeds that came with the instruction to the host
/// as they are and changes no account. Where the host rejects the request,
/// the instruction fails with the host's error and the accounts stay as
/// they were.
pub proof fn lemma_rejected_undelegation(
    program_id: Address,
    accounts: Seq<AccountView>,
    pda_seeds: Seq<Seq<u8>>,
    error: ProgramError,
)
    requires
        accounts.len() >= 4,
    ensures
        ({
            &&& undelegate(program_id, accounts, pda_seeds) matches Ok(asked)
            &&& asked.accounts == accounts
            &&& asked.request matches Some(RequestView::Undelegate(undelegation))
            &&& undelegation.pda_seeds == pda_seeds
            &&& complete(accounts, asked.request.unwrap(), Err(error)) matches Err(raised)
            &&& raised == error
        }),
{
}

/// A delegation of the initiator's own counter names the address that its
/// seeds derive under the owning program.
pub proof fn lemma_delegation_matches_derivation(accounts: Seq<AccountView>)
    requires
        accounts.len() >= 8,
        yields(counter_address(accounts[0].key, accounts[2].key), accounts[1].key),
    ensures
        ({
            &&& delegate(accounts) matches Ok(asked)
            &&& asked.request matches Some(RequestView::Delegate(delegation))
            &&& yields(
                program_address(delegation.pda_seeds, delegation.owner_program.bytes@),
                delegation.pda,
            )
        }),
{
}

/// Whether `after` differs from `before` in nothing but what the second
/// account stores, and there not in size.
pub open spec fn only_counter_storage_differs(
    before: Seq<AccountView>,
    after: Seq<AccountView>,
) -> bool {
    &&& after.len() == before.len()
    &&& forall|i: int| 0 <= i < before.len() && i != 1 ==> after[i] == before[i]
    &&& before.len() > 1 ==> after[1] == AccountView { data: after[1].data, ..before[1] }
        && after[1].data.len() == before[1].data.len()
}

/// The first step of an instruction changes nothing but the count stored in
/// the second account, and changes that only where the second account is
/// the counter that derives from the first: the count of one owner is out
/// of reach for every other.
pub proof fn lemma_only_the_owner_changes_the_count(
    program_id: Address,
    accounts: Seq<AccountView>,
    instruction: InstructionView,
)
    requires
        execute(program_id, accounts, instruction) is Ok,
    ensures
        only_counter_storage_differs(
            accounts,
            execute(program_id, accounts, instruction).unwrap().accounts,
        ),
        execute(program_id, accounts, instruction).unwrap().accounts != accounts ==> is_counter_of(
            accounts[1].key,
            accounts[0].key,
            program_id,
        ),
{
    let after = execute(program_id, accounts, instruction).unwrap().accounts;
    if after != accounts {
        lemma_le_bytes_len(0, 8);
        match instruction {
            InstructionView::IncreaseCounter { increase_by } => {
                let sum = (count_of(accounts[1]).unwrap() + increase_by) as u64;
                lemma_le_bytes_len(sum as nat, 8);
            },
            _ => {},
        }
    }
}

/// The second step of an instruction changes nothing but the count stored
/// in the second account.
pub proof fn lemma_completion_changes_the_count_alone(
    accounts: Seq<AccountView>,
    request: RequestView,
    reply: Result<(), ProgramError>,
)
    requires
        complete(accounts, request, reply) is Ok,
    ensures
        only_counter_storage_differs(accounts, complete(accounts, request, reply).unwrap()),
{
    lemma_le_bytes_len(0, 8);
}

} // verus!
