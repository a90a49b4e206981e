use vstd::prelude::*;

use crate::error::LotteryError;
use crate::instruction::{decode_instruction, LotteryInstruction};
use crate::pubkey::Pubkey;
use crate::state::{decode_record, encodes, Lottery, LotteryView, MAX_PLAYERS, RECORD_LEN};

verus! {

/// One account as the hosting ledger hands it to an operation: its identity,
/// the program that owns it, whether it signed the request, its balance and
/// its stored bytes.
#[derive(Debug)]
pub struct AccountInfo {
    pub key: Pubkey,
    pub owner: Pubkey,
    pub is_signer: bool,
    pub lamports: u64,
    pub data: Vec<u8>,
}

pub struct AccountView {
    pub key: Pubkey,
    pub owner: Pubkey,
    pub is_signer: bool,
    pub lamports: u64,
    pub data: Seq<u8>,
}

impl View for AccountInfo {
    type V = AccountView;

    open spec fn view(&self) -> AccountView {
        AccountView {
            key: self.key,
            owner: self.owner,
            is_signer: self.is_signer,
            lamports: self.lamports,
            data: self.data@,
        }
    }
}

impl AccountView {
    /// This account with another balance and other stored bytes.
    pub open spec fn with(self, lamports: u64, data: Seq<u8>) -> AccountView {
        AccountView { lamports, data, ..self }
    }

    /// `post` is this account with its balance set to `lamports` and the
    /// storage image of `v` as its bytes.
    pub open spec fn rewritten(self, post: AccountView, lamports: u64, v: LotteryView) -> bool {
        &&& post == self.with(lamports, post.data)
        &&& encodes(post.data, v)
    }
}

/// The accounts of an initialization: the record storage and the authority.
pub struct Initialize {
    pub lottery: AccountInfo,
    pub authority: AccountInfo,
}

/// The accounts of a ticket purchase: the record storage, which holds the
/// pot, and the paying participant.
pub struct BuyTicket {
    pub lottery: AccountInfo,
    pub player: AccountInfo,
}

/// The accounts of a draw: the record storage, the authority and the account
/// named as winner.
pub struct Draw {
    pub lottery: AccountInfo,
    pub authority: AccountInfo,
    pub winner: AccountInfo,
}

/// Why an initialization is refused, if it is.
pub open spec fn initialize_error(program_id: Pubkey, lottery: AccountView, authority: AccountView) -> Option<LotteryError> {
    if !authority.is_signer {
        Some(LotteryError::NotAuthorized)
    } else if lottery.owner != program_id {
        Some(LotteryError::IncorrectProgramId)
    } else if lottery.data.len() != RECORD_LEN {
        Some(LotteryError::InvalidAccountData)
    } else if lottery.data[0] != 0 {
        Some(LotteryError::AlreadyInitialized)
    } else {
        None
    }
}

/// The outcome of an initialization: on success the storage holds a record
/// with the signer as authority and no ticket; no balance moves.
pub open spec fn initialize_post(
    program_id: Pubkey,
    lottery: AccountView,
    authority: AccountView,
    lottery2: AccountView,
    authority2: AccountView,
    r: Result<(), LotteryError>,
) -> bool {
    match initialize_error(program_id, lottery, authority) {
        Some(e) => r == Err::<(), LotteryError>(e) && lottery2 == lottery && authority2 == authority,
        None => {
            &&& r is Ok
            &&& authority2 == authority
            &&& lottery.rewritten(lottery2, lottery.lamports, LotteryView::empty(authority.key@))
        },
    }
}

/// Why a ticket purchase is refused, if it is.
pub open spec fn buy_ticket_error(program_id: Pubkey, lottery: AccountView, player: AccountView, amount: u64) -> Option<LotteryError> {
    if !player.is_signer {
        Some(LotteryError::NotAuthorized)
    } else if lottery.owner != program_id {
        Some(LotteryError::IncorrectProgramId)
    } else if decode_record(lottery.data) is Err {
        Some(decode_record(lottery.data)->Err_0)
    } else if decode_record(lottery.data)->Ok_0.tickets.len() >= MAX_PLAYERS {
        Some(LotteryError::CapacityExceeded)
    } else if player.lamports < amount {
        Some(LotteryError::InsufficientFunds)
    } else if lottery.lamports + amount > u64::MAX {
        Some(LotteryError::ArithmeticOverflow)
    } else {
        None
    }
}

/// The outcome of a ticket purchase: on success `amount` has moved from the
/// player into the pot and the player's identity ends the ticket list.
pub open spec fn buy_ticket_post(
    program_id: Pubkey,
    lottery: AccountView,
    player: AccountView,
    amount: u64,
    lottery2: AccountView,
    player2: AccountView,
    r: Result<(), LotteryError>,
) -> bool {
    match buy_ticket_error(program_id, lottery, player, amount) {
        Some(e) => r == Err::<(), LotteryError>(e) && lottery2 == lottery && player2 == player,
        None => {
            &&& r is Ok
            &&& player2 == player.with((player.lamports - amount) as u64, player.data)
            &&& lottery.rewritten(
                lottery2,
                (lottery.lamports + amount) as u64,
                decode_record(lottery.data)->Ok_0.push_ticket(player.key@),
            )
        },
    }
}

/// The position of the winning ticket among `n` tickets for entropy value `entropy`.
pub open spec fn winner_index(entropy: u64, n: nat) -> int {
    (entropy as nat % n) as int
}

/// Why a draw is refused, if it is.
pub open spec fn draw_error(
    program_id: Pubkey,
    lottery: AccountView,
    authority: AccountView,
    winner: AccountView,
    entropy: u64,
    floor: u64,
) -> Option<LotteryError> {
    let rec = decode_record(lottery.data)->Ok_0;
    if !authority.is_signer {
        Some(LotteryError::NotAuthorized)
    } else if lottery.owner != program_id {
        Some(LotteryError::IncorrectProgramId)
    } else if decode_record(lottery.data) is Err {
        Some(decode_record(lottery.data)->Err_0)
    } else if rec.authority != authority.key@ {
        Some(LotteryError::NotAuthorized)
    } else if rec.tickets.len() == 0 {
        Some(LotteryError::NoPlayers)
    } else if winner.key@ != rec.tickets[winner_index(entropy, rec.tickets.len())] {
        Some(LotteryError::InvalidWinner)
    } else if lottery.lamports < floor {
        Some(LotteryError::InsufficientFunds)
    } else if winner.lamports + (lottery.lamports - floor) > u64::MAX {
        Some(LotteryError::ArithmeticOverflow)
    } else {
        None
    }
}

/// The outcome of a draw: on success the pot, all the record storage holds
/// above `floor`, has moved to the winner; the storage keeps `floor` and its
/// ticket list is empty again.
pub open spec fn draw_post(
    program_id: Pubkey,
    lottery: AccountView,
    authority: AccountView,
    winner: AccountView,
    entropy: u64,
    floor: u64,
    lottery2: AccountView,
    authority2: AccountView,
    winner2: AccountView,
    r: Result<(), LotteryError>,
) -> bool {
    match draw_error(program_id, lottery, authority, winner, entropy, floor) {
        Some(e) => {
            &&& r == Err::<(), LotteryError>(e)
            &&& lottery2 == lottery
            &&& authority2 == authority
            &&& winner2 == winner
        },
        None => {
            &&& r is Ok
            &&& authority2 == authority
            &&& winner2 == winner.with((winner.lamports + (lottery.lamports - floor)) as u64, winner.data)
            &&& lottery.rewritten(lottery2, floor, LotteryView::empty(authority.key@))
        },
    }
}

/// Writes a new record as the signer's lottery, with no ticket sold.
pub fn initialize(program_id: &Pubkey, ctx: &mut Initialize) -> (r: Result<(), LotteryError>)
    ensures
        initialize_post(
            *program_id,
            old(ctx).lottery@,
            old(ctx).authority@,
            final(ctx).lottery@,
            final(ctx).authority@,
            r,
        ),
{
    if !ctx.authority.is_signer {
        return Err(LotteryError::NotAuthorized);
    }
    if !ctx.lottery.owner.same(program_id) {
        return Err(LotteryError::IncorrectProgramId);
    }
    if ctx.lottery.data.len() != RECORD_LEN {
        return Err(LotteryError::InvalidAccountData);
    }
    if ctx.lottery.data[0] != 0 {
        return Err(LotteryError::AlreadyInitialized);
    }
    let lottery = Lottery::new(ctx.authority.key);
    ctx.lottery.data = lottery.pack();
    Ok(())
}

/// Sells one ticket: moves `amount` from the player into the pot, then
/// records the player's identity at the end of the ticket list. A refused
/// purchase changes nothing. The buyer chooses the price, zero included;
/// every ticket weighs the same in the draw whatever was paid for it.
pub fn buy_ticket(program_id: &Pubkey, ctx: &mut BuyTicket, amount: u64) -> (r: Result<(), LotteryError>)
    ensures
        buy_ticket_post(
            *program_id,
            old(ctx).lottery@,
            old(ctx).player@,
            amount,
            final(ctx).lottery@,
            final(ctx).player@,
            r,
        ),
{
    if !ctx.player.is_signer {
        return Err(LotteryError::NotAuthorized);
    }
    if !ctx.lottery.owner.same(program_id) {
        return Err(LotteryError::IncorrectProgramId);
    }
    let mut lottery = match Lottery::unpack(&ctx.lottery.data) {
        Ok(l) => l,
        Err(e) => return Err(e),
    };
    if lottery.tickets.len() >= MAX_PLAYERS {
        return Err(LotteryError::CapacityExceeded);
    }
    if ctx.player.lamports < amount {
        return Err(LotteryError::InsufficientFunds);
    }
    let pot: u64 = match ctx.lottery.lamports.checked_add(amount) {
        Some(p) => p,
        None => return Err(LotteryError::ArithmeticOverflow),
    };
    let ghost before = lottery@;
    ctx.player.lamports = ctx.player.lamports - amount;
    ctx.lottery.lamports = pot;
    lottery.tickets.push(ctx.player.key);
    assert(lottery@.tickets =~= before.tickets.push(ctx.player.key@));
    ctx.lottery.data = lottery.pack();
    Ok(())
}

/// Pays the whole pot to the holder of the drawn ticket and starts a new
/// round. The pot is the balance of the record storage above `floor`, the
/// least balance the storage needs to go on existing; the storage keeps
/// `floor`, so the same record serves the next round. The drawn ticket is the one at `entropy % n` among the `n` sold;
/// the account named as winner must be its holder, since the caller only
/// names it and the draw checks it.
///
/// Known weakness: `entropy` is a value the hosting ledger makes available
/// at call time (a slot number), so whoever submits the draw can foresee it
/// and choose when to submit. A source that stays unknown until ticket
/// sales close would remove that advantage.
pub fn draw(program_id: &Pubkey, ctx: &mut Draw, entropy: u64, floor: u64) -> (r: Result<(), LotteryError>)
    ensures
        draw_post(
            *program_id,
            old(ctx).lottery@,
            old(ctx).authority@,
            old(ctx).winner@,
            entropy,
            floor,
            final(ctx).lottery@,
            final(ctx).authority@,
            final(ctx).winner@,
            r,
        ),
{
    if !ctx.authority.is_signer {
        return Err(LotteryError::NotAuthorized);
    }
    if !ctx.lottery.owner.same(program_id) {
        return Err(LotteryError::IncorrectProgramId);
    }
    let lottery = match Lottery::unpack(&ctx.lottery.data) {
        Ok(l) => l,
        Err(e) => return Err(e),
    };
    if !lottery.authority.same(&ctx.authority.key) {
        return Err(LotteryError::NotAuthorized);
    }
    let n: usize = lottery.tickets.len();
    if n == 0 {
        return Err(LotteryError::NoPlayers);
    }
    let idx: usize = (entropy % (n as u64)) as usize;
    if !ctx.winner.key.same(&lottery.tickets[idx]) {
        return Err(LotteryError::InvalidWinner);
    }
    if ctx.lottery.lamports < floor {
        return Err(LotteryError::InsufficientFunds);
    }
    let pot: u64 = ctx.lottery.lamports - floor;
    let prize: u64 = match ctx.winner.lamports.checked_add(pot) {
        Some(p) => p,
        None => return Err(LotteryError::ArithmeticOverflow),
    };
    ctx.winner.lamports = prize;
    ctx.lottery.lamports = floor;
    let cleared = Lottery::new(lottery.authority);
    ctx.lottery.data = cleared.pack();
    Ok(())
}

/// The views of a list of accounts.
pub open spec fn views(accounts: Seq<AccountInfo>) -> Seq<AccountView> {
    accounts.map_values(|a: AccountInfo| a@)
}

/// How many accounts, taken from the front of the list, an operation uses.
pub open spec fn accounts_needed(ins: LotteryInstruction) -> nat {
    match ins {
        LotteryInstruction::Draw => 3,
        _ => 2,
    }
}

/// The outcome of a request: the payload names the operation, the leading
/// accounts are its accounts in the order of its context, and the others
/// are left alone.
pub open spec fn process_post(
    program_id: Pubkey,
    pre: Seq<AccountView>,
    post: Seq<AccountView>,
    input: Seq<u8>,
    entropy: u64,
    floor: u64,
    r: Result<(), LotteryError>,
) -> bool {
    match decode_instruction(input) {
        Err(e) => r == Err::<(), LotteryError>(e) && post == pre,
        Ok(ins) => if pre.len() < accounts_needed(ins) {
            r == Err::<(), LotteryError>(LotteryError::NotEnoughAccountKeys) && post == pre
        } else {
            &&& post.len() == pre.len()
            &&& post.subrange(accounts_needed(ins) as int, post.len() as int) == pre.subrange(
                accounts_needed(ins) as int,
                pre.len() as int,
            )
            &&& match ins {
                LotteryInstruction::Initialize => initialize_post(program_id, pre[0], pre[1], post[0], post[1], r),
                LotteryInstruction::BuyTicket { amount } => buy_ticket_post(
                    program_id,
                    pre[0],
                    pre[1],
                    amount,
                    post[0],
                    post[1],
                    r,
                ),
                LotteryInstruction::Draw => draw_post(
                    program_id,
                    pre[0],
                    pre[1],
                    pre[2],
                    entropy,
                    floor,
                    post[0],
                    post[1],
                    post[2],
                    r,
                ),
            }
        },
    }
}

/// Runs one request against the accounts it names. `entropy` is the value
/// the hosting ledger supplies for a draw, and `floor` the least balance the
/// record storage needs to exist; other operations ignore both.
pub fn process_instruction(
    program_id: &Pubkey,
    accounts: &mut Vec<AccountInfo>,
    instruction_data: &[u8],
    entropy: u64,
    floor: u64,
) -> (r: Result<(), LotteryError>)
    ensures
        process_post(
            *program_id,
            views(old(accounts)@),
            views(final(accounts)@),
            instruction_data@,
            entropy,
            floor,
            r,
        ),
{
    let instruction = match LotteryInstruction::unpack(instruction_data) {
        Ok(i) => i,
        Err(e) => return Err(e),
    };
    let ghost pre = accounts@;
    match instruction {
        LotteryInstruction::Initialize => {
            if accounts.len() < 2 {
                return Err(LotteryError::NotEnoughAccountKeys);
            }
            let lottery = accounts.remove(0);
            let authority = accounts.remove(0);
            let mut ctx = Initialize { lottery, authority };
            let r = initialize(program_id, &mut ctx);
            let Initialize { lottery, authority } = ctx;
            accounts.insert(0, authority);
            accounts.insert(0, lottery);
            assert(views(accounts@).subrange(2, pre.len() as int) =~= views(pre).subrange(2, pre.len() as int));
            r
        },
        LotteryInstruction::BuyTicket { amount } => {
            if accounts.len() < 2 {
                return Err(LotteryError::NotEnoughAccountKeys);
            }
            let lottery = accounts.remove(0);
            let player = accounts.remove(0);
            let mut ctx = BuyTicket { lottery, player };
            let r = buy_ticket(program_id, &mut ctx, amount);
            let BuyTicket { lottery, player } = ctx;
            accounts.insert(0, player);
            accounts.insert(0, lottery);
            assert(views(accounts@).subrange(2, pre.len() as int) =~= views(pre).subrange(2, pre.len() as int));
            r
        },
        LotteryInstruction::Draw => {
            if accounts.len() < 3 {
                return Err(LotteryError::NotEnoughAccountKeys);
            }
            let lottery = accounts.remove(0);
            let authority = accounts.remove(0);
            let winner = accounts.remove(0);
            let mut ctx = Draw { lottery, authority, winner };
            let r = draw(program_id, &mut ctx, entropy, floor);
            let Draw { lottery, authority, winner } = ctx;
            accounts.insert(0, winner);
            accounts.insert(0, authority);
            accounts.insert(0, lottery);
            assert(views(accounts@).subrange(3, pre.len() as int) =~= views(pre).subrange(3, pre.len() as int));
            r
        },
    }
}

} // verus!
