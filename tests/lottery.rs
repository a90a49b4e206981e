use lottery::error::LotteryError;
use lottery::instruction::LotteryInstruction;
use lottery::processor::{
    buy_ticket, draw, initialize, process_instruction, AccountInfo, BuyTicket, Draw, Initialize,
};
use lottery::pubkey::Pubkey;
use lottery::state::{Lottery, MAX_PLAYERS, RECORD_LEN};

fn key(b: u8) -> Pubkey {
    Pubkey::new([b; 32])
}

/// Least balance the record storage needs to exist.
const FLOOR: u64 = 1000;

fn program() -> Pubkey {
    key(200)
}

fn wallet(b: u8, lamports: u64, signed: bool) -> AccountInfo {
    AccountInfo { key: key(b), owner: key(0), is_signer: signed, lamports, data: Vec::new() }
}

fn storage(lamports: u64) -> AccountInfo {
    AccountInfo { key: key(100), owner: program(), is_signer: false, lamports, data: vec![0u8; RECORD_LEN] }
}

fn buy_payload(amount: u64) -> Vec<u8> {
    let mut v = vec![1u8];
    v.extend_from_slice(&amount.to_le_bytes());
    v
}

fn record(acc: &AccountInfo) -> Lottery {
    Lottery::unpack(&acc.data).unwrap()
}

/// Accounts after Initialize by authority `a` (key 1) on fresh storage.
fn initialized() -> Vec<AccountInfo> {
    let mut accounts = vec![storage(FLOOR), wallet(1, 0, true)];
    process_instruction(&program(), &mut accounts, &[0], 0, FLOOR).unwrap();
    accounts
}

fn buy(accounts: &mut Vec<AccountInfo>, player: AccountInfo, amount: u64) -> (Result<(), LotteryError>, AccountInfo) {
    let lottery = accounts.remove(0);
    let mut v = vec![lottery, player];
    let r = process_instruction(&program(), &mut v, &buy_payload(amount), 0, FLOOR);
    let player = v.remove(1);
    accounts.insert(0, v.remove(0));
    (r, player)
}

#[test]
fn pack_writes_fixed_layout() {
    let l = Lottery { authority: key(7), tickets: vec![key(1), key(2)] };
    let d = l.pack();
    assert_eq!(d.len(), RECORD_LEN);
    assert_eq!(RECORD_LEN, 2085);
    assert_eq!(d[0], 1);
    assert!(d[1..33].iter().all(|b| *b == 7));
    assert_eq!(&d[33..37], &[2, 0, 0, 0]);
    assert!(d[37..69].iter().all(|b| *b == 1));
    assert!(d[69..101].iter().all(|b| *b == 2));
    assert!(d[101..].iter().all(|b| *b == 0));
}

#[test]
fn unpack_reads_back_packed_record() {
    let l = Lottery { authority: key(9), tickets: vec![key(3), key(4), key(3)] };
    let back = Lottery::unpack(&l.pack()).unwrap();
    assert_eq!(back.authority, key(9));
    assert_eq!(back.tickets, vec![key(3), key(4), key(3)]);
}

#[test]
fn unpack_rejects_bad_storage() {
    assert_eq!(Lottery::unpack(&vec![1u8; 10]).unwrap_err(), LotteryError::InvalidAccountData);
    assert_eq!(Lottery::unpack(&vec![0u8; RECORD_LEN]).unwrap_err(), LotteryError::NotInitialized);
    let mut d = Lottery { authority: key(9), tickets: vec![] }.pack();
    d[33] = 65;
    assert_eq!(Lottery::unpack(&d).unwrap_err(), LotteryError::InvalidAccountData);
    d[33] = 0;
    d[34] = 1;
    assert_eq!(Lottery::unpack(&d).unwrap_err(), LotteryError::InvalidAccountData);
}

#[test]
fn instruction_tags_decode() {
    assert_eq!(LotteryInstruction::unpack(&[0]), Ok(LotteryInstruction::Initialize));
    assert_eq!(LotteryInstruction::unpack(&[2, 9, 9]), Ok(LotteryInstruction::Draw));
    assert_eq!(
        LotteryInstruction::unpack(&[1, 10, 0, 0, 0, 0, 0, 0, 0]),
        Ok(LotteryInstruction::BuyTicket { amount: 10 })
    );
    assert_eq!(
        LotteryInstruction::unpack(&[1, 1, 2, 3, 4, 5, 6, 7, 8]),
        Ok(LotteryInstruction::BuyTicket { amount: 0x0807060504030201 })
    );
    assert_eq!(
        LotteryInstruction::unpack(&[1, 255, 255, 255, 255, 255, 255, 255, 255]),
        Ok(LotteryInstruction::BuyTicket { amount: u64::MAX })
    );
    assert_eq!(LotteryInstruction::unpack(&[1, 5]), Err(LotteryError::InvalidInstructionData));
    assert_eq!(LotteryInstruction::unpack(&[3]), Err(LotteryError::InvalidInstructionData));
    assert_eq!(LotteryInstruction::unpack(&[]), Err(LotteryError::InvalidInstructionData));
}

#[test]
fn pubkey_comparison() {
    let mut b = [5u8; 32];
    assert!(key(5).same(&Pubkey::new(b)));
    b[31] = 6;
    assert!(!key(5).same(&Pubkey::new(b)));
    assert!(key(5) != Pubkey::new(b));
}

#[test]
fn initialize_writes_empty_record() {
    let accounts = initialized();
    let l = record(&accounts[0]);
    assert_eq!(l.authority, key(1));
    assert!(l.tickets.is_empty());
    assert_eq!(accounts[0].lamports, FLOOR);
}

#[test]
fn initialize_twice_fails_without_change() {
    let mut accounts = initialized();
    let before = accounts[0].data.clone();
    accounts[1] = wallet(2, 0, true);
    let r = process_instruction(&program(), &mut accounts, &[0], 0, FLOOR);
    assert_eq!(r, Err(LotteryError::AlreadyInitialized));
    assert_eq!(accounts[0].data, before);
    assert_eq!(record(&accounts[0]).authority, key(1));
}

#[test]
fn initialize_errors() {
    let mut ctx = Initialize { lottery: storage(0), authority: wallet(1, 0, false) };
    assert_eq!(initialize(&program(), &mut ctx), Err(LotteryError::NotAuthorized));
    let mut ctx = Initialize { lottery: storage(0), authority: wallet(1, 0, true) };
    ctx.lottery.owner = key(3);
    assert_eq!(initialize(&program(), &mut ctx), Err(LotteryError::IncorrectProgramId));
    let mut ctx = Initialize { lottery: storage(0), authority: wallet(1, 0, true) };
    ctx.lottery.data = vec![0u8; 12];
    assert_eq!(initialize(&program(), &mut ctx), Err(LotteryError::InvalidAccountData));
    assert!(ctx.lottery.data == vec![0u8; 12]);
}

#[test]
fn request_errors() {
    let mut accounts = vec![storage(0)];
    assert_eq!(process_instruction(&program(), &mut accounts, &[0], 0, FLOOR), Err(LotteryError::NotEnoughAccountKeys));
    let mut accounts = initialized();
    assert_eq!(process_instruction(&program(), &mut accounts, &[2], 0, FLOOR), Err(LotteryError::NotEnoughAccountKeys));
    assert_eq!(process_instruction(&program(), &mut accounts, &[7], 0, FLOOR), Err(LotteryError::InvalidInstructionData));
    assert_eq!(accounts.len(), 2);
}

#[test]
fn buy_ticket_moves_amount_and_appends() {
    let mut accounts = initialized();
    let (r, p) = buy(&mut accounts, wallet(11, 100, true), 30);
    assert_eq!(r, Ok(()));
    assert_eq!(p.lamports, 70);
    assert_eq!(accounts[0].lamports, FLOOR + 30);
    assert_eq!(record(&accounts[0]).tickets, vec![key(11)]);
}

#[test]
fn buy_ticket_errors_leave_state() {
    let mut accounts = initialized();
    let before = accounts[0].data.clone();
    let (r, p) = buy(&mut accounts, wallet(11, 100, false), 30);
    assert_eq!(r, Err(LotteryError::NotAuthorized));
    assert_eq!(p.lamports, 100);
    let (r, p) = buy(&mut accounts, wallet(11, 20, true), 30);
    assert_eq!(r, Err(LotteryError::InsufficientFunds));
    assert_eq!(p.lamports, 20);
    assert_eq!(accounts[0].lamports, FLOOR);
    assert_eq!(accounts[0].data, before);

    let mut ctx = BuyTicket { lottery: storage(0), player: wallet(11, 100, true) };
    assert_eq!(buy_ticket(&program(), &mut ctx, 5), Err(LotteryError::NotInitialized));
    let mut ctx = BuyTicket { lottery: storage(0), player: wallet(11, 100, true) };
    ctx.lottery.owner = key(3);
    assert_eq!(buy_ticket(&program(), &mut ctx, 5), Err(LotteryError::IncorrectProgramId));

    let mut ctx = BuyTicket { lottery: storage(u64::MAX - 1), player: wallet(11, 100, true) };
    ctx.lottery.data = Lottery { authority: key(1), tickets: vec![] }.pack();
    assert_eq!(buy_ticket(&program(), &mut ctx, 2), Err(LotteryError::ArithmeticOverflow));
    assert_eq!(ctx.lottery.lamports, u64::MAX - 1);
    assert_eq!(ctx.player.lamports, 100);
}

#[test]
fn zero_amount_ticket_is_recorded() {
    let mut accounts = initialized();
    let (r, _) = buy(&mut accounts, wallet(11, 0, true), 0);
    assert_eq!(r, Ok(()));
    assert_eq!(record(&accounts[0]).tickets.len(), 1);
}

#[test]
fn capacity_boundary() {
    let mut accounts = initialized();
    for i in 0..MAX_PLAYERS {
        let (r, _) = buy(&mut accounts, wallet(10, 1, true), 1);
        assert_eq!(r, Ok(()), "purchase {}", i);
    }
    assert_eq!(record(&accounts[0]).tickets.len(), 64);
    let before = accounts[0].data.clone();
    let (r, p) = buy(&mut accounts, wallet(10, 1, true), 1);
    assert_eq!(r, Err(LotteryError::CapacityExceeded));
    assert_eq!(p.lamports, 1);
    assert_eq!(accounts[0].data, before);
    assert_eq!(accounts[0].lamports, FLOOR + 64);
}

#[test]
fn fund_conservation_over_a_round() {
    let mut accounts = initialized();
    let amounts = [10u64, 25, 7, 40];
    for (i, a) in amounts.iter().enumerate() {
        let (r, _) = buy(&mut accounts, wallet(20 + i as u8, 100, true), *a);
        assert_eq!(r, Ok(()));
        let paid: u64 = amounts[..=i].iter().sum();
        assert_eq!(accounts[0].lamports, FLOOR + paid);
    }
    // 9 % 4 == 1: the second ticket, held by key 21.
    let mut v = vec![accounts.remove(0), wallet(1, 0, true), wallet(21, 5, false)];
    let r = process_instruction(&program(), &mut v, &[2], 9, FLOOR);
    assert_eq!(r, Ok(()));
    assert_eq!(v[0].lamports, FLOOR);
    assert_eq!(v[2].lamports, 5 + 82);
    assert!(record(&v[0]).tickets.is_empty());
}

#[test]
fn draw_by_other_identity_fails() {
    let mut accounts = initialized();
    let (r, _) = buy(&mut accounts, wallet(11, 100, true), 10);
    assert_eq!(r, Ok(()));
    let before = accounts[0].data.clone();
    let mut ctx = Draw { lottery: accounts.remove(0), authority: wallet(2, 0, true), winner: wallet(11, 0, false) };
    assert_eq!(draw(&program(), &mut ctx, 0, FLOOR), Err(LotteryError::NotAuthorized));
    assert_eq!(ctx.lottery.data, before);
    assert_eq!(ctx.lottery.lamports, FLOOR + 10);
    ctx.authority = wallet(1, 0, false);
    assert_eq!(draw(&program(), &mut ctx, 0, FLOOR), Err(LotteryError::NotAuthorized));
    ctx.lottery.owner = key(3);
    ctx.authority = wallet(1, 0, true);
    assert_eq!(draw(&program(), &mut ctx, 0, FLOOR), Err(LotteryError::IncorrectProgramId));
}

#[test]
fn draw_without_players_fails() {
    let mut accounts = initialized();
    accounts[0].lamports = 77;
    let mut ctx = Draw { lottery: accounts.remove(0), authority: wallet(1, 0, true), winner: wallet(11, 0, false) };
    assert_eq!(draw(&program(), &mut ctx, 3, FLOOR), Err(LotteryError::NoPlayers));
    assert_eq!(ctx.lottery.lamports, 77);
    assert_eq!(ctx.winner.lamports, 0);
}

#[test]
fn draw_with_wrong_winner_fails() {
    let mut accounts = initialized();
    buy(&mut accounts, wallet(11, 100, true), 10).0.unwrap();
    buy(&mut accounts, wallet(12, 100, true), 10).0.unwrap();
    buy(&mut accounts, wallet(13, 100, true), 10).0.unwrap();
    // 5 % 3 == 2: the holder of the third ticket, key 13.
    let before = accounts[0].data.clone();
    let mut ctx = Draw { lottery: accounts.remove(0), authority: wallet(1, 0, true), winner: wallet(12, 0, false) };
    assert_eq!(draw(&program(), &mut ctx, 5, FLOOR), Err(LotteryError::InvalidWinner));
    assert_eq!(ctx.lottery.data, before);
    assert_eq!(ctx.lottery.lamports, FLOOR + 30);
    assert_eq!(ctx.winner.lamports, 0);
    ctx.winner = wallet(13, 0, false);
    assert_eq!(draw(&program(), &mut ctx, 5, FLOOR), Ok(()));
    assert_eq!(ctx.winner.lamports, 30);
    assert_eq!(ctx.lottery.lamports, FLOOR);
}

#[test]
fn draw_below_floor_fails() {
    let mut accounts = initialized();
    buy(&mut accounts, wallet(11, 100, true), 10).0.unwrap();
    let mut ctx = Draw { lottery: accounts.remove(0), authority: wallet(1, 0, true), winner: wallet(11, 0, false) };
    assert_eq!(draw(&program(), &mut ctx, 0, FLOOR + 11), Err(LotteryError::InsufficientFunds));
    assert_eq!(ctx.lottery.lamports, FLOOR + 10);
    assert_eq!(ctx.winner.lamports, 0);
    assert_eq!(draw(&program(), &mut ctx, 0, FLOOR + 10), Ok(()));
    assert_eq!(ctx.winner.lamports, 0);
    assert_eq!(ctx.lottery.lamports, FLOOR + 10);
}

#[test]
fn draw_overflow_fails() {
    let mut accounts = initialized();
    buy(&mut accounts, wallet(11, 100, true), 10).0.unwrap();
    let mut ctx = Draw { lottery: accounts.remove(0), authority: wallet(1, 0, true), winner: wallet(11, u64::MAX - 5, false) };
    assert_eq!(draw(&program(), &mut ctx, 0, FLOOR), Err(LotteryError::ArithmeticOverflow));
    assert_eq!(ctx.lottery.lamports, FLOOR + 10);
}

#[test]
fn round_reset_scenario() {
    // Authority A = key 1; P1 = key 31, P2 = key 32, P3 = key 33.
    let mut accounts = initialized();
    let (r, _) = buy(&mut accounts, wallet(31, 50, true), 10);
    assert_eq!(r, Ok(()));
    let (r, _) = buy(&mut accounts, wallet(32, 50, true), 10);
    assert_eq!(r, Ok(()));
    let mut v = vec![accounts.remove(0), wallet(1, 0, true), wallet(32, 40, false)];
    // entropy 7: 7 % 2 == 1, so P2 wins.
    let r = process_instruction(&program(), &mut v, &[2], 7, FLOOR);
    assert_eq!(r, Ok(()));
    assert_eq!(v[2].lamports, 40 + 20);
    assert_eq!(v[0].lamports, FLOOR);
    assert!(record(&v[0]).tickets.is_empty());
    assert_eq!(record(&v[0]).authority, key(1));
    let mut accounts = vec![v.remove(0)];
    let (r, _) = buy(&mut accounts, wallet(33, 50, true), 5);
    assert_eq!(r, Ok(()));
    assert_eq!(record(&accounts[0]).tickets[0], key(33));
    assert_eq!(record(&accounts[0]).tickets.len(), 1);
    assert_eq!(accounts[0].lamports, FLOOR + 5);
}
