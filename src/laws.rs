use vstd::prelude::*;

use crate::error::LotteryError;
use crate::instruction::{decode_instruction, LotteryInstruction};
use crate::processor::{
    accounts_needed, buy_ticket_post, draw_post, initialize_post, process_post, winner_index, AccountView,
};
use crate::pubkey::Pubkey;
use crate::state::{decode_record, encodes, ticket_slot, LotteryView, MAX_PLAYERS};

verus! {

/// The sum of a list of amounts.
pub open spec fn total(amounts: Seq<u64>) -> int
    decreases amounts.len(),
{
    if amounts.len() == 0 {
        0
    } else {
        total(amounts.drop_last()) + amounts.last()
    }
}

/// The record held by an account, when it holds one.
pub open spec fn record_of(account: AccountView) -> LotteryView {
    decode_record(account.data)->Ok_0
}

/// `lotteries[i + 1]` is the record storage after the `i`-th of a run of
/// successful purchases, made by `players[i]` (who ends as `players2[i]`)
/// for `amounts[i]`.
pub open spec fn buy_run(
    program_id: Pubkey,
    lotteries: Seq<AccountView>,
    players: Seq<AccountView>,
    players2: Seq<AccountView>,
    amounts: Seq<u64>,
) -> bool {
    &&& lotteries.len() == amounts.len() + 1
    &&& players.len() == amounts.len()
    &&& players2.len() == amounts.len()
    &&& forall|i: int|
        0 <= i < amounts.len() ==> #[trigger] buy_ticket_post(
            program_id,
            lotteries[i],
            players[i],
            amounts[i],
            lotteries[i + 1],
            players2[i],
            Ok(()),
        )
}

/// Along a run of successful purchases the pot grows by exactly what was
/// paid in, each buyer pays exactly their amount, one ticket is appended per
/// purchase in purchase order, and the authority stays the same.
pub proof fn lemma_buy_run(
    program_id: Pubkey,
    lotteries: Seq<AccountView>,
    players: Seq<AccountView>,
    players2: Seq<AccountView>,
    amounts: Seq<u64>,
)
    requires
        buy_run(program_id, lotteries, players, players2, amounts),
        decode_record(lotteries[0].data) is Ok,
    ensures
        lotteries.last().lamports == lotteries[0].lamports + total(amounts),
        decode_record(lotteries.last().data) is Ok,
        lotteries.last().owner == lotteries[0].owner,
        lotteries.last().key == lotteries[0].key,
        record_of(lotteries.last()).authority == record_of(lotteries[0]).authority,
        record_of(lotteries.last()).tickets == record_of(lotteries[0]).tickets + Seq::new(
            amounts.len(),
            |i: int| players[i].key@,
        ),
        forall|i: int|
            0 <= i < amounts.len() ==> #[trigger] players2[i].lamports == players[i].lamports - amounts[i],
    decreases amounts.len(),
{
    let n = amounts.len();
    if n == 0 {
        assert(record_of(lotteries[0]).tickets + Seq::new(0, |i: int| players[i].key@) =~= record_of(
            lotteries[0],
        ).tickets);
    } else {
        let m = (n - 1) as int;
        assert(buy_ticket_post(program_id, lotteries[m], players[m], amounts[m], lotteries[m + 1], players2[m], Ok(())));
        lemma_buy_run(
            program_id,
            lotteries.drop_last(),
            players.drop_last(),
            players2.drop_last(),
            amounts.drop_last(),
        );
        assert(buy_run(program_id, lotteries.drop_last(), players.drop_last(), players2.drop_last(), amounts.drop_last())) by {
            assert forall|i: int| 0 <= i < m implies #[trigger] buy_ticket_post(
                program_id,
                lotteries.drop_last()[i],
                players.drop_last()[i],
                amounts.drop_last()[i],
                lotteries.drop_last()[i + 1],
                players2.drop_last()[i],
                Ok(()),
            ) by {
                assert(buy_ticket_post(program_id, lotteries[i], players[i], amounts[i], lotteries[i + 1], players2[i], Ok(())));
            }
        }
        assert(record_of(lotteries.last()).tickets =~= record_of(lotteries[0]).tickets + Seq::new(
            n,
            |i: int| players[i].key@,
        ));
        assert forall|i: int| 0 <= i < n implies #[trigger] players2[i].lamports == players[i].lamports - amounts[i] by {
            assert(buy_ticket_post(program_id, lotteries[i], players[i], amounts[i], lotteries[i + 1], players2[i], Ok(())));
        }
    }
}

/// Fund conservation over a round: after a run of successful purchases the
/// record storage holds its starting balance plus every amount paid in; a
/// successful draw then brings it back to the floor, and the winner's balance
/// grows by exactly what it held above the floor. A round that starts at the
/// floor thus pays the winner the sum of the amounts paid in.
pub proof fn lemma_fund_conservation(
    program_id: Pubkey,
    lotteries: Seq<AccountView>,
    players: Seq<AccountView>,
    players2: Seq<AccountView>,
    amounts: Seq<u64>,
    authority: AccountView,
    winner: AccountView,
    entropy: u64,
    floor: u64,
    lottery_after: AccountView,
    authority_after: AccountView,
    winner_after: AccountView,
)
    requires
        buy_run(program_id, lotteries, players, players2, amounts),
        decode_record(lotteries[0].data) is Ok,
        draw_post(
            program_id,
            lotteries.last(),
            authority,
            winner,
            entropy,
            floor,
            lottery_after,
            authority_after,
            winner_after,
            Ok(()),
        ),
    ensures
        lotteries.last().lamports == lotteries[0].lamports + total(amounts),
        lottery_after.lamports == floor,
        winner_after.lamports == winner.lamports + (lotteries.last().lamports - floor),
        lotteries[0].lamports == floor ==> winner_after.lamports == winner.lamports + total(amounts),
        record_of(lottery_after).tickets.len() == 0,
{
    lemma_buy_run(program_id, lotteries, players, players2, amounts);
}

/// A record is initialized once: a second initialization of storage that
/// one has already written fails and changes nothing.
pub proof fn lemma_single_initialization(
    program_id: Pubkey,
    lottery0: AccountView,
    authority0: AccountView,
    lottery1: AccountView,
    authority1: AccountView,
    authority: AccountView,
    lottery2: AccountView,
    authority2: AccountView,
    r: Result<(), LotteryError>,
)
    requires
        initialize_post(program_id, lottery0, authority0, lottery1, authority1, Ok(())),
        initialize_post(program_id, lottery1, authority, lottery2, authority2, r),
    ensures
        r is Err,
        lottery2 == lottery1,
        authority2 == authority,
        authority.is_signer ==> r == Err::<(), LotteryError>(LotteryError::AlreadyInitialized),
{
}

/// Only the authority named at initialization can draw: after any run of
/// purchases, a draw signed by another identity fails with `NotAuthorized`
/// and changes nothing.
pub proof fn lemma_authority_gates_draw(
    program_id: Pubkey,
    fresh: AccountView,
    creator: AccountView,
    creator_after: AccountView,
    lotteries: Seq<AccountView>,
    players: Seq<AccountView>,
    players2: Seq<AccountView>,
    amounts: Seq<u64>,
    authority: AccountView,
    winner: AccountView,
    entropy: u64,
    floor: u64,
    lottery_after: AccountView,
    authority_after: AccountView,
    winner_after: AccountView,
    r: Result<(), LotteryError>,
)
    requires
        buy_run(program_id, lotteries, players, players2, amounts),
        initialize_post(program_id, fresh, creator, lotteries[0], creator_after, Ok(())),
        authority.key != creator.key,
        draw_post(
            program_id,
            lotteries.last(),
            authority,
            winner,
            entropy,
            floor,
            lottery_after,
            authority_after,
            winner_after,
            r,
        ),
    ensures
        r == Err::<(), LotteryError>(LotteryError::NotAuthorized),
        lottery_after == lotteries.last(),
        authority_after == authority,
        winner_after == winner,
{
    lemma_buy_run(program_id, lotteries, players, players2, amounts);
    crate::pubkey::lemma_pubkey_view_eq(authority.key, creator.key);
}

/// A draw on a record with no ticket fails and leaves the pot where it is;
/// when the request is otherwise in order the failure is `NoPlayers`.
pub proof fn lemma_no_players(
    program_id: Pubkey,
    lottery: AccountView,
    authority: AccountView,
    winner: AccountView,
    entropy: u64,
    floor: u64,
    lottery_after: AccountView,
    authority_after: AccountView,
    winner_after: AccountView,
    r: Result<(), LotteryError>,
)
    requires
        decode_record(lottery.data) is Ok,
        record_of(lottery).tickets.len() == 0,
        draw_post(program_id, lottery, authority, winner, entropy, floor, lottery_after, authority_after, winner_after, r),
    ensures
        r is Err,
        lottery_after == lottery,
        winner_after == winner,
        authority.is_signer && lottery.owner == program_id && record_of(lottery).authority == authority.key@
            ==> r == Err::<(), LotteryError>(LotteryError::NoPlayers),
{
}

/// The winner is the holder of ticket `entropy % n`: a successful draw paid
/// that holder, and naming anyone else, in an otherwise valid draw, fails
/// with `InvalidWinner` without clearing the tickets or moving funds.
pub proof fn lemma_winner_determinism(
    program_id: Pubkey,
    lottery: AccountView,
    authority: AccountView,
    winner: AccountView,
    entropy: u64,
    floor: u64,
    lottery_after: AccountView,
    authority_after: AccountView,
    winner_after: AccountView,
    r: Result<(), LotteryError>,
)
    requires
        draw_post(program_id, lottery, authority, winner, entropy, floor, lottery_after, authority_after, winner_after, r),
    ensures
        r is Ok ==> {
            let tickets = record_of(lottery).tickets;
            &&& tickets.len() > 0
            &&& winner.key@ == tickets[winner_index(entropy, tickets.len())]
        },
        ({
            let tickets = record_of(lottery).tickets;
            &&& authority.is_signer
            &&& lottery.owner == program_id
            &&& decode_record(lottery.data) is Ok
            &&& record_of(lottery).authority == authority.key@
            &&& tickets.len() > 0
            &&& winner.key@ != tickets[winner_index(entropy, tickets.len())]
        }) ==> {
            &&& r == Err::<(), LotteryError>(LotteryError::InvalidWinner)
            &&& lottery_after == lottery
            &&& winner_after == winner
        },
{
}

/// A purchase on a full record fails and appends nothing; when the request
/// is otherwise in order the failure is `CapacityExceeded`.
pub proof fn lemma_capacity_boundary(
    program_id: Pubkey,
    lottery: AccountView,
    player: AccountView,
    amount: u64,
    lottery_after: AccountView,
    player_after: AccountView,
    r: Result<(), LotteryError>,
)
    requires
        decode_record(lottery.data) is Ok,
        record_of(lottery).tickets.len() == MAX_PLAYERS,
        buy_ticket_post(program_id, lottery, player, amount, lottery_after, player_after, r),
    ensures
        r is Err,
        lottery_after == lottery,
        player_after == player,
        player.is_signer && lottery.owner == program_id ==> r == Err::<(), LotteryError>(
            LotteryError::CapacityExceeded,
        ),
{
}

/// No purchase takes a record past capacity.
pub proof fn lemma_capacity_kept(
    program_id: Pubkey,
    lottery: AccountView,
    player: AccountView,
    amount: u64,
    lottery_after: AccountView,
    player_after: AccountView,
)
    requires
        buy_ticket_post(program_id, lottery, player, amount, lottery_after, player_after, Ok(())),
    ensures
        record_of(lottery_after).tickets.len() <= MAX_PLAYERS,
        record_of(lottery_after).tickets.len() == record_of(lottery).tickets.len() + 1,
{
}

/// After a draw the record serves the next round: a run of purchases that
/// follows it leaves the storage holding the floor plus the amounts paid in,
/// with exactly those buyers' tickets, first buyer at position 0.
pub proof fn lemma_next_round(
    program_id: Pubkey,
    lottery: AccountView,
    authority: AccountView,
    winner: AccountView,
    entropy: u64,
    floor: u64,
    authority_after: AccountView,
    winner_after: AccountView,
    lotteries: Seq<AccountView>,
    players: Seq<AccountView>,
    players2: Seq<AccountView>,
    amounts: Seq<u64>,
)
    requires
        buy_run(program_id, lotteries, players, players2, amounts),
        draw_post(
            program_id,
            lottery,
            authority,
            winner,
            entropy,
            floor,
            lotteries[0],
            authority_after,
            winner_after,
            Ok(()),
        ),
    ensures
        lotteries.last().lamports == floor + total(amounts),
        record_of(lotteries.last()).authority == record_of(lottery).authority,
        record_of(lotteries.last()).tickets == Seq::new(amounts.len(), |i: int| players[i].key@),
{
    lemma_buy_run(program_id, lotteries, players, players2, amounts);
    assert(record_of(lotteries[0]).tickets + Seq::new(amounts.len(), |i: int| players[i].key@) =~= Seq::new(
        amounts.len(),
        |i: int| players[i].key@,
    ));
}

/// The storage image of a record is unique.
pub proof fn lemma_encoding_unique(a: Seq<u8>, b: Seq<u8>, v: LotteryView)
    requires
        encodes(a, v),
        encodes(b, v),
    ensures
        a == b,
{
    let n = v.tickets.len() as int;
    assert forall|i: int| 0 <= i < a.len() implies a[i] == b[i] by {
        if 1 <= i < 33 {
            assert(a.subrange(1, 33)[i - 1] == b.subrange(1, 33)[i - 1]);
        } else if 37 <= i < 37 + 32 * n {
            let j = (i - 37) / 32;
            assert(0 <= j < n && 0 <= i - 37 - 32 * j < 32) by (nonlinear_arith)
                requires
                    37 <= i < 37 + 32 * n,
                    j == (i - 37) / 32,
            ;
            assert(ticket_slot(a, j) == v.tickets[j]);
            assert(ticket_slot(b, j) == v.tickets[j]);
            assert(a.subrange(37 + 32 * j, 37 + 32 * j + 32)[i - 37 - 32 * j] == b.subrange(
                37 + 32 * j,
                37 + 32 * j + 32,
            )[i - 37 - 32 * j]);
        }
    }
    assert(a =~= b);
}

/// A draw ends a round where initialization began it: after initialization,
/// any run of purchases and a successful draw, the record storage holds
/// exactly the bytes that initialization wrote.
pub proof fn lemma_round_reset(
    program_id: Pubkey,
    fresh: AccountView,
    creator: AccountView,
    creator_after: AccountView,
    lotteries: Seq<AccountView>,
    players: Seq<AccountView>,
    players2: Seq<AccountView>,
    amounts: Seq<u64>,
    authority: AccountView,
    winner: AccountView,
    entropy: u64,
    floor: u64,
    lottery_after: AccountView,
    authority_after: AccountView,
    winner_after: AccountView,
)
    requires
        buy_run(program_id, lotteries, players, players2, amounts),
        initialize_post(program_id, fresh, creator, lotteries[0], creator_after, Ok(())),
        draw_post(
            program_id,
            lotteries.last(),
            authority,
            winner,
            entropy,
            floor,
            lottery_after,
            authority_after,
            winner_after,
            Ok(()),
        ),
    ensures
        lottery_after.data == lotteries[0].data,
        lottery_after.lamports == floor,
        lottery_after.key == lotteries[0].key,
        lottery_after.owner == lotteries[0].owner,
{
    lemma_buy_run(program_id, lotteries, players, players2, amounts);
    lemma_encoding_unique(lottery_after.data, lotteries[0].data, LotteryView::empty(creator.key@));
}
/// A request's outcome is a function of its inputs: two runs of the same
/// request on the same accounts, entropy and floor give the same result and
/// leave the same accounts.
pub proof fn lemma_process_deterministic(
    program_id: Pubkey,
    pre: Seq<AccountView>,
    input: Seq<u8>,
    entropy: u64,
    floor: u64,
    post1: Seq<AccountView>,
    r1: Result<(), LotteryError>,
    post2: Seq<AccountView>,
    r2: Result<(), LotteryError>,
)
    requires
        process_post(program_id, pre, post1, input, entropy, floor, r1),
        process_post(program_id, pre, post2, input, entropy, floor, r2),
    ensures
        r1 == r2,
        post1 == post2,
{
    if let Ok(ins) = decode_instruction(input) {
        let k = accounts_needed(ins) as int;
        if pre.len() >= k {
            match ins {
                LotteryInstruction::Initialize => {
                    if r1 is Ok {
                        lemma_encoding_unique(post1[0].data, post2[0].data, LotteryView::empty(pre[1].key@));
                    }
                },
                LotteryInstruction::BuyTicket { amount } => {
                    if r1 is Ok {
                        lemma_encoding_unique(
                            post1[0].data,
                            post2[0].data,
                            record_of(pre[0]).push_ticket(pre[1].key@),
                        );
                    }
                },
                LotteryInstruction::Draw => {
                    if r1 is Ok {
                        lemma_encoding_unique(post1[0].data, post2[0].data, LotteryView::empty(pre[1].key@));
                    }
                },
            }
            assert forall|i: int| 0 <= i < post1.len() implies post1[i] == post2[i] by {
                if i >= k {
                    assert(post1[i] == post1.subrange(k, post1.len() as int)[i - k]);
                    assert(post2[i] == post2.subrange(k, post2.len() as int)[i - k]);
                }
            }
            assert(post1 =~= post2);
        }
    }
    if r1 is Ok && r2 is Ok {
        let (u1, u2) = (r1->Ok_0, r2->Ok_0);
        assert(u1 == u2);
    }
}
} // verus!
