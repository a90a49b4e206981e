use vstd::prelude::*;

use crate::error::LotteryError;

verus! {

/// Tag byte of an initialization request.
pub const TAG_INITIALIZE: u8 = 0;

/// Tag byte of a ticket purchase, followed by the amount as a little-endian `u64`.
pub const TAG_BUY_TICKET: u8 = 1;

/// Tag byte of a draw.
pub const TAG_DRAW: u8 = 2;

/// An operation on the lottery, as a request payload names it.
#[derive(Clone, Copy, Debug, PartialEq, Eq, Structural)]
pub enum LotteryInstruction {
    Initialize,
    /// Buy one ticket by paying `amount` into the pot. The price is chosen by
    /// the buyer; every ticket has the same weight in the draw, whatever was paid.
    BuyTicket { amount: u64 },
    Draw,
}

/// The little-endian `u64` held in the eight bytes at `off`.
pub open spec fn le_u64_at(b: Seq<u8>, off: int) -> nat {
    (b[off] as nat) + 0x100 * (b[off + 1] as nat) + 0x1_0000 * (b[off + 2] as nat) + 0x100_0000 * (
    b[off + 3] as nat) + 0x1_0000_0000 * (b[off + 4] as nat) + 0x100_0000_0000 * (b[off + 5] as nat)
        + 0x1_0000_0000_0000 * (b[off + 6] as nat) + 0x100_0000_0000_0000 * (b[off + 7] as nat)
}

/// The operation a payload requests: a tag byte, then the operation's fields.
/// Bytes past those fields are ignored.
pub open spec fn decode_instruction(input: Seq<u8>) -> Result<LotteryInstruction, LotteryError> {
    if input.len() == 0 {
        Err(LotteryError::InvalidInstructionData)
    } else if input[0] == TAG_INITIALIZE {
        Ok(LotteryInstruction::Initialize)
    } else if input[0] == TAG_BUY_TICKET {
        if input.len() >= 9 {
            Ok(LotteryInstruction::BuyTicket { amount: le_u64_at(input, 1) as u64 })
        } else {
            Err(LotteryError::InvalidInstructionData)
        }
    } else if input[0] == TAG_DRAW {
        Ok(LotteryInstruction::Draw)
    } else {
        Err(LotteryError::InvalidInstructionData)
    }
}

impl LotteryInstruction {
    /// Decodes a request payload.
    pub fn unpack(input: &[u8]) -> (r: Result<LotteryInstruction, LotteryError>)
        ensures
            r == decode_instruction(input@),
    {
        if input.len() == 0 {
            return Err(LotteryError::InvalidInstructionData);
        }
        let tag: u8 = input[0];
        if tag == TAG_INITIALIZE {
            Ok(LotteryInstruction::Initialize)
        } else if tag == TAG_BUY_TICKET {
            if input.len() < 9 {
                return Err(LotteryError::InvalidInstructionData);
            }
            let amount: u64 = input[1] as u64 + 0x100 * (input[2] as u64) + 0x1_0000 * (
            input[3] as u64) + 0x100_0000 * (input[4] as u64) + 0x1_0000_0000 * (input[5] as u64)
                + 0x100_0000_0000 * (input[6] as u64) + 0x1_0000_0000_0000 * (input[7] as u64)
                + 0x100_0000_0000_0000 * (input[8] as u64);
            Ok(LotteryInstruction::BuyTicket { amount })
        } else if tag == TAG_DRAW {
            Ok(LotteryInstruction::Draw)
        } else {
            Err(LotteryError::InvalidInstructionData)
        }
    }
}

} // verus!
