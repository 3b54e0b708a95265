//! The command-line front end's handle, and the choice that the `send`
//! command makes.

use vstd::prelude::*;

verus! {

/// The command-line interface of a node. Parsing the command line and
/// running the commands is done by the program around the library.
pub struct Cli {}

impl Cli {
    pub fn new() -> (cli: Cli) {
        Cli {}
    }
}

/// One of the node's two chains.
#[derive(Debug, Clone, Copy, PartialEq, Eq, Structural)]
pub enum Chain {
    One,
    Two,
}

/// What the `send` command does with a transaction for chain index `chain`.
#[derive(Debug, Clone, Copy, PartialEq, Eq, Structural)]
pub enum SendPlan {
    /// Mine a block on this chain at once, holding the transaction and a
    /// coinbase paying the sender.
    MineOn(Chain),
    /// Send the transaction to the central node for this chain.
    SendOn(Chain),
    /// The chain index is neither 1 nor 2: report it and do nothing.
    UnknownChain,
}

/// The chain with index 1 or 2.
pub open spec fn chain_of(chain: i32) -> Option<Chain> {
    if chain == 1 {
        Some(Chain::One)
    } else if chain == 2 {
        Some(Chain::Two)
    } else {
        None
    }
}

/// What `send` does: with `mine_now`, mine on the chain; otherwise send to
/// the central node; an index other than 1 or 2 is reported as unknown.
pub fn plan_send(mine_now: bool, chain: i32) -> (plan: SendPlan)
    ensures
        plan == match chain_of(chain) {
            Some(c) => if mine_now {
                SendPlan::MineOn(c)
            } else {
                SendPlan::SendOn(c)
            },
            None => SendPlan::UnknownChain,
        },
{
    let c = if chain == 1 {
        Chain::One
    } else if chain == 2 {
        Chain::Two
    } else {
        return SendPlan::UnknownChain;
    };
    if mine_now {
        SendPlan::MineOn(c)
    } else {
        SendPlan::SendOn(c)
    }
}

} // verus!
