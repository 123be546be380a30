//! The commands that the running bot is dispatched with.
use vstd::prelude::*;

verus! {

/// Commands of the bot, as `/snake_case` words in a message; the payload, if any,
/// follows the command word.
#[derive(Clone, Debug, PartialEq, Eq)]
pub enum Command {
    Help,
    AddAdmin(String),
    RemoveAdmin(String),
    SetMemeCounter(usize),
    SetMemeLimit(usize),
    MemeLimit,
    MemeCounter,
    SubscribeForwards,
    ForwardSubscribers,
    Admins,
    Config,
    Cbz(String),
}

} // verus!
