//! Startup parameters of the bot and the message identifiers that it keeps.
use vstd::prelude::*;

verus! {

/// Commands of the bot as the startup module declares them.
#[derive(Clone, Debug, Hash, PartialEq, Eq, PartialOrd, Ord)]
pub enum Command {
    Help,
    AddAdmin(String),
    RemoveAdmin(String),
    SetMemeCounter(usize),
    SetMemeLimit(usize),
    MemeLimit,
    MemeCounter,
    SubscribeForwards,
    ForwardSubscribers,
    Admins,
    Config,
}

impl Default for Command {
    fn default() -> (c: Self)
        ensures
            c is Help,
    {
        Command::Help
    }
}

/// Identifies a message: its id and the id of the chat it was sent to.
#[derive(Clone, Copy, Debug, Hash, PartialEq, Eq, Structural)]
pub struct MsgWrapper {
    pub msg_id: i32,
    pub chat_id: i64,
}

impl MsgWrapper {
    pub fn new(msg_id: i32, chat_id: i64) -> (w: Self)
        ensures
            w.msg_id == msg_id,
            w.chat_id == chat_id,
    {
        MsgWrapper { msg_id, chat_id }
    }
}

/// What the bot is started with: the daily meme limit, the request timeouts
/// (whole seconds) and the number of concurrent connections to the Telegram API.
#[derive(Clone, Debug, Hash, PartialEq, Eq, PartialOrd, Ord, Structural)]
pub struct App {
    meme_limit: usize,
    connect_timeout: u64,
    timeout: u64,
    concurrent_connections: usize,
}

/// The parameters of an [`App`].
pub struct AppView {
    pub meme_limit: usize,
    pub connect_timeout_secs: u64,
    pub timeout_secs: u64,
    pub concurrent_connections: usize,
}

impl View for App {
    type V = AppView;

    closed spec fn view(&self) -> AppView {
        AppView {
            meme_limit: self.meme_limit,
            connect_timeout_secs: self.connect_timeout,
            timeout_secs: self.timeout,
            concurrent_connections: self.concurrent_connections,
        }
    }
}

impl Default for App {
    fn default() -> (app: Self)
        ensures
            app@.meme_limit == 0,
            app@.connect_timeout_secs == 0,
            app@.timeout_secs == 0,
            app@.concurrent_connections == 0,
    {
        App { meme_limit: 0, connect_timeout: 0, timeout: 0, concurrent_connections: 0 }
    }
}

impl App {
    /// Timeouts are given in whole seconds.
    pub fn new(
        meme_limit: usize,
        connect_timeout: u64,
        timeout: u64,
        concurrent_connections: usize,
    ) -> (app: Self)
        ensures
            app@.meme_limit == meme_limit,
            app@.connect_timeout_secs == connect_timeout,
            app@.timeout_secs == timeout,
            app@.concurrent_connections == concurrent_connections,
    {
        App { meme_limit, connect_timeout, timeout, concurrent_connections }
    }

    pub fn meme_limit(&self) -> (n: usize)
        ensures
            n == self@.meme_limit,
    {
        self.meme_limit
    }

    pub fn connect_timeout_secs(&self) -> (n: u64)
        ensures
            n == self@.connect_timeout_secs,
    {
        self.connect_timeout
    }

    pub fn timeout_secs(&self) -> (n: u64)
        ensures
            n == self@.timeout_secs,
    {
        self.timeout
    }

    pub fn concurrent_connections(&self) -> (n: usize)
        ensures
            n == self@.concurrent_connections,
    {
        self.concurrent_connections
    }
}

} // verus!
