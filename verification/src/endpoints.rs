//! What the bot does with a message once it is routed: the changes to its state and the
//! requests to Telegram that it makes, in the order in which it makes them.
use vstd::prelude::*;
use crate::bot::Command;
use crate::helpers::MemeCounter;
use crate::opts::Config;
use crate::text::decimal;
use crate::text::decimal_digits;

verus! {

/// The author of a message.
#[derive(Clone, Debug)]
pub struct Sender {
    pub id: u64,
    pub username: Option<String>,
}

/// What the bot reads of an incoming message.
#[derive(Clone, Debug)]
pub struct IncomingMessage {
    pub id: i32,
    /// The chat it was sent to, where Telegram gives one.
    pub chat_id: Option<i64>,
    pub sender: Option<Sender>,
    /// Whether it is an ordinary message forwarded from elsewhere.
    pub is_forward: bool,
    /// The command in its text, where its text is one.
    pub command: Option<Command>,
}

/// A request to Telegram, or to the configuration store.
#[derive(Clone, Debug)]
pub enum Action {
    /// Forward message `message_id` of chat `from_chat` to the user `to_user`.
    ForwardMessage { to_user: u64, from_chat: i64, message_id: i32 },
    DeleteMessage { chat: i64, message_id: i32 },
    SendMessage { chat: i64, text: String },
    /// Send `text` to the private chat with `user`.
    SendToUser { user: u64, text: String },
    /// Send the list of admins to `chat`.
    ShowAdmins { chat: i64 },
    /// Send the list of forward subscribers to `chat`.
    ShowForwardSubscribers { chat: i64 },
    /// Send the whole configuration to `chat`.
    ShowConfig { chat: i64 },
    /// Write the configuration to disk.
    SaveConfig,
}

pub ghost enum ActionView {
    ForwardMessage { to_user: u64, from_chat: i64, message_id: i32 },
    DeleteMessage { chat: i64, message_id: i32 },
    SendMessage { chat: i64, text: Seq<char> },
    SendToUser { user: u64, text: Seq<char> },
    ShowAdmins { chat: i64 },
    ShowForwardSubscribers { chat: i64 },
    ShowConfig { chat: i64 },
    SaveConfig,
}

impl View for Action {
    type V = ActionView;

    open spec fn view(&self) -> ActionView {
        match self {
            Action::ForwardMessage { to_user, from_chat, message_id } => ActionView::ForwardMessage {
                to_user: *to_user,
                from_chat: *from_chat,
                message_id: *message_id,
            },
            Action::DeleteMessage { chat, message_id } => ActionView::DeleteMessage {
                chat: *chat,
                message_id: *message_id,
            },
            Action::SendMessage { chat, text } => ActionView::SendMessage { chat: *chat, text: text@ },
            Action::SendToUser { user, text } => ActionView::SendToUser { user: *user, text: text@ },
            Action::ShowAdmins { chat } => ActionView::ShowAdmins { chat: *chat },
            Action::ShowForwardSubscribers { chat } => ActionView::ShowForwardSubscribers { chat: *chat },
            Action::ShowConfig { chat } => ActionView::ShowConfig { chat: *chat },
            Action::SaveConfig => ActionView::SaveConfig,
        }
    }
}

pub open spec fn action_views(actions: Seq<Action>) -> Seq<ActionView> {
    actions.map_values(|a: Action| a@)
}

/// The sender's username, where the message has a sender with one.
pub open spec fn sender_username(msg: IncomingMessage) -> Option<Seq<char>> {
    match msg.sender {
        Some(s) => match s.username {
            Some(u) => Some(u@),
            None => None,
        },
        None => None,
    }
}

/// Whether the message comes from the user with username `target`.
pub open spec fn sent_by(msg: IncomingMessage, target: Seq<char>) -> bool {
    sender_username(msg) == Some(target)
}

/// A reply of `text` to the chat of the message; none where the message has no chat.
pub open spec fn reply(msg: IncomingMessage, text: Seq<char>) -> Seq<ActionView> {
    match msg.chat_id {
        Some(chat) => seq![ActionView::SendMessage { chat, text }],
        None => seq![],
    }
}

/// What the target gets in private when a meme of theirs is deleted.
pub open spec fn clown_text() -> Seq<char> {
    "🤡"@
}

/// The answer to the target's `/help`.
pub open spec fn target_help_text() -> Seq<char> {
    "иди нахуй"@
}

/// The answer to an admin's `/help`.
pub open spec fn admin_help_text() -> Seq<char> {
    "привет"@
}

/// The answer to `/meme_counter`.
pub open spec fn meme_counter_text(count: usize) -> Seq<char> {
    "current meme counter: "@ + decimal_digits(count as nat)
}

/// Forwards of message `msg_id` of chat `src` to each subscriber, in order.
pub open spec fn forwards(subscribers: Seq<u64>, src: i64, msg_id: i32) -> Seq<ActionView> {
    Seq::new(
        subscribers.len(),
        |i: int| ActionView::ForwardMessage { to_user: subscribers[i], from_chat: src, message_id: msg_id },
    )
}

/// Whether the message is a forward sent by the target, which the counter counts.
pub open spec fn is_target_forward(msg: IncomingMessage, target: Seq<char>) -> bool {
    sent_by(msg, target) && msg.is_forward
}

/// The counter after the spam handler saw the message, and the requests that it made.
/// A forward from the target adds one to the counter; when that brings the counter over
/// the limit, the meme is forwarded to the subscribers, deleted, the counter goes back
/// to its earlier value and the target gets a clown in private.
pub open spec fn spam_outcome(
    msg: IncomingMessage,
    count: usize,
    limit: usize,
    subscribers: Seq<u64>,
    target: Seq<char>,
) -> (int, Seq<ActionView>) {
    if !is_target_forward(msg, target) {
        (count as int, seq![])
    } else {
        let counted = count + 1;
        match msg.chat_id {
            None => (counted, seq![]),
            Some(chat) => if counted > limit {
                (
                    count as int,
                    forwards(subscribers, chat, msg.id) + seq![
                        ActionView::DeleteMessage { chat, message_id: msg.id },
                        ActionView::SendToUser { user: msg.sender.unwrap().id, text: clown_text() },
                    ],
                )
            } else {
                (counted, seq![])
            },
        }
    }
}

fn sent_by_exec(msg: &IncomingMessage, target: &str) -> (res: bool)
    ensures
        res == sent_by(*msg, target@),
{
    match &msg.sender {
        Some(s) => match &s.username {
            Some(u) => crate::text::str_equal(u.as_str(), target),
            None => false,
        },
        None => false,
    }
}

fn text_of(s: &str) -> (r: String)
    ensures
        r@ == s@,
{
    String::from_str(s)
}

/// Forwards message `msg_id` of chat `src` to each forward subscriber.
pub fn forward_to_subscribers(msg_id: i32, src: i64, config: &Config) -> (actions: Vec<Action>)
    ensures
        action_views(actions@) == forwards(config.forward_list(), src, msg_id),
{
    let subs = config.forward_subscribers();
    let mut actions: Vec<Action> = Vec::new();
    let mut i: usize = 0;
    while i < subs.len()
        invariant
            i <= subs.len(),
            subs@ == config.forward_list(),
            action_views(actions@) == forwards(subs@.subrange(0, i as int), src, msg_id),
        decreases subs.len() - i,
    {
        let ghost before = action_views(actions@);
        actions.push(Action::ForwardMessage { to_user: subs[i], from_chat: src, message_id: msg_id });
        assert(action_views(actions@) =~= before.push(
            ActionView::ForwardMessage { to_user: subs@[i as int], from_chat: src, message_id: msg_id },
        ));
        assert(action_views(actions@) =~= forwards(subs@.subrange(0, i + 1), src, msg_id));
        i = i + 1;
    }
    assert(subs@.subrange(0, subs.len() as int) =~= subs@);
    actions
}

/// Counts the target's forwarded memes and, over the daily limit, deletes them.
pub fn handle_spam(
    msg: &IncomingMessage,
    counter: &mut MemeCounter,
    config: &Config,
    shutup_target: &str,
) -> (actions: Vec<Action>)
    requires
        is_target_forward(*msg, shutup_target@) ==> old(counter)@.count < usize::MAX,
    ensures
        final(counter)@.count == spam_outcome(*msg, old(counter)@.count, config@.meme_limit, config.forward_list(), shutup_target@).0,
        final(counter)@.last_refresh == old(counter)@.last_refresh,
        action_views(actions@) == spam_outcome(*msg, old(counter)@.count, config@.meme_limit, config.forward_list(), shutup_target@).1,
{
    let mut actions: Vec<Action> = Vec::new();
    if !(sent_by_exec(msg, shutup_target) && msg.is_forward) {
        assert(action_views(actions@) =~= seq![]);
        return actions;
    }
    let count = counter.count() + 1;
    counter.set_count(count);
    let chat = match msg.chat_id {
        Some(c) => c,
        None => {
            assert(action_views(actions@) =~= seq![]);
            return actions;
        },
    };
    if count > config.meme_limit() {
        let sender_id = match &msg.sender {
            Some(s) => s.id,
            None => 0,
        };
        actions = forward_to_subscribers(msg.id, chat, config);
        let ghost fw = action_views(actions@);
        actions.push(Action::DeleteMessage { chat, message_id: msg.id });
        counter.set_count(count - 1);
        actions.push(Action::SendToUser { user: sender_id, text: text_of("🤡") });
        assert(action_views(actions@) =~= fw + seq![
            ActionView::DeleteMessage { chat, message_id: msg.id },
            ActionView::SendToUser { user: msg.sender.unwrap().id, text: clown_text() },
        ]);
    } else {
        assert(action_views(actions@) =~= seq![]);
    }
    actions
}

/// Whether the spam handler deleted the message in the requests it made for it.
pub open spec fn spam_deleted(msg: IncomingMessage, actions: Seq<ActionView>) -> bool {
    actions.contains(ActionView::DeleteMessage { chat: msg.chat_id.unwrap(), message_id: msg.id })
}

/// The counter after the spam handler saw the messages in turn, starting from `count`,
/// and how many of them it left undeleted.
pub open spec fn spam_run(
    count: usize,
    limit: usize,
    subscribers: Seq<u64>,
    target: Seq<char>,
    msgs: Seq<IncomingMessage>,
) -> (int, nat)
    decreases msgs.len(),
{
    if msgs.len() == 0 {
        (count as int, 0)
    } else {
        let (c, kept) = spam_run(count, limit, subscribers, target, msgs.drop_last());
        let (c2, actions) = spam_outcome(msgs.last(), c as usize, limit, subscribers, target);
        (c2, if spam_deleted(msgs.last(), actions) { kept } else { kept + 1 })
    }
}

/// A forward from the target in a chat is deleted exactly when counting it takes the count
/// over the limit; the count then stays as it was, else it grows by one.
pub proof fn law_spam_deleted_iff_over_limit(
    msg: IncomingMessage,
    count: usize,
    limit: usize,
    subscribers: Seq<u64>,
    target: Seq<char>,
)
    requires
        is_target_forward(msg, target),
        msg.chat_id is Some,
    ensures
        spam_deleted(msg, spam_outcome(msg, count, limit, subscribers, target).1) <==> count + 1 > limit,
        spam_outcome(msg, count, limit, subscribers, target).0
            == if count + 1 > limit { count as int } else { count + 1 },
{
    let acts = spam_outcome(msg, count, limit, subscribers, target).1;
    if count + 1 > limit {
        let f = forwards(subscribers, msg.chat_id.unwrap(), msg.id);
        assert(acts[f.len() as int] == ActionView::DeleteMessage { chat: msg.chat_id.unwrap(), message_id: msg.id });
    } else {
        assert(acts.len() == 0);
    }
}

/// For a message in a chat, the spam handler never takes a count within the limit over it.
pub proof fn law_spam_within_limit(
    msg: IncomingMessage,
    count: usize,
    limit: usize,
    subscribers: Seq<u64>,
    target: Seq<char>,
)
    requires
        count <= limit,
        msg.chat_id is Some,
    ensures
        spam_outcome(msg, count, limit, subscribers, target).0 <= limit,
{
}

/// Starting the day at zero, of the forwards from the target in a chat that the spam
/// handler sees in turn, it keeps as many as the limit allows and deletes the rest; the
/// counter ends at the number kept.
pub proof fn law_spam_daily_quota(limit: usize, subscribers: Seq<u64>, target: Seq<char>, msgs: Seq<IncomingMessage>)
    requires
        limit < usize::MAX,
        forall|i: int| 0 <= i < msgs.len() ==> is_target_forward(#[trigger] msgs[i], target) && msgs[i].chat_id is Some,
    ensures
        spam_run(0, limit, subscribers, target, msgs).1 == if msgs.len() <= limit { msgs.len() } else { limit as nat },
        spam_run(0, limit, subscribers, target, msgs).0 == spam_run(0, limit, subscribers, target, msgs).1,
    decreases msgs.len(),
{
    if msgs.len() > 0 {
        let prefix = msgs.drop_last();
        assert forall|i: int| 0 <= i < prefix.len() implies is_target_forward(#[trigger] prefix[i], target) && prefix[i].chat_id is Some by {
            assert(prefix[i] == msgs[i]);
        }
        law_spam_daily_quota(limit, subscribers, target, prefix);
        let c = spam_run(0, limit, subscribers, target, prefix).0;
        let m = msgs.last();
        assert(is_target_forward(m, target) && m.chat_id is Some) by {
            assert(m == msgs[msgs.len() - 1]);
        }
        law_spam_deleted_iff_over_limit(m, c as usize, limit, subscribers, target);
    }
}

/// Starting the day at zero, of the forwards from the target in a chat, the first ones up
/// to the limit are kept and every later one is deleted.
pub proof fn law_spam_first_memes_kept(
    limit: usize,
    subscribers: Seq<u64>,
    target: Seq<char>,
    msgs: Seq<IncomingMessage>,
    i: int,
)
    requires
        limit < usize::MAX,
        forall|k: int| 0 <= k < msgs.len() ==> is_target_forward(#[trigger] msgs[k], target) && msgs[k].chat_id is Some,
        0 <= i < msgs.len(),
    ensures
        spam_deleted(
            msgs[i],
            spam_outcome(msgs[i], spam_run(0, limit, subscribers, target, msgs.take(i)).0 as usize, limit, subscribers, target).1,
        ) <==> i >= limit,
{
    let prefix = msgs.take(i);
    assert forall|k: int| 0 <= k < prefix.len() implies is_target_forward(#[trigger] prefix[k], target) && prefix[k].chat_id is Some by {
        assert(prefix[k] == msgs[k]);
    }
    law_spam_daily_quota(limit, subscribers, target, prefix);
    let c = spam_run(0, limit, subscribers, target, prefix).0;
    assert(is_target_forward(msgs[i], target) && msgs[i].chat_id is Some);
    law_spam_deleted_iff_over_limit(msgs[i], c as usize, limit, subscribers, target);
}

fn reply_exec(msg: &IncomingMessage, text: String) -> (actions: Vec<Action>)
    ensures
        action_views(actions@) == reply(*msg, text@),
{
    let mut actions: Vec<Action> = Vec::new();
    if let Some(chat) = msg.chat_id {
        actions.push(Action::SendMessage { chat, text });
        assert(action_views(actions@) =~= seq![ActionView::SendMessage { chat, text: text@ }]);
    } else {
        assert(action_views(actions@) =~= seq![]);
    }
    actions
}

fn show_exec(msg: &IncomingMessage, which: u8) -> (actions: Vec<Action>)
    requires
        which < 3,
    ensures
        action_views(actions@) == match msg.chat_id {
            Some(chat) => seq![
                if which == 0 { ActionView::ShowAdmins { chat } }
                else if which == 1 { ActionView::ShowForwardSubscribers { chat } }
                else { ActionView::ShowConfig { chat } }
            ],
            None => seq![],
        },
{
    let mut actions: Vec<Action> = Vec::new();
    if let Some(chat) = msg.chat_id {
        let a = if which == 0 {
            Action::ShowAdmins { chat }
        } else if which == 1 {
            Action::ShowForwardSubscribers { chat }
        } else {
            Action::ShowConfig { chat }
        };
        actions.push(a);
        assert(action_views(actions@) =~= seq![a@]);
    } else {
        assert(action_views(actions@) =~= seq![]);
    }
    actions
}

/// Sends the list of forward subscribers to the chat of the message.
pub fn get_forward_subscribers(msg: &IncomingMessage) -> (actions: Vec<Action>)
    ensures
        action_views(actions@) == match msg.chat_id {
            Some(chat) => seq![ActionView::ShowForwardSubscribers { chat }],
            None => seq![],
        },
{
    show_exec(msg, 1)
}

/// Sends the list of admins to the chat of the message.
pub fn get_admins(msg: &IncomingMessage) -> (actions: Vec<Action>)
    ensures
        action_views(actions@) == match msg.chat_id {
            Some(chat) => seq![ActionView::ShowAdmins { chat }],
            None => seq![],
        },
{
    show_exec(msg, 0)
}

/// Sends the whole configuration to the chat of the message.
pub fn get_config(msg: &IncomingMessage) -> (actions: Vec<Action>)
    ensures
        action_views(actions@) == match msg.chat_id {
            Some(chat) => seq![ActionView::ShowConfig { chat }],
            None => seq![],
        },
{
    show_exec(msg, 2)
}

/// Answers the target's `/help`, and nobody else's.
pub fn help_shutup_target(msg: &IncomingMessage, shutup_target: &str) -> (actions: Vec<Action>)
    ensures
        action_views(actions@) == if sent_by(*msg, shutup_target@) { reply(*msg, target_help_text()) } else { seq![] },
{
    if sent_by_exec(msg, shutup_target) {
        reply_exec(msg, text_of("иди нахуй"))
    } else {
        let actions: Vec<Action> = Vec::new();
        assert(action_views(actions@) =~= seq![]);
        actions
    }
}

/// Answers an admin's `/help`.
pub fn help_admin(msg: &IncomingMessage) -> (actions: Vec<Action>)
    ensures
        action_views(actions@) == reply(*msg, admin_help_text()),
{
    reply_exec(msg, text_of("привет"))
}

/// Adds an admin and saves the configuration.
pub fn add_admin(admin: String, config: &mut Config) -> (actions: Vec<Action>)
    ensures
        final(config)@.admins == old(config)@.admins.insert(admin@),
        final(config)@.meme_limit == old(config)@.meme_limit,
        final(config)@.forward_subscribers == old(config)@.forward_subscribers,
        final(config)@.queue_subscribers == old(config)@.queue_subscribers,
        final(config).forward_list() == old(config).forward_list(),
        action_views(actions@) == seq![ActionView::SaveConfig],
{
    config.add_admin(admin);
    let mut actions: Vec<Action> = Vec::new();
    actions.push(Action::SaveConfig);
    assert(action_views(actions@) =~= seq![ActionView::SaveConfig]);
    actions
}

/// Removes an admin, unless it is the initial admin, and saves the configuration.
pub fn remove_admin(admin: &str, config: &mut Config, initial_admin: &str) -> (actions: Vec<Action>)
    ensures
        admin@ != initial_admin@ ==> final(config)@.admins == old(config)@.admins.remove(admin@),
        admin@ == initial_admin@ ==> final(config)@.admins == old(config)@.admins,
        final(config)@.meme_limit == old(config)@.meme_limit,
        final(config)@.forward_subscribers == old(config)@.forward_subscribers,
        final(config)@.queue_subscribers == old(config)@.queue_subscribers,
        final(config).forward_list() == old(config).forward_list(),
        action_views(actions@) == seq![ActionView::SaveConfig],
{
    if !crate::text::str_equal(admin, initial_admin) {
        config.remove_admin(admin);
    }
    let mut actions: Vec<Action> = Vec::new();
    actions.push(Action::SaveConfig);
    assert(action_views(actions@) =~= seq![ActionView::SaveConfig]);
    actions
}

/// Sets the meme counter.
pub fn set_meme_counter(new_counter: usize, counter: &mut MemeCounter) -> (actions: Vec<Action>)
    ensures
        final(counter)@.count == new_counter,
        final(counter)@.last_refresh == old(counter)@.last_refresh,
        actions@.len() == 0,
{
    counter.set_count(new_counter);
    Vec::new()
}

/// Sends the meme counter to the chat of the message.
pub fn get_meme_counter(msg: &IncomingMessage, counter: &MemeCounter) -> (actions: Vec<Action>)
    ensures
        action_views(actions@) == reply(*msg, meme_counter_text(counter@.count)),
{
    let mut text = text_of("current meme counter: ");
    let n = decimal(counter.count() as u64);
    text.append(n.as_str());
    reply_exec(msg, text)
}

/// Sets the meme limit and saves the configuration.
pub fn set_meme_limit(new_limit: usize, config: &mut Config) -> (actions: Vec<Action>)
    ensures
        final(config)@.meme_limit == new_limit,
        final(config)@.admins == old(config)@.admins,
        final(config)@.forward_subscribers == old(config)@.forward_subscribers,
        final(config)@.queue_subscribers == old(config)@.queue_subscribers,
        final(config).forward_list() == old(config).forward_list(),
        action_views(actions@) == seq![ActionView::SaveConfig],
{
    config.set_meme_limit(new_limit);
    let mut actions: Vec<Action> = Vec::new();
    actions.push(Action::SaveConfig);
    assert(action_views(actions@) =~= seq![ActionView::SaveConfig]);
    actions
}

/// Sends the meme limit to the chat of the message, then saves the configuration; does
/// neither where the message has no chat.
pub fn get_meme_limit(msg: &IncomingMessage, config: &Config) -> (actions: Vec<Action>)
    ensures
        action_views(actions@) == match msg.chat_id {
            Some(chat) => seq![
                ActionView::SendMessage { chat, text: decimal_digits(config@.meme_limit as nat) },
                ActionView::SaveConfig,
            ],
            None => seq![],
        },
{
    let mut actions = reply_exec(msg, decimal(config.meme_limit() as u64));
    if msg.chat_id.is_some() {
        let ghost before = action_views(actions@);
        actions.push(Action::SaveConfig);
        assert(action_views(actions@) =~= before.push(ActionView::SaveConfig));
    }
    actions
}

/// Subscribes the sender to the forwards of deleted memes and saves the configuration;
/// does neither where the message has no sender.
pub fn subscribe_forwards(msg: &IncomingMessage, config: &mut Config) -> (actions: Vec<Action>)
    ensures
        match msg.sender {
            Some(s) => final(config)@.forward_subscribers == old(config)@.forward_subscribers.insert(s.id)
                && final(config).forward_list() == (if old(config).forward_list().contains(s.id) {
                    old(config).forward_list()
                } else {
                    old(config).forward_list().push(s.id)
                })
                && action_views(actions@) == seq![ActionView::SaveConfig],
            None => final(config)@ == old(config)@ && final(config).forward_list() == old(config).forward_list()
                && actions@.len() == 0,
        },
        final(config)@.admins == old(config)@.admins,
        final(config)@.meme_limit == old(config)@.meme_limit,
        final(config)@.queue_subscribers == old(config)@.queue_subscribers,
{
    let mut actions: Vec<Action> = Vec::new();
    match &msg.sender {
        Some(s) => {
            config.subscribe_forwards(s.id);
            actions.push(Action::SaveConfig);
            assert(action_views(actions@) =~= seq![ActionView::SaveConfig]);
        },
        None => {},
    }
    actions
}


/// A document attached to a message: its Telegram file id and its file name, if any.
#[derive(Clone, Debug)]
pub struct AttachedDocument {
    pub file_id: String,
    pub file_name: Option<String>,
}

/// Where the PDF of a `/cbz` request comes from.
#[derive(Clone, Debug)]
pub enum PdfSource {
    /// The attached document, fetched from Telegram by its file id.
    TelegramFile(String),
    /// The given URL.
    Url(String),
    /// Neither: the request is refused with "No file attached".
    NoFile,
}

/// How a `/cbz` request is served: where the PDF comes from and the file name it came
/// with, if any.
#[derive(Clone, Debug)]
pub struct CbzPlan {
    pub source: PdfSource,
    pub file_name: Option<String>,
}

/// The index of the first space in `s`.
pub open spec fn first_space(s: Seq<char>) -> int {
    choose|i: int| 0 <= i < s.len() && s[i] == ' ' && forall|j: int| 0 <= j < i ==> s[j] != ' '
}

/// The argument of `/cbz` split at its first space into a URL and a file name.
pub open spec fn split_argument(s: Seq<char>) -> (Seq<char>, Option<Seq<char>>) {
    if s.contains(' ') {
        (s.subrange(0, first_space(s)), Some(s.subrange(first_space(s) + 1, s.len() as int)))
    } else {
        (s, None)
    }
}

/// Splits the argument of `/cbz` at its first space: the URL before it and the file name
/// after it; without a space, all of it is the URL.
pub fn split_url_and_name(argument: &str) -> (r: (String, Option<String>))
    ensures
        r.0@ == split_argument(argument@).0,
        match (r.1, split_argument(argument@).1) {
            (Some(n), Some(m)) => n@ == m,
            (None, None) => true,
            _ => false,
        },
{
    match crate::text::find_char(argument, ' ') {
        Some(i) => {
            proof {
                assert(argument@.contains(' ')) by { assert(argument@[i as int] == ' '); }
                let k = first_space(argument@);
                if k != i as int {
                    if k < i { assert(argument@[k] != ' '); } else { assert(argument@[i as int] != ' '); }
                }
            }
            let n = argument.unicode_len();
            let url = String::from_str(argument.substring_char(0, i));
            let name = String::from_str(argument.substring_char(i + 1, n));
            (url, Some(name))
        },
        None => {
            proof {
                if argument@.contains(' ') {
                    let k = choose|k: int| 0 <= k < argument@.len() && argument@[k] == ' ';
                }
            }
            (String::from_str(argument), None)
        },
    }
}

/// The plan for a `/cbz` request with `argument`, for a message with `document` attached
/// or none. With a document, the PDF is the document unless a URL is given, and the file
/// name is the document's; without one, the PDF is at the URL, and the file name is the
/// one given after it.
pub fn plan_cbz(argument: &str, document: Option<AttachedDocument>) -> (plan: CbzPlan)
    ensures
        match document {
            Some(d) => {
                &&& split_argument(argument@).0.len() == 0 ==> (plan.source matches PdfSource::TelegramFile(id) && id@ == d.file_id@)
                &&& split_argument(argument@).0.len() > 0 ==> (plan.source matches PdfSource::Url(u) && u@ == split_argument(argument@).0)
                &&& match (plan.file_name, d.file_name) {
                    (Some(a), Some(b)) => a@ == b@,
                    (None, None) => true,
                    _ => false,
                }
            },
            None => {
                &&& split_argument(argument@).0.len() == 0 ==> plan.source is NoFile
                &&& split_argument(argument@).0.len() > 0 ==> (plan.source matches PdfSource::Url(u) && u@ == split_argument(argument@).0)
                &&& match (plan.file_name, split_argument(argument@).1) {
                    (Some(a), Some(b)) => a@ == b,
                    (None, None) => true,
                    _ => false,
                }
            },
        },
{
    let (url, name) = split_url_and_name(argument);
    let empty = url.as_str().unicode_len() == 0;
    match document {
        Some(d) => {
            let source = if empty { PdfSource::TelegramFile(d.file_id) } else { PdfSource::Url(url) };
            CbzPlan { source, file_name: d.file_name }
        },
        None => {
            let source = if empty { PdfSource::NoFile } else { PdfSource::Url(url) };
            CbzPlan { source, file_name: name }
        },
    }
}

/// The name of the archive sent back: a name ending in `.pdf` gets `.cbz` in its place,
/// any other name gets `.cbz` appended, and without a name it is `somethingsomething.bin`.
pub open spec fn cbz_name(file_name: Option<Seq<char>>) -> Seq<char> {
    match file_name {
        None => "somethingsomething.bin"@,
        Some(v) => if v.len() >= 4 && v.subrange(v.len() - 4, v.len() as int) == ".pdf"@ {
            v.subrange(0, v.len() - 4) + ".cbz"@
        } else {
            v + ".cbz"@
        },
    }
}

/// The name of the archive sent back, as `cbz_name` says.
pub fn cbz_file_name(file_name: Option<String>) -> (name: String)
    ensures
        name@ == cbz_name(match file_name { Some(v) => Some(v@), None => None }),
{
    proof {
        reveal_strlit(".pdf");
    }
    match file_name {
        None => String::from_str("somethingsomething.bin"),
        Some(v) => {
            if crate::text::ends_with(v.as_str(), ".pdf") {
                let n = v.as_str().unicode_len();
                let mut name = String::from_str(v.as_str().substring_char(0, n - 4));
                name.append(".cbz");
                name
            } else {
                let mut name = v;
                name.append(".cbz");
                name
            }
        },
    }
}

/// The URL of a file on Telegram's file server: `<BASE_URL>/file/bot<token>/<file_path>`.
pub fn telegram_file_url(token: &str, file_path: &str) -> (url: String)
    ensures
        url@ == crate::consts::BASE_URL@ + "/file/bot"@ + token@ + "/"@ + file_path@,
{
    let mut url = String::from_str(crate::consts::BASE_URL);
    url.append("/file/bot");
    url.append(token);
    url.append("/");
    url.append(file_path);
    url
}

} // verus!
