//! Routing of incoming messages to the endpoints, and the bot's state with the step that
//! handles one message.
use vstd::prelude::*;
use crate::bot::Command;
use crate::endpoints::{
    action_views, add_admin, admin_help_text, get_admins, get_config, get_forward_subscribers,
    get_meme_counter, get_meme_limit, handle_spam, help_admin, help_shutup_target, is_target_forward,
    meme_counter_text, remove_admin, reply, sender_username, sent_by, set_meme_counter,
    set_meme_limit, spam_outcome, subscribe_forwards, target_help_text, Action, ActionView,
    IncomingMessage,
};
use crate::helpers::MemeCounter;
use crate::helpers::MemeCounterView;
use crate::helpers::RefreshOutcome;
use crate::helpers::refresh;
use crate::helpers::refresh_meme_counter;
use crate::opts::Config;
use crate::text::decimal_digits;

verus! {

/// The endpoint that handles a message.
#[derive(Clone, Copy, Debug, PartialEq, Eq, Structural)]
pub enum Route {
    GetMemeLimit,
    AddAdmin,
    GetAdmins,
    GetMemeCounter,
    RemoveAdmin,
    SubscribeForwards,
    GetForwardSubscribers,
    GetConfig,
    HelpShutupTarget,
    HelpAdmin,
    SetMemeCounter,
    SetMemeLimit,
    HandleSpam,
}

/// Whether the sender has a username that is among `admins`.
pub open spec fn sent_by_admin(msg: IncomingMessage, admins: Set<Seq<char>>) -> bool {
    match sender_username(msg) {
        Some(u) => admins.contains(u),
        None => false,
    }
}

/// The dispatch tree: a command from an admin goes to its endpoint, tried in the order
/// below; the target's own commands other than the first eight go to the spam handler,
/// but for `/help`; everything else (text that is no command, a command from someone who
/// is no admin, a command that no branch takes) goes to the spam handler.
pub open spec fn route(msg: IncomingMessage, admins: Set<Seq<char>>, target: Seq<char>) -> Route {
    match msg.command {
        None => Route::HandleSpam,
        Some(cmd) => if !sent_by_admin(msg, admins) {
            Route::HandleSpam
        } else {
            match cmd {
                Command::MemeLimit => Route::GetMemeLimit,
                Command::AddAdmin(_) => Route::AddAdmin,
                Command::Admins => Route::GetAdmins,
                Command::MemeCounter => Route::GetMemeCounter,
                Command::RemoveAdmin(_) => Route::RemoveAdmin,
                Command::SubscribeForwards => Route::SubscribeForwards,
                Command::ForwardSubscribers => Route::GetForwardSubscribers,
                Command::Config => Route::GetConfig,
                _ => if sent_by(msg, target) {
                    if cmd is Help { Route::HelpShutupTarget } else { Route::HandleSpam }
                } else {
                    match cmd {
                        Command::Help => Route::HelpAdmin,
                        Command::SetMemeCounter(_) => Route::SetMemeCounter,
                        Command::SetMemeLimit(_) => Route::SetMemeLimit,
                        _ => Route::HandleSpam,
                    }
                },
            }
        },
    }
}

/// Picks the endpoint for a message, as `route` says.
pub fn schema(msg: &IncomingMessage, config: &Config, shutup_target: &str) -> (r: Route)
    ensures
        r == route(*msg, config@.admins, shutup_target@),
{
    let cmd = match &msg.command {
        None => return Route::HandleSpam,
        Some(c) => c,
    };
    let admin = match &msg.sender {
        Some(s) => match &s.username {
            Some(u) => config.is_admin(u.as_str()),
            None => false,
        },
        None => false,
    };
    if !admin {
        return Route::HandleSpam;
    }
    match cmd {
        Command::MemeLimit => Route::GetMemeLimit,
        Command::AddAdmin(_) => Route::AddAdmin,
        Command::Admins => Route::GetAdmins,
        Command::MemeCounter => Route::GetMemeCounter,
        Command::RemoveAdmin(_) => Route::RemoveAdmin,
        Command::SubscribeForwards => Route::SubscribeForwards,
        Command::ForwardSubscribers => Route::GetForwardSubscribers,
        Command::Config => Route::GetConfig,
        _ => {
            let by_target = match &msg.sender {
                Some(s) => match &s.username {
                    Some(u) => crate::text::str_equal(u.as_str(), shutup_target),
                    None => false,
                },
                None => false,
            };
            if by_target {
                if let Command::Help = cmd {
                    Route::HelpShutupTarget
                } else {
                    Route::HandleSpam
                }
            } else {
                match cmd {
                    Command::Help => Route::HelpAdmin,
                    Command::SetMemeCounter(_) => Route::SetMemeCounter,
                    Command::SetMemeLimit(_) => Route::SetMemeLimit,
                    _ => Route::HandleSpam,
                }
            }
        },
    }
}

/// The whole state of the running bot.
pub struct BotState {
    pub config: Config,
    pub counter: MemeCounter,
    /// Username of the person whose memes are limited.
    pub shutup_target: String,
    /// Username of the admin that cannot be removed.
    pub initial_admin: String,
}

/// The state of the bot as values: the configuration, with the forward subscribers in
/// the order in which they get the forwards, and the meme counter.
pub ghost struct BotView {
    pub admins: Set<Seq<char>>,
    pub meme_limit: usize,
    pub forward_subscribers: Seq<u64>,
    pub queue_subscribers: Set<i64>,
    pub count: usize,
    pub last_refresh: i64,
    pub shutup_target: Seq<char>,
    pub initial_admin: Seq<char>,
}

impl View for BotState {
    type V = BotView;

    open spec fn view(&self) -> BotView {
        BotView {
            admins: self.config@.admins,
            meme_limit: self.config@.meme_limit,
            forward_subscribers: self.config.forward_list(),
            queue_subscribers: self.config@.queue_subscribers,
            count: self.counter@.count,
            last_refresh: self.counter@.last_refresh,
            shutup_target: self.shutup_target@,
            initial_admin: self.initial_admin@,
        }
    }
}

/// The text that follows a command that takes one.
pub open spec fn command_text(msg: IncomingMessage) -> Seq<char> {
    match msg.command {
        Some(Command::AddAdmin(a)) => a@,
        Some(Command::RemoveAdmin(a)) => a@,
        Some(Command::Cbz(a)) => a@,
        _ => Seq::empty(),
    }
}

/// The number that follows a command that takes one.
pub open spec fn command_number(msg: IncomingMessage) -> usize {
    match msg.command {
        Some(Command::SetMemeCounter(n)) => n,
        Some(Command::SetMemeLimit(n)) => n,
        _ => 0,
    }
}

pub open spec fn show(msg: IncomingMessage, which: int) -> Seq<ActionView> {
    match msg.chat_id {
        Some(chat) => seq![
            if which == 0 { ActionView::ShowAdmins { chat } }
            else if which == 1 { ActionView::ShowForwardSubscribers { chat } }
            else { ActionView::ShowConfig { chat } }
        ],
        None => seq![],
    }
}

/// The state after one message, and the requests that the bot makes for it.
pub open spec fn step(v: BotView, msg: IncomingMessage) -> (BotView, Seq<ActionView>) {
    match route(msg, v.admins, v.shutup_target) {
        Route::GetMemeLimit => (v, match msg.chat_id {
            Some(chat) => seq![
                ActionView::SendMessage { chat, text: decimal_digits(v.meme_limit as nat) },
                ActionView::SaveConfig,
            ],
            None => seq![],
        }),
        Route::AddAdmin => (
            BotView { admins: v.admins.insert(command_text(msg)), ..v },
            seq![ActionView::SaveConfig],
        ),
        Route::GetAdmins => (v, show(msg, 0)),
        Route::GetMemeCounter => (v, reply(msg, meme_counter_text(v.count))),
        Route::RemoveAdmin => (
            if command_text(msg) != v.initial_admin {
                BotView { admins: v.admins.remove(command_text(msg)), ..v }
            } else {
                v
            },
            seq![ActionView::SaveConfig],
        ),
        Route::SubscribeForwards => match msg.sender {
            Some(s) => (
                BotView {
                    forward_subscribers: if v.forward_subscribers.contains(s.id) {
                        v.forward_subscribers
                    } else {
                        v.forward_subscribers.push(s.id)
                    },
                    ..v
                },
                seq![ActionView::SaveConfig],
            ),
            None => (v, seq![]),
        },
        Route::GetForwardSubscribers => (v, show(msg, 1)),
        Route::GetConfig => (v, show(msg, 2)),
        Route::HelpShutupTarget => (v, reply(msg, target_help_text())),
        Route::HelpAdmin => (v, reply(msg, admin_help_text())),
        Route::SetMemeCounter => (BotView { count: command_number(msg), ..v }, seq![]),
        Route::SetMemeLimit => (
            BotView { meme_limit: command_number(msg), ..v },
            seq![ActionView::SaveConfig],
        ),
        Route::HandleSpam => {
            let (count, actions) = spam_outcome(
                msg,
                v.count,
                v.meme_limit,
                v.forward_subscribers,
                v.shutup_target,
            );
            (BotView { count: count as usize, ..v }, actions)
        },
    }
}

/// Whether handling the message would count a meme past the largest counter value,
/// where the bot panics.
pub open spec fn step_overflows(v: BotView, msg: IncomingMessage) -> bool {
    &&& route(msg, v.admins, v.shutup_target) == Route::HandleSpam
    &&& is_target_forward(msg, v.shutup_target)
    &&& v.count == usize::MAX
}


/// Whether the actions delete message `id` of chat `chat`.
pub open spec fn deletes(actions: Seq<ActionView>, chat: i64, id: i32) -> bool {
    actions.contains(ActionView::DeleteMessage { chat, message_id: id })
}

/// The state after a sequence of messages, and how many of them the bot left undeleted.
pub open spec fn run(v: BotView, msgs: Seq<IncomingMessage>) -> (BotView, nat)
    decreases msgs.len(),
{
    if msgs.len() == 0 {
        (v, 0)
    } else {
        let (w, kept) = run(v, msgs.drop_last());
        let m = msgs.last();
        let (w2, actions) = step(w, m);
        (w2, if deletes(actions, m.chat_id.unwrap(), m.id) { kept } else { kept + 1 })
    }
}

/// A meme as the rule counts it: a forward from the target into a chat, with no command.
pub open spec fn plain_target_forward(msg: IncomingMessage, target: Seq<char>) -> bool {
    &&& is_target_forward(msg, target)
    &&& msg.command is None
    &&& msg.chat_id is Some
}

/// A meme from the target is deleted exactly when counting it brings the day's count over
/// the meme limit; the target then gets a clown in private, and the count stays as it was.
pub proof fn law_meme_deleted_iff_over_limit(v: BotView, msg: IncomingMessage)
    requires
        plain_target_forward(msg, v.shutup_target),
        v.count < usize::MAX,
    ensures
        deletes(step(v, msg).1, msg.chat_id.unwrap(), msg.id) <==> v.count + 1 > v.meme_limit,
        v.count + 1 > v.meme_limit ==> step(v, msg).0.count == v.count
            && step(v, msg).1.contains(ActionView::SendToUser { user: msg.sender.unwrap().id, text: crate::endpoints::clown_text() }),
        v.count + 1 <= v.meme_limit ==> step(v, msg).0.count == v.count + 1 && step(v, msg).1.len() == 0,
{
    let chat = msg.chat_id.unwrap();
    assert(route(msg, v.admins, v.shutup_target) == Route::HandleSpam);
    let acts = step(v, msg).1;
    if v.count + 1 > v.meme_limit {
        let f = crate::endpoints::forwards(v.forward_subscribers, chat, msg.id);
        let d = ActionView::DeleteMessage { chat, message_id: msg.id };
        let c = ActionView::SendToUser { user: msg.sender.unwrap().id, text: crate::endpoints::clown_text() };
        assert(acts == f + seq![d, c]);
        assert(acts[f.len() as int] == d);
        assert(acts[f.len() + 1int] == c);
    } else {
        assert(acts.len() == 0);
    }
}

/// Starting a day at zero, of any sequence of memes that the target forwards, the bot
/// keeps exactly as many as the meme limit allows and deletes the rest; the count ends at
/// the number kept.
pub proof fn law_daily_meme_quota(v: BotView, msgs: Seq<IncomingMessage>)
    requires
        v.count == 0,
        v.meme_limit < usize::MAX,
        forall|i: int| 0 <= i < msgs.len() ==> plain_target_forward(#[trigger] msgs[i], v.shutup_target),
    ensures
        run(v, msgs).1 == if msgs.len() <= v.meme_limit { msgs.len() } else { v.meme_limit as nat },
        run(v, msgs).0.count == run(v, msgs).1,
        run(v, msgs).0.meme_limit == v.meme_limit,
        run(v, msgs).0.shutup_target == v.shutup_target,
        run(v, msgs).0.admins == v.admins,
    decreases msgs.len(),
{
    if msgs.len() > 0 {
        let prefix = msgs.drop_last();
        assert forall|i: int| 0 <= i < prefix.len() implies plain_target_forward(#[trigger] prefix[i], v.shutup_target) by {
            assert(prefix[i] == msgs[i]);
        }
        law_daily_meme_quota(v, prefix);
        let w = run(v, prefix).0;
        let m = msgs.last();
        assert(plain_target_forward(m, v.shutup_target)) by {
            assert(m == msgs[msgs.len() - 1]);
        }
        law_meme_deleted_iff_over_limit(w, m);
    }
}

/// Starting a day at zero, of the memes that the target forwards, the first ones up to the
/// meme limit are kept and every later one is deleted.
pub proof fn law_first_memes_kept(v: BotView, msgs: Seq<IncomingMessage>, i: int)
    requires
        v.count == 0,
        v.meme_limit < usize::MAX,
        forall|k: int| 0 <= k < msgs.len() ==> plain_target_forward(#[trigger] msgs[k], v.shutup_target),
        0 <= i < msgs.len(),
    ensures
        deletes(step(run(v, msgs.take(i)).0, msgs[i]).1, msgs[i].chat_id.unwrap(), msgs[i].id)
            <==> i >= v.meme_limit,
{
    let prefix = msgs.take(i);
    assert forall|k: int| 0 <= k < prefix.len() implies plain_target_forward(#[trigger] prefix[k], v.shutup_target) by {
        assert(prefix[k] == msgs[k]);
    }
    law_daily_meme_quota(v, prefix);
    let w = run(v, prefix).0;
    assert(w.shutup_target == v.shutup_target);
    law_meme_deleted_iff_over_limit(w, msgs[i]);
}

/// The spam handler never takes the count over the meme limit, for a message in a chat.
pub proof fn law_spam_stays_within_limit(v: BotView, msg: IncomingMessage)
    requires
        route(msg, v.admins, v.shutup_target) == Route::HandleSpam,
        msg.chat_id is Some,
        v.count <= v.meme_limit,
        !step_overflows(v, msg),
    ensures
        step(v, msg).0.count <= v.meme_limit,
{
}

/// The initial admin stays an admin, whatever message comes.
pub proof fn law_initial_admin_stays(v: BotView, msg: IncomingMessage)
    requires
        v.admins.contains(v.initial_admin),
    ensures
        step(v, msg).0.admins.contains(v.initial_admin),
        step(v, msg).0.initial_admin == v.initial_admin,
        step(v, msg).0.shutup_target == v.shutup_target,
{
}

/// Only admins change the configuration: a message from anyone else leaves the admins,
/// the meme limit and the subscribers as they were.
pub proof fn law_only_admins_configure(v: BotView, msg: IncomingMessage)
    requires
        !sent_by_admin(msg, v.admins),
    ensures
        step(v, msg).0.admins == v.admins,
        step(v, msg).0.meme_limit == v.meme_limit,
        step(v, msg).0.forward_subscribers == v.forward_subscribers,
        step(v, msg).0.queue_subscribers == v.queue_subscribers,
{
}

/// An admin's `/add_admin name` makes `name` an admin; an admin's `/remove_admin name`
/// makes `name` no admin, unless it is the initial admin.
pub proof fn law_add_and_remove_admin(v: BotView, msg: IncomingMessage)
    requires
        sent_by_admin(msg, v.admins),
    ensures
        msg.command matches Some(Command::AddAdmin(a)) ==> step(v, msg).0.admins.contains(a@),
        msg.command matches Some(Command::RemoveAdmin(a)) ==> (a@ != v.initial_admin
            <==> !step(v, msg).0.admins.contains(a@)) || !v.admins.contains(a@),
{
}

/// The bot refuses a message as an overflow only when the meme counter is at its largest
/// value, whatever the message, the limit or the count; a meme from the target in a chat is
/// refused at that value.
pub proof fn law_overflow_only_at_largest_count(v: BotView, msg: IncomingMessage)
    ensures
        step_overflows(v, msg) ==> v.count == usize::MAX,
        plain_target_forward(msg, v.shutup_target) && v.count == usize::MAX ==> step_overflows(v, msg),
{
}

/// A meme from the target in a chat, handled at `now` with the refresh going through and
/// the count below its largest value, is never refused: it is deleted exactly when
/// counting it takes the refreshed count over the meme limit, and otherwise kept.
pub proof fn law_meme_at_instant_deleted_iff_over_limit(v: BotView, now: i64, msg: IncomingMessage)
    requires
        plain_target_forward(msg, v.shutup_target),
        refreshed(v, now).1 == RefreshOutcome::NotDue || refreshed(v, now).1 == RefreshOutcome::Reset,
        refreshed(v, now).0.count < usize::MAX,
    ensures
        !step_overflows(refreshed(v, now).0, msg),
        deletes(step(refreshed(v, now).0, msg).1, msg.chat_id.unwrap(), msg.id)
            <==> refreshed(v, now).0.count + 1 > v.meme_limit,
{
    law_meme_deleted_iff_over_limit(refreshed(v, now).0, msg);
}

/// The target never changes the meme limit or sets the counter, even as an admin: their
/// `/set_meme_limit` and `/set_meme_counter` go to the spam handler, whatever they send
/// leaves the limit as it was, and the count changes only through the spam handler.
pub proof fn law_target_cannot_lift_limit(v: BotView, msg: IncomingMessage)
    requires
        sent_by(msg, v.shutup_target),
    ensures
        msg.command matches Some(Command::SetMemeLimit(_)) ==> route(msg, v.admins, v.shutup_target) == Route::HandleSpam,
        msg.command matches Some(Command::SetMemeCounter(_)) ==> route(msg, v.admins, v.shutup_target) == Route::HandleSpam,
        route(msg, v.admins, v.shutup_target) != Route::SetMemeLimit,
        route(msg, v.admins, v.shutup_target) != Route::SetMemeCounter,
        step(v, msg).0.meme_limit == v.meme_limit,
        step(v, msg).0.count == v.count || route(msg, v.admins, v.shutup_target) == Route::HandleSpam,
{
}

/// A command from anyone who is no admin goes to the spam handler: it gets no answer and
/// changes no setting.
pub proof fn law_non_admin_commands_go_to_spam(msg: IncomingMessage, admins: Set<Seq<char>>, target: Seq<char>)
    requires
        !sent_by_admin(msg, admins),
    ensures
        route(msg, admins, target) == Route::HandleSpam,
{
}

/// The state with its counter refreshed at `now` (Unix seconds), and what the refresh did.
pub open spec fn refreshed(v: BotView, now: i64) -> (BotView, RefreshOutcome) {
    let (c, outcome) = refresh(MemeCounterView { count: v.count, last_refresh: v.last_refresh }, now);
    (BotView { count: c.count, last_refresh: c.last_refresh, ..v }, outcome)
}

/// What became of a message that came at some instant.
pub enum Handled {
    /// The requests that the bot makes for the message.
    Actions(Vec<Action>),
    /// The counter was due for its daily reset, but the start of the current Moscow day
    /// could not be found (the outcome says why); nothing changed.
    RefreshFailed(RefreshOutcome),
    /// The message is a meme that would count past the largest counter value; the counter
    /// was refreshed and nothing else changed.
    Overflow,
}

impl BotState {
    /// A fresh state: the configuration, a counter at zero last reset at `last_refresh`.
    pub fn new(config: Config, shutup_target: String, initial_admin: String, last_refresh: i64) -> (s: BotState)
        ensures
            s.config@ == config@,
            s@.forward_subscribers == config.forward_list(),
            s@.count == 0,
            s@.last_refresh == last_refresh,
            s@.shutup_target == shutup_target@,
            s@.initial_admin == initial_admin@,
    {
        BotState { config, counter: MemeCounter::new(last_refresh), shutup_target, initial_admin }
    }

    /// Whether handling `msg` would count a meme past the largest counter value.
    pub fn would_overflow(&self, msg: &IncomingMessage) -> (res: bool)
        ensures
            res == step_overflows(self@, *msg),
    {
        let r = schema(msg, &self.config, self.shutup_target.as_str());
        let target_forward = match &msg.sender {
            Some(s) => match &s.username {
                Some(u) => crate::text::str_equal(u.as_str(), self.shutup_target.as_str()) && msg.is_forward,
                None => false,
            },
            None => false,
        };
        r == Route::HandleSpam && target_forward && self.counter.count() == usize::MAX
    }

    /// Handles a message that came at `now` (Unix seconds): first refreshes the daily
    /// counter, then routes the message and runs its endpoint, unless the refresh failed or
    /// the meme would count past the largest counter value.
    pub fn handle_message_at(&mut self, now: i64, msg: &IncomingMessage) -> (r: Handled)
        ensures
            refreshed(old(self)@, now).1 == RefreshOutcome::NoDayStart
                || refreshed(old(self)@, now).1 == RefreshOutcome::OutOfRange
                ==> r == Handled::RefreshFailed(refreshed(old(self)@, now).1) && final(self)@ == old(self)@,
            refreshed(old(self)@, now).1 == RefreshOutcome::NotDue
                || refreshed(old(self)@, now).1 == RefreshOutcome::Reset
                ==> if step_overflows(refreshed(old(self)@, now).0, *msg) {
                    r is Overflow && final(self)@ == refreshed(old(self)@, now).0
                } else {
                    &&& r matches Handled::Actions(a)
                        && action_views(a@) == step(refreshed(old(self)@, now).0, *msg).1
                    &&& final(self)@ == step(refreshed(old(self)@, now).0, *msg).0
                },
    {
        let outcome = refresh_meme_counter(&mut self.counter, now);
        match outcome {
            RefreshOutcome::NoDayStart | RefreshOutcome::OutOfRange => return Handled::RefreshFailed(outcome),
            RefreshOutcome::NotDue | RefreshOutcome::Reset => {},
        }
        assert(self@ =~= refreshed(old(self)@, now).0);
        if self.would_overflow(msg) {
            return Handled::Overflow;
        }
        Handled::Actions(self.handle_message(msg))
    }

    /// Handles one message: routes it and runs its endpoint.
    pub fn handle_message(&mut self, msg: &IncomingMessage) -> (actions: Vec<Action>)
        requires
            !step_overflows(old(self)@, *msg),
        ensures
            final(self)@ == step(old(self)@, *msg).0,
            action_views(actions@) == step(old(self)@, *msg).1,
    {
        let target = self.shutup_target.as_str();
        let r = schema(msg, &self.config, target);
        let actions = match r {
            Route::GetMemeLimit => {
                let a = get_meme_limit(msg, &self.config);
                assert(self@ =~= step(old(self)@, *msg).0);
                a
            },
            Route::AddAdmin => {
                let name = match &msg.command {
                    Some(Command::AddAdmin(a)) => a.clone(),
                    _ => String::new(),
                };
                add_admin(name, &mut self.config)
            },
            Route::GetAdmins => {
                let a = get_admins(msg);
                assert(self@ =~= step(old(self)@, *msg).0);
                a
            },
            Route::GetMemeCounter => {
                let a = get_meme_counter(msg, &self.counter);
                assert(self@ =~= step(old(self)@, *msg).0);
                a
            },
            Route::RemoveAdmin => {
                let name = match &msg.command {
                    Some(Command::RemoveAdmin(a)) => a.clone(),
                    _ => String::new(),
                };
                remove_admin(name.as_str(), &mut self.config, self.initial_admin.as_str())
            },
            Route::SubscribeForwards => {
                let a = subscribe_forwards(msg, &mut self.config);
                assert(self@ =~= step(old(self)@, *msg).0);
                a
            },
            Route::GetForwardSubscribers => {
                let a = get_forward_subscribers(msg);
                assert(self@ =~= step(old(self)@, *msg).0);
                a
            },
            Route::GetConfig => {
                let a = get_config(msg);
                assert(self@ =~= step(old(self)@, *msg).0);
                a
            },
            Route::HelpShutupTarget => {
                let a = help_shutup_target(msg, target);
                assert(self@ =~= step(old(self)@, *msg).0);
                a
            },
            Route::HelpAdmin => {
                let a = help_admin(msg);
                assert(self@ =~= step(old(self)@, *msg).0);
                a
            },
            Route::SetMemeCounter => {
                let n = match &msg.command {
                    Some(Command::SetMemeCounter(n)) => *n,
                    _ => 0,
                };
                set_meme_counter(n, &mut self.counter)
            },
            Route::SetMemeLimit => {
                let n = match &msg.command {
                    Some(Command::SetMemeLimit(n)) => *n,
                    _ => 0,
                };
                set_meme_limit(n, &mut self.config)
            },
            Route::HandleSpam => {
                let a = handle_spam(msg, &mut self.counter, &self.config, target);
                assert(self@ =~= step(old(self)@, *msg).0);
                a
            },
        };
        actions
    }
}

} // verus!
