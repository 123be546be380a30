use shutup_bot::bot::Command;
use shutup_bot::endpoints::{handle_spam, Action, IncomingMessage, Sender};
use shutup_bot::helpers::{refresh_meme_counter, MemeCounter, RefreshOutcome};
use shutup_bot::opts::Config;
use shutup_bot::schema::{schema, BotState, Handled, Route};

const TARGET: &str = "spammer";
const ADMIN: &str = "boss";
const CHAT: i64 = -100;

fn state(limit: usize, subscribers: &[u64]) -> BotState {
    let config = Config::from_parts(vec![ADMIN.to_string()], limit, subscribers.to_vec(), vec![]);
    BotState::new(config, TARGET.to_string(), ADMIN.to_string(), 1745182800)
}

fn message(id: i32, user_id: u64, username: Option<&str>, is_forward: bool, command: Option<Command>) -> IncomingMessage {
    IncomingMessage {
        id,
        chat_id: Some(CHAT),
        sender: Some(Sender { id: user_id, username: username.map(|u| u.to_string()) }),
        is_forward,
        command,
    }
}

fn target_forward(id: i32) -> IncomingMessage {
    message(id, 7, Some(TARGET), true, None)
}

fn admin_command(command: Command) -> IncomingMessage {
    message(1, 1, Some(ADMIN), false, Some(command))
}

fn is_delete(a: &Action, id: i32) -> bool {
    matches!(a, Action::DeleteMessage { chat, message_id } if *chat == CHAT && *message_id == id)
}

#[test]
fn forward_within_limit_is_counted_and_kept() {
    let mut s = state(2, &[]);
    let actions = s.handle_message(&target_forward(10));
    assert!(actions.is_empty());
    assert_eq!(s.counter.count(), 1);
}

#[test]
fn forward_over_limit_is_forwarded_deleted_and_answered() {
    let mut s = state(2, &[5, 6]);
    s.counter.set_count(2);
    let actions = s.handle_message(&target_forward(11));
    assert_eq!(actions.len(), 4);
    assert!(matches!(&actions[0], Action::ForwardMessage { to_user: 5, from_chat: CHAT, message_id: 11 }));
    assert!(matches!(&actions[1], Action::ForwardMessage { to_user: 6, from_chat: CHAT, message_id: 11 }));
    assert!(is_delete(&actions[2], 11));
    match &actions[3] {
        Action::SendToUser { user, text } => {
            assert_eq!(*user, 7);
            assert_eq!(text, "🤡");
        },
        other => panic!("unexpected {:?}", other),
    }
    assert_eq!(s.counter.count(), 2);
}

#[test]
fn daily_quota_keeps_exactly_the_limit() {
    let mut s = state(3, &[]);
    let mut kept = 0;
    let mut deleted = 0;
    for id in 0..5 {
        let actions = s.handle_message(&target_forward(id));
        if actions.iter().any(|a| is_delete(a, id)) {
            deleted += 1;
        } else {
            kept += 1;
        }
    }
    assert_eq!(kept, 3);
    assert_eq!(deleted, 2);
    assert_eq!(s.counter.count(), 3);
}

#[test]
fn zero_limit_deletes_every_meme() {
    let mut s = state(0, &[]);
    for id in 0..3 {
        let actions = s.handle_message(&target_forward(id));
        assert!(actions.iter().any(|a| is_delete(a, id)));
    }
    assert_eq!(s.counter.count(), 0);
}

#[test]
fn other_users_and_plain_messages_are_not_counted() {
    let mut s = state(0, &[]);
    assert!(s.handle_message(&message(1, 8, Some("someone"), true, None)).is_empty());
    assert!(s.handle_message(&message(2, 7, Some(TARGET), false, None)).is_empty());
    assert!(s.handle_message(&message(3, 7, None, true, None)).is_empty());
    let anonymous = IncomingMessage { id: 4, chat_id: Some(CHAT), sender: None, is_forward: true, command: None };
    assert!(s.handle_message(&anonymous).is_empty());
    assert_eq!(s.counter.count(), 0);
}

#[test]
fn forward_without_chat_is_counted_but_not_deleted() {
    let mut s = state(1, &[]);
    s.counter.set_count(1);
    let mut m = target_forward(3);
    m.chat_id = None;
    assert!(s.handle_message(&m).is_empty());
    assert_eq!(s.counter.count(), 2);
}

#[test]
fn counter_at_its_largest_value_would_overflow() {
    let mut s = state(1, &[]);
    s.counter.set_count(usize::MAX);
    assert!(s.would_overflow(&target_forward(1)));
    assert!(!s.would_overflow(&message(2, 8, Some("someone"), true, None)));
}

#[test]
fn admin_adds_and_removes_admins() {
    let mut s = state(2, &[]);
    let actions = s.handle_message(&admin_command(Command::AddAdmin("alice".to_string())));
    assert!(matches!(actions.as_slice(), [Action::SaveConfig]));
    assert!(s.config.is_admin("alice"));
    let actions = s.handle_message(&admin_command(Command::RemoveAdmin("alice".to_string())));
    assert!(matches!(actions.as_slice(), [Action::SaveConfig]));
    assert!(!s.config.is_admin("alice"));
}

#[test]
fn initial_admin_cannot_be_removed() {
    let mut s = state(2, &[]);
    let actions = s.handle_message(&admin_command(Command::RemoveAdmin(ADMIN.to_string())));
    assert!(matches!(actions.as_slice(), [Action::SaveConfig]));
    assert!(s.config.is_admin(ADMIN));
}

#[test]
fn non_admin_commands_go_to_the_spam_handler() {
    let mut s = state(2, &[]);
    let m = message(1, 9, Some("mallory"), false, Some(Command::AddAdmin("mallory".to_string())));
    assert_eq!(schema(&m, &s.config, TARGET), Route::HandleSpam);
    assert!(s.handle_message(&m).is_empty());
    assert!(!s.config.is_admin("mallory"));
    let m = message(2, 9, Some("mallory"), false, Some(Command::SetMemeLimit(100)));
    assert!(s.handle_message(&m).is_empty());
    assert_eq!(s.config.meme_limit(), 2);
}

#[test]
fn meme_limit_is_set_and_reported() {
    let mut s = state(2, &[]);
    let actions = s.handle_message(&admin_command(Command::SetMemeLimit(15)));
    assert!(matches!(actions.as_slice(), [Action::SaveConfig]));
    assert_eq!(s.config.meme_limit(), 15);
    let actions = s.handle_message(&admin_command(Command::MemeLimit));
    assert_eq!(actions.len(), 2);
    match &actions[0] {
        Action::SendMessage { chat, text } => {
            assert_eq!(*chat, CHAT);
            assert_eq!(text, "15");
        },
        other => panic!("unexpected {:?}", other),
    }
    assert!(matches!(actions[1], Action::SaveConfig));
}

#[test]
fn meme_counter_is_set_and_reported() {
    let mut s = state(2, &[]);
    assert!(s.handle_message(&admin_command(Command::SetMemeCounter(7))).is_empty());
    assert_eq!(s.counter.count(), 7);
    let actions = s.handle_message(&admin_command(Command::MemeCounter));
    match actions.as_slice() {
        [Action::SendMessage { chat, text }] => {
            assert_eq!(*chat, CHAT);
            assert_eq!(text, "current meme counter: 7");
        },
        other => panic!("unexpected {:?}", other),
    }
}

#[test]
fn subscribing_twice_keeps_one_subscription() {
    let mut s = state(2, &[]);
    let m = message(1, 42, Some(ADMIN), false, Some(Command::SubscribeForwards));
    assert!(matches!(s.handle_message(&m).as_slice(), [Action::SaveConfig]));
    assert!(matches!(s.handle_message(&m).as_slice(), [Action::SaveConfig]));
    assert_eq!(s.config.forward_subscribers(), &vec![42u64]);
}

#[test]
fn listing_commands_ask_for_the_lists() {
    let mut s = state(2, &[]);
    assert!(matches!(s.handle_message(&admin_command(Command::Admins)).as_slice(), [Action::ShowAdmins { chat: CHAT }]));
    assert!(matches!(
        s.handle_message(&admin_command(Command::ForwardSubscribers)).as_slice(),
        [Action::ShowForwardSubscribers { chat: CHAT }]
    ));
    assert!(matches!(s.handle_message(&admin_command(Command::Config)).as_slice(), [Action::ShowConfig { chat: CHAT }]));
}

#[test]
fn help_answers_admins_and_the_target() {
    let mut s = state(2, &[]);
    match s.handle_message(&admin_command(Command::Help)).as_slice() {
        [Action::SendMessage { text, .. }] => assert_eq!(text, "привет"),
        other => panic!("unexpected {:?}", other),
    }
    s.config.add_admin(TARGET.to_string());
    let m = message(1, 7, Some(TARGET), false, Some(Command::Help));
    assert_eq!(schema(&m, &s.config, TARGET), Route::HelpShutupTarget);
    match s.handle_message(&m).as_slice() {
        [Action::SendMessage { text, .. }] => assert_eq!(text, "иди нахуй"),
        other => panic!("unexpected {:?}", other),
    }
}

#[test]
fn target_who_is_admin_cannot_reset_the_counter() {
    let mut s = state(2, &[]);
    s.config.add_admin(TARGET.to_string());
    s.counter.set_count(2);
    let m = message(1, 7, Some(TARGET), false, Some(Command::SetMemeCounter(0)));
    assert_eq!(schema(&m, &s.config, TARGET), Route::HandleSpam);
    assert!(s.handle_message(&m).is_empty());
    assert_eq!(s.counter.count(), 2);
    let m = message(2, 7, Some(TARGET), false, Some(Command::MemeCounter));
    assert_eq!(schema(&m, &s.config, TARGET), Route::GetMemeCounter);
}

#[test]
fn cbz_command_is_not_routed() {
    let s = state(2, &[]);
    let m = admin_command(Command::Cbz("http://example.com/a.pdf".to_string()));
    assert_eq!(schema(&m, &s.config, TARGET), Route::HandleSpam);
}

#[test]
fn counter_resets_at_the_start_of_the_moscow_day() {
    let mut c = MemeCounter::new(1745182800);
    c.set_count(4);
    assert_eq!(refresh_meme_counter(&mut c, 1745182800 + 86399), RefreshOutcome::NotDue);
    assert_eq!(c.count(), 4);
    assert_eq!(refresh_meme_counter(&mut c, 1745487000), RefreshOutcome::Reset);
    assert_eq!(c.count(), 0);
    assert_eq!(c.last_refresh(), 1745442000);
}

#[test]
fn apply_refresh_needs_a_whole_day() {
    let mut c = MemeCounter::new(1000);
    c.set_count(3);
    assert!(!c.apply_refresh(1000 + 86399, 5000));
    assert_eq!(c.count(), 3);
    assert!(!c.apply_refresh(-90000, 5000));
    assert!(c.refresh_due(1000 + 86400));
    assert!(c.apply_refresh(1000 + 86400, 5000));
    assert_eq!(c.count(), 0);
    assert_eq!(c.last_refresh(), 5000);
}

#[test]
fn instant_out_of_range_is_not_refreshed() {
    let mut c = MemeCounter::new(0);
    c.set_count(2);
    assert_eq!(refresh_meme_counter(&mut c, 8210266876799), RefreshOutcome::OutOfRange);
    assert_eq!(refresh_meme_counter(&mut c, 8210266866000), RefreshOutcome::OutOfRange);
    assert_eq!(refresh_meme_counter(&mut c, i64::MAX), RefreshOutcome::NoDayStart);
    assert_eq!(c.count(), 2);
    assert_eq!(c.last_refresh(), 0);
    assert_eq!(refresh_meme_counter(&mut c, 8210266865999), RefreshOutcome::Reset);
    assert_eq!(c.count(), 0);
    assert_eq!(c.last_refresh(), 8210266779600);
}

#[test]
fn instant_before_chronos_range_has_no_day_start() {
    let mut c = MemeCounter::new(-9_000_000_000_000);
    c.set_count(2);
    assert_eq!(refresh_meme_counter(&mut c, -8334601315201), RefreshOutcome::NoDayStart);
    assert_eq!(refresh_meme_counter(&mut c, -8334601315200), RefreshOutcome::NoDayStart);
    assert_eq!(c.count(), 2);
    assert_eq!(c.last_refresh(), -9_000_000_000_000);
}

#[test]
fn refreshing_twice_at_the_same_instant_resets_once() {
    let mut c = MemeCounter::new(1745182800);
    c.set_count(5);
    assert_eq!(refresh_meme_counter(&mut c, 1745487000), RefreshOutcome::Reset);
    c.set_count(1);
    assert_eq!(refresh_meme_counter(&mut c, 1745487000), RefreshOutcome::NotDue);
    assert_eq!(c.count(), 1);
    assert_eq!(c.last_refresh(), 1745442000);
    assert!(c.last_refresh() >= 1745182800 && c.last_refresh() <= 1745487000);
}

#[test]
fn the_first_memes_up_to_the_limit_are_kept() {
    let mut s = state(2, &[]);
    let deleted: Vec<bool> = (0..5)
        .map(|id| s.handle_message(&target_forward(id)).iter().any(|a| is_delete(a, id)))
        .collect();
    assert_eq!(deleted, vec![false, false, true, true, true]);
}

#[test]
fn message_on_a_new_day_is_counted_after_the_reset() {
    let mut s = state(2, &[]);
    s.counter.set_count(2);
    match s.handle_message_at(1745487000, &target_forward(20)) {
        Handled::Actions(actions) => assert!(actions.is_empty()),
        _ => panic!("the message should be handled"),
    }
    assert_eq!(s.counter.count(), 1);
    assert_eq!(s.counter.last_refresh(), 1745442000);
}

#[test]
fn message_on_the_same_day_keeps_the_count() {
    let mut s = state(2, &[]);
    s.counter.set_count(2);
    match s.handle_message_at(1745182800 + 3600, &target_forward(21)) {
        Handled::Actions(actions) => assert!(actions.iter().any(|a| is_delete(a, 21))),
        _ => panic!("the message should be handled"),
    }
    assert_eq!(s.counter.count(), 2);
    assert_eq!(s.counter.last_refresh(), 1745182800);
}

#[test]
fn message_at_an_instant_out_of_range_changes_nothing() {
    let mut s = state(2, &[]);
    s.counter.set_count(1);
    assert!(matches!(
        s.handle_message_at(8210266870000, &target_forward(22)),
        Handled::RefreshFailed(RefreshOutcome::OutOfRange)
    ));
    assert_eq!(s.counter.count(), 1);
    assert_eq!(s.counter.last_refresh(), 1745182800);
}

#[test]
fn meme_past_the_largest_count_is_refused() {
    let mut s = state(usize::MAX, &[]);
    s.counter.set_count(usize::MAX);
    assert!(matches!(s.handle_message_at(1745182800 + 60, &target_forward(23)), Handled::Overflow));
    assert_eq!(s.counter.count(), usize::MAX);
}

#[test]
fn spam_handler_keeps_the_daily_quota() {
    let config = Config::from_parts(vec![ADMIN.to_string()], 3, vec![], vec![]);
    let mut counter = MemeCounter::new(0);
    let mut kept = 0;
    for id in 0..7 {
        let actions = handle_spam(&target_forward(id), &mut counter, &config, TARGET);
        if !actions.iter().any(|a| is_delete(a, id)) {
            kept += 1;
            assert!(id < 3);
        }
        assert!(counter.count() <= 3);
    }
    assert_eq!(kept, 3);
    assert_eq!(counter.count(), 3);
}
