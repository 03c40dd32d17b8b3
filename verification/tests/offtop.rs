use xeonitte::client::{ApiError, DeleteRequest, MarkupMode, SendRequest};
use xeonitte::functions::offtop::{
    command, keyboard, view, Action, State, Step, TEXT_FAIL, TEXT_NON_REPLY,
};
use xeonitte::keyboard::{Button, KeyboardLayout};
use xeonitte::model::{BotIdentity, Message, User};

const CHAT: i64 = -1001234567890;

fn user(id: u64, username: Option<&str>, first_name: &str) -> User {
    User { id, username: username.map(|name| name.to_string()), first_name: first_name.to_string() }
}

fn plain(id: i32, sender: Option<User>) -> Message {
    Message { id, chat_id: CHAT, sender, text: Some("hello".to_string()), reply_target: None }
}

fn reply(id: i32, sender: Option<User>, target: Message) -> Message {
    Message {
        id,
        chat_id: CHAT,
        sender,
        text: Some("/offtop".to_string()),
        reply_target: Some(Box::new(target)),
    }
}

fn bot() -> BotIdentity {
    BotIdentity { username: "rustinabot".to_string() }
}

fn moderator() -> User {
    user(11, Some("moderator"), "Mod")
}

fn redirect_text(id: &str, name: &str) -> String {
    format!(
        "<b>Hurmatli <a href=\"tg://user?id={}\">{}</a>,</b>\n\nTushunishim bo'yicha siz mavzudan chetlayashayabsiz. Iltimos, quyidagi tugmachani bosish orqali bizning offtop guruhga o'tib oling! Offtopic guruhimizda istalgan mavzuda suhbatlashish ruxsat etiladi. Boshqalarga halaqit qilmayliga 😉\n\n<b>Hurmat ila, Rustina (Rastina)</b>",
        id, name
    )
}

fn offtopic_layout() -> KeyboardLayout {
    KeyboardLayout {
        rows: vec![vec![Button {
            label: "Offtopic".to_string(),
            url: "https://t.me/rustlanguz/9400".to_string(),
        }]],
    }
}

fn notice(msg: &Message, text: &str) -> Action {
    Action::Send(SendRequest {
        chat_id: msg.chat_id,
        text: text.to_string(),
        markup_mode: MarkupMode::Plain,
        reply_to: Some(msg.id),
        keyboard: None,
    })
}

struct Run {
    calls: Vec<Action>,
    logged: Vec<ApiError>,
    states: Vec<State>,
    result: Result<(), ApiError>,
}

/// Drives the handler to its end against a client whose call number `k`
/// ends with `failures[k]` (and succeeds where the list is too short).
fn run(msg: &Message, me: &BotIdentity, failures: &[Option<ApiError>]) -> Run {
    let mut out = Run { calls: vec![], logged: vec![], states: vec![], result: Ok(()) };
    let mut state = State::Start;
    let mut failure = None;
    for _ in 0..10 {
        assert!(state.can_handle(msg));
        let step = command(msg, me, state, failure);
        out.states.push(step.state);
        if let Some(error) = step.logged {
            out.logged.push(error);
        }
        match step.action {
            Action::Finish(result) => {
                out.result = result;
                return out;
            }
            call => {
                failure = failures.get(out.calls.len()).copied().flatten();
                out.calls.push(call);
            }
        }
        state = step.state;
    }
    panic!("the handler did not finish");
}

#[test]
fn fixed_notice_texts() {
    assert_eq!(TEXT_FAIL, "Ha-ha... yaxshi urinish!");
    assert_eq!(TEXT_NON_REPLY, "\u{21aa} Reply bilan ko'rsatingchi habarni!");
}

#[test]
fn view_renders_the_redirect_notice() {
    let target = plain(5, Some(user(42, Some("ali"), "Ali")));
    assert_eq!(view(&target), redirect_text("42", "Ali"));
}

#[test]
fn view_writes_the_whole_user_number() {
    let target = plain(5, Some(user(u64::MAX, None, "Big")));
    assert_eq!(view(&target), redirect_text("18446744073709551615", "Big"));
}

#[test]
fn view_escapes_the_display_name() {
    let target = plain(5, Some(user(7, None, "</a><b>Tom & Jerry</b>")));
    assert_eq!(
        view(&target),
        redirect_text("7", "&lt;/a&gt;&lt;b&gt;Tom &amp; Jerry&lt;/b&gt;")
    );
}

#[test]
fn view_with_special_name_keeps_the_tags_of_the_template() {
    let tame = view(&plain(5, Some(user(7, None, "Tom"))));
    let wild = view(&plain(5, Some(user(7, None, "<i>T</i>&<a href=\"x\">o</a>m>"))));
    assert_eq!(tame.matches('<').count(), wild.matches('<').count());
    assert_eq!(tame.matches('>').count(), wild.matches('>').count());
    assert_eq!(wild.matches("<a ").count(), 1);
    assert_eq!(wild.matches("</a>").count(), 1);
    assert_eq!(wild.matches("<b>").count(), 2);
    assert_eq!(wild.matches("</b>").count(), 2);
}

#[test]
fn view_of_an_empty_name() {
    let target = plain(5, Some(user(1, None, "")));
    assert_eq!(view(&target), redirect_text("1", ""));
}

#[test]
fn keyboard_has_one_row_with_the_offtopic_button() {
    assert_eq!(keyboard(), offtopic_layout());
}

#[test]
fn no_reply_target_sends_the_no_reply_notice_only() {
    let msg = plain(100, Some(moderator()));
    let done = run(&msg, &bot(), &[]);
    assert_eq!(done.calls, vec![notice(&msg, TEXT_NON_REPLY)]);
    assert_eq!(done.states, vec![State::NoReply, State::End]);
    assert_eq!(done.logged, vec![]);
    assert_eq!(done.result, Ok(()));
}

#[test]
fn no_reply_target_issues_no_delete_even_when_the_send_fails() {
    let msg = plain(100, None);
    let done = run(&msg, &bot(), &[Some(ApiError::RateLimited)]);
    assert_eq!(done.calls, vec![notice(&msg, TEXT_NON_REPLY)]);
    assert!(done.calls.iter().all(|call| !matches!(call, Action::Delete(_))));
    assert_eq!(done.result, Err(ApiError::RateLimited));
}

#[test]
fn reply_to_the_bot_sends_the_refusal_only() {
    let own = plain(90, Some(user(1, Some("rustinabot"), "Rustina")));
    let msg = reply(100, Some(moderator()), own);
    let done = run(&msg, &bot(), &[]);
    assert_eq!(done.calls, vec![notice(&msg, TEXT_FAIL)]);
    assert_eq!(done.states, vec![State::SelfTarget, State::End]);
    assert_eq!(done.logged, vec![]);
    assert_eq!(done.result, Ok(()));
}

#[test]
fn reply_to_the_bot_reports_a_failed_send() {
    let own = plain(90, Some(user(1, Some("rustinabot"), "Rustina")));
    let msg = reply(100, Some(moderator()), own);
    let done = run(&msg, &bot(), &[Some(ApiError::Network)]);
    assert_eq!(done.calls, vec![notice(&msg, TEXT_FAIL)]);
    assert_eq!(done.result, Err(ApiError::Network));
}

#[test]
fn the_bot_is_told_by_its_exact_account_name() {
    let near = plain(90, Some(user(1, Some("RustinaBot"), "Rustina")));
    let msg = reply(100, Some(moderator()), near);
    let done = run(&msg, &bot(), &[]);
    assert_eq!(done.calls.len(), 3);
    let nameless = plain(90, Some(user(1, None, "Rustina")));
    let msg = reply(100, Some(moderator()), nameless);
    assert_eq!(run(&msg, &bot(), &[]).calls.len(), 3);
}

#[test]
fn reply_to_another_user_deletes_both_and_notifies() {
    let target = plain(90, Some(user(42, Some("ali"), "Ali <3")));
    let msg = reply(100, Some(moderator()), target);
    let done = run(&msg, &bot(), &[]);
    assert_eq!(
        done.calls,
        vec![
            Action::Delete(DeleteRequest { chat_id: CHAT, message_id: 100 }),
            Action::Delete(DeleteRequest { chat_id: CHAT, message_id: 90 }),
            Action::Send(SendRequest {
                chat_id: CHAT,
                text: redirect_text("42", "Ali &lt;3"),
                markup_mode: MarkupMode::Html,
                reply_to: Some(100),
                keyboard: Some(offtopic_layout()),
            }),
        ]
    );
    assert_eq!(done.states, vec![State::Proceed, State::Deleted, State::Notified, State::End]);
    assert_eq!(done.logged, vec![]);
    assert_eq!(done.result, Ok(()));
}

#[test]
fn the_redirect_keyboard_has_exactly_one_button() {
    let target = plain(90, Some(user(42, None, "Ali")));
    let msg = reply(100, None, target);
    let done = run(&msg, &bot(), &[]);
    match &done.calls[2] {
        Action::Send(request) => {
            let layout = request.keyboard.as_ref().unwrap();
            assert_eq!(layout.rows.iter().map(|row| row.len()).sum::<usize>(), 1);
        }
        other => panic!("expected a send, got {:?}", other),
    }
}

#[test]
fn a_failed_first_delete_does_not_stop_the_handler() {
    let target = plain(90, Some(user(42, None, "Ali")));
    let msg = reply(100, Some(moderator()), target);
    let clean = run(&msg, &bot(), &[]);
    let done = run(&msg, &bot(), &[Some(ApiError::PermissionDenied)]);
    assert_eq!(done.calls, clean.calls);
    assert_eq!(done.states, vec![State::Proceed, State::DeleteFailed, State::Notified, State::End]);
    assert_eq!(done.logged, vec![ApiError::PermissionDenied]);
    assert_eq!(done.result, Ok(()));
}

#[test]
fn a_failed_second_delete_does_not_stop_the_handler() {
    let target = plain(90, Some(user(42, None, "Ali")));
    let msg = reply(100, Some(moderator()), target);
    let clean = run(&msg, &bot(), &[]);
    let done = run(&msg, &bot(), &[None, Some(ApiError::Other)]);
    assert_eq!(done.calls, clean.calls);
    assert_eq!(done.states, vec![State::Proceed, State::Deleted, State::Notified, State::End]);
    assert_eq!(done.logged, vec![ApiError::Other]);
    assert_eq!(done.result, Ok(()));
}

#[test]
fn both_deletes_may_fail_and_the_notice_still_goes_out() {
    let target = plain(90, Some(user(42, None, "Ali")));
    let msg = reply(100, Some(moderator()), target);
    let done = run(&msg, &bot(), &[Some(ApiError::Network), Some(ApiError::RateLimited)]);
    assert_eq!(done.calls.len(), 3);
    assert!(matches!(done.calls[2], Action::Send(_)));
    assert_eq!(done.logged, vec![ApiError::Network, ApiError::RateLimited]);
    assert_eq!(done.result, Ok(()));
}

#[test]
fn a_failed_redirect_notice_fails_the_handler() {
    let target = plain(90, Some(user(42, None, "Ali")));
    let msg = reply(100, Some(moderator()), target);
    let done = run(&msg, &bot(), &[None, None, Some(ApiError::Network)]);
    assert_eq!(done.calls.len(), 3);
    assert_eq!(done.logged, vec![]);
    assert_eq!(done.result, Err(ApiError::Network));
}

#[test]
fn command_makes_the_first_move_whatever_failure_is_passed() {
    let msg = plain(100, None);
    let quiet = command(&msg, &bot(), State::Start, None);
    let noisy = command(&msg, &bot(), State::Start, Some(ApiError::Other));
    assert_eq!(quiet, noisy);
}

#[test]
fn command_stays_at_the_end() {
    let msg = plain(100, None);
    let step = command(&msg, &bot(), State::End, Some(ApiError::Other));
    assert_eq!(step, Step { state: State::End, logged: None, action: Action::Finish(Ok(())) });
}

#[test]
fn a_target_without_sender_cannot_be_notified() {
    let msg = reply(100, Some(moderator()), plain(90, None));
    assert!(State::Start.can_handle(&msg));
    assert!(State::Proceed.can_handle(&msg));
    assert!(!State::Deleted.can_handle(&msg));
    assert!(!State::DeleteFailed.can_handle(&msg));
    let bare = plain(100, None);
    assert!(!State::Proceed.can_handle(&bare));
    assert!(State::Notified.can_handle(&bare));
}

#[test]
fn causality_of_reply_chains() {
    let fine = reply(100, None, reply(90, None, plain(80, None)));
    assert!(fine.is_causal());
    let looped = reply(100, None, plain(100, None));
    assert!(!looped.is_causal());
    let deep = reply(100, None, reply(90, None, plain(90, None)));
    assert!(!deep.is_causal());
    let mut elsewhere = plain(100, None);
    elsewhere.chat_id = 1;
    assert!(reply(100, None, elsewhere).is_causal());
}
