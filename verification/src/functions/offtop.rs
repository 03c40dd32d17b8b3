//! The off-topic redirect: removes an exchange that strayed from the chat's
//! subject and points the person who was answered to the off-topic chat.
//!
//! The handler is a state machine. [`command`] makes one move of it: it
//! looks at where the handler stands and how the last call ended, and says
//! which call comes next. It never performs a call itself.

use crate::client::{ApiError, DeleteRequest, DeleteRequestView, MarkupMode, SendRequest, SendRequestView};
use crate::keyboard::{ButtonView, Keyboard, KeyboardLayout};
use crate::markup::{
    decimal, escape, is_plain, lemma_decimal_is_plain, lemma_plain_text_is_kept, push_decimal,
    push_escaped, well_formed, Markup,
};
use crate::model::{BotIdentity, Message, MessageView};
use vstd::prelude::*;
use vstd::string::*;

verus! {

/// Sent when the command answers a message of the bot itself.
pub const TEXT_FAIL: &'static str = "Ha-ha... yaxshi urinish!";

/// Sent when the command answers no message at all.
pub const TEXT_NON_REPLY: &'static str = "↪ Reply bilan ko'rsatingchi habarni!";

/// The redirect notice up to the user's number.
pub const NOTICE_HEAD: &'static str = "<b>Hurmatli <a href=\"tg://user?id=";

/// The redirect notice between the user's number and the user's name.
pub const NOTICE_LINK: &'static str = "\">";

/// The redirect notice after the user's name.
pub const NOTICE_TAIL: &'static str = "</a>,</b>\n\nTushunishim bo'yicha siz mavzudan chetlayashayabsiz. Iltimos, quyidagi tugmachani bosish orqali bizning offtop guruhga o'tib oling! Offtopic guruhimizda istalgan mavzuda suhbatlashish ruxsat etiladi. Boshqalarga halaqit qilmayliga 😉\n\n<b>Hurmat ila, Rustina (Rastina)</b>";

/// What the one button of the redirect notice shows.
pub const BUTTON_LABEL: &'static str = "Offtopic";

/// Where the one button of the redirect notice leads.
pub const BUTTON_URL: &'static str = "https://t.me/rustlanguz/9400";

/// The redirect notice for the user with number `id` and display name
/// `name`: the fixed text, with the number written in decimal inside the
/// link and the name written as character data.
pub open spec fn redirect_notice(id: nat, name: Seq<char>) -> Seq<char> {
    NOTICE_HEAD@ + decimal(id) + NOTICE_LINK@ + escape(name) + NOTICE_TAIL@
}

/// The keyboard under the redirect notice: one row with one button.
pub open spec fn offtopic_keyboard() -> Seq<Seq<ButtonView>> {
    seq![seq![ButtonView { label: BUTTON_LABEL@, url: BUTTON_URL@ }]]
}

/// The redirect notice addressed to the sender of `msg`.
pub fn view(msg: &Message) -> (text: String)
    requires
        msg.sender is Some,
    ensures
        text@ == redirect_notice(msg@.sender->0.id, msg@.sender->0.first_name),
{
    let mut text = String::from_str(NOTICE_HEAD);
    match &msg.sender {
        Some(user) => {
            push_decimal(&mut text, user.id);
            text.append(NOTICE_LINK);
            push_escaped(&mut text, user.first_name.as_str());
        },
        None => {},
    }
    text.append(NOTICE_TAIL);
    text
}

/// The keyboard that goes under the redirect notice.
pub fn keyboard() -> (layout: KeyboardLayout)
    ensures
        layout@ == offtopic_keyboard(),
{
    let mut keyboard = Keyboard::new();
    keyboard.url(BUTTON_LABEL, BUTTON_URL)
}

/// Where the handler stands.
#[derive(Clone, Copy, Debug, PartialEq, Eq, Structural)]
pub enum State {
    /// Nothing has been decided yet.
    Start,
    /// The command answered no message; the notice that says so is on its
    /// way.
    NoReply,
    /// The command answered the bot itself; the refusal is on its way.
    SelfTarget,
    /// The exchange will be removed; the removal of the command message is
    /// on its way.
    Proceed,
    /// The command message is gone; the removal of the answered message is
    /// on its way.
    Deleted,
    /// The command message could not be removed; the removal of the
    /// answered message is on its way all the same.
    DeleteFailed,
    /// Both removals were tried; the redirect notice is on its way.
    Notified,
    /// The handler has finished.
    End,
}

/// What the handler wants done next.
#[derive(Debug, PartialEq, Eq)]
pub enum Action {
    /// Post this message, then report how that went.
    Send(SendRequest),
    /// Remove this message, then report how that went.
    Delete(DeleteRequest),
    /// Nothing more: the handler ends with this result.
    Finish(Result<(), ApiError>),
}

/// What an `Action` holds, as plain mathematical values.
pub enum ActionView {
    Send(SendRequestView),
    Delete(DeleteRequestView),
    Finish(Result<(), ApiError>),
}

impl View for Action {
    type V = ActionView;

    open spec fn view(&self) -> ActionView {
        match self {
            Action::Send(request) => ActionView::Send(request@),
            Action::Delete(request) => ActionView::Delete(request@),
            Action::Finish(result) => ActionView::Finish(*result),
        }
    }
}

/// One move of the handler: the state it enters, the failure it wants
/// written to the log (a removal that did not succeed), and the next
/// action.
#[derive(Debug, PartialEq, Eq)]
pub struct Step {
    pub state: State,
    pub logged: Option<ApiError>,
    pub action: Action,
}

/// What a `Step` holds, as plain mathematical values.
pub struct StepView {
    pub state: State,
    pub logged: Option<ApiError>,
    pub action: ActionView,
}

impl View for Step {
    type V = StepView;

    open spec fn view(&self) -> StepView {
        StepView { state: self.state, logged: self.logged, action: self.action@ }
    }
}

/// Whether `msg` answers a message whose sender carries the bot's own
/// account name `me`.
pub open spec fn targets_bot(msg: MessageView, me: Seq<char>) -> bool {
    &&& msg.reply_target matches Some(target)
    &&& target.sender matches Some(user)
    &&& user.username == Some(me)
}

/// A plain notice with the fixed text `text`, threaded to the command
/// message `msg`.
pub open spec fn plain_notice(msg: MessageView, text: Seq<char>) -> SendRequestView {
    SendRequestView {
        chat_id: msg.chat_id,
        text,
        markup_mode: MarkupMode::Plain,
        reply_to: Some(msg.id),
        keyboard: None,
    }
}

/// The redirect notice for the command message `msg`: addressed to the
/// sender of the answered message, in HTML markup, with the off-topic
/// keyboard under it.
pub open spec fn redirect(msg: MessageView) -> SendRequestView
    recommends
        msg.reply_target is Some,
        msg.reply_target->0.sender is Some,
{
    let user = msg.reply_target->0.sender->0;
    SendRequestView {
        chat_id: msg.chat_id,
        text: redirect_notice(user.id, user.first_name),
        markup_mode: MarkupMode::Html,
        reply_to: Some(msg.id),
        keyboard: Some(offtopic_keyboard()),
    }
}

/// The removal of the command message `msg` itself.
pub open spec fn delete_trigger(msg: MessageView) -> DeleteRequestView {
    DeleteRequestView { chat_id: msg.chat_id, message_id: msg.id }
}

/// The removal of the message that `msg` answers.
pub open spec fn delete_target(msg: MessageView) -> DeleteRequestView
    recommends
        msg.reply_target is Some,
{
    DeleteRequestView { chat_id: msg.chat_id, message_id: msg.reply_target->0.id }
}

/// The handler's result when its last call ended with `failure`.
pub open spec fn outcome(failure: Option<ApiError>) -> Result<(), ApiError> {
    match failure {
        Some(error) => Err(error),
        None => Ok(()),
    }
}

impl State {
    /// Whether the handler can stand in this state while it works on `msg`:
    /// a removal needs a message to remove, and the redirect notice needs
    /// somebody to address.
    pub open spec fn admits(self, msg: MessageView) -> bool {
        match self {
            State::Proceed => msg.reply_target is Some,
            State::Deleted | State::DeleteFailed => {
                &&& msg.reply_target is Some
                &&& msg.reply_target->0.sender is Some
            },
            _ => true,
        }
    }

    /// An upper bound on the moves that are left from this state.
    pub open spec fn moves_left(self) -> nat {
        match self {
            State::Start => 4,
            State::Proceed => 3,
            State::Deleted | State::DeleteFailed => 2,
            State::NoReply | State::SelfTarget | State::Notified => 1,
            State::End => 0,
        }
    }
}

/// The move that the handler makes for the command message `msg`, with
/// the bot's account name `me`, from `state`, when the call that the
/// previous move asked for ended with `failure` (`None`: it succeeded, or
/// there was no previous move).
pub open spec fn next_step(
    msg: MessageView,
    me: Seq<char>,
    state: State,
    failure: Option<ApiError>,
) -> StepView {
    match state {
        State::Start => {
            if msg.reply_target is None {
                StepView {
                    state: State::NoReply,
                    logged: None,
                    action: ActionView::Send(plain_notice(msg, TEXT_NON_REPLY@)),
                }
            } else if targets_bot(msg, me) {
                StepView {
                    state: State::SelfTarget,
                    logged: None,
                    action: ActionView::Send(plain_notice(msg, TEXT_FAIL@)),
                }
            } else {
                StepView {
                    state: State::Proceed,
                    logged: None,
                    action: ActionView::Delete(delete_trigger(msg)),
                }
            }
        },
        State::Proceed => StepView {
            state: if failure is None {
                State::Deleted
            } else {
                State::DeleteFailed
            },
            logged: failure,
            action: ActionView::Delete(delete_target(msg)),
        },
        State::Deleted | State::DeleteFailed => StepView {
            state: State::Notified,
            logged: failure,
            action: ActionView::Send(redirect(msg)),
        },
        State::NoReply | State::SelfTarget | State::Notified => StepView {
            state: State::End,
            logged: None,
            action: ActionView::Finish(outcome(failure)),
        },
        State::End => StepView {
            state: State::End,
            logged: None,
            action: ActionView::Finish(Ok(())),
        },
    }
}

fn notice(msg: &Message, text: &str) -> (request: SendRequest)
    ensures
        request@ == plain_notice(msg@, text@),
{
    SendRequest {
        chat_id: msg.chat_id,
        text: String::from_str(text),
        markup_mode: MarkupMode::Plain,
        reply_to: Some(msg.id),
        keyboard: None,
    }
}

fn answers_bot(msg: &Message, me: &BotIdentity) -> (yes: bool)
    ensures
        yes == targets_bot(msg@, me@),
{
    match &msg.reply_target {
        Some(target) => {
            assert(msg@.reply_target == Some(Box::new((**target)@)));
            match &target.sender {
                Some(user) => match &user.username {
                    Some(name) => *name == me.username,
                    None => false,
                },
                None => false,
            }
        },
        None => {
            assert(msg@.reply_target is None);
            false
        },
    }
}

/// One move of the off-topic redirect for the command message `msg`.
///
/// `state` is where the handler stands (`State::Start` for the first
/// move) and `failure` says how the call of the previous move ended. The
/// step that comes back names the state to go on from and the next action;
/// after `Action::Finish` there is nothing left to do.
///
/// A removal that fails does not stop the handler: the failure is handed
/// out in `logged` and the next call is asked for all the same. Only the
/// outcome of a notice decides the handler's result.
pub fn command(msg: &Message, me: &BotIdentity, state: State, failure: Option<ApiError>) -> (step:
    Step)
    requires
        state.admits(msg@),
    ensures
        step@ == next_step(msg@, me@, state, failure),
{
    match state {
        State::Start => {
            if msg.reply_target.is_none() {
                assert(msg@.reply_target is None);
                Step {
                    state: State::NoReply,
                    logged: None,
                    action: Action::Send(notice(msg, TEXT_NON_REPLY)),
                }
            } else if answers_bot(msg, me) {
                Step {
                    state: State::SelfTarget,
                    logged: None,
                    action: Action::Send(notice(msg, TEXT_FAIL)),
                }
            } else {
                assert(msg@.reply_target is Some);
                Step {
                    state: State::Proceed,
                    logged: None,
                    action: Action::Delete(
                        DeleteRequest { chat_id: msg.chat_id, message_id: msg.id },
                    ),
                }
            }
        },
        State::Proceed => {
            let next = if failure.is_none() {
                State::Deleted
            } else {
                State::DeleteFailed
            };
            match &msg.reply_target {
                Some(target) => {
                    assert(msg@.reply_target == Some(Box::new((**target)@)));
                    Step {
                        state: next,
                        logged: failure,
                        action: Action::Delete(
                            DeleteRequest { chat_id: msg.chat_id, message_id: target.id },
                        ),
                    }
                },
                None => {
                    assert(msg@.reply_target is None);
                    Step { state: State::End, logged: None, action: Action::Finish(Ok(())) }
                },
            }
        },
        State::Deleted | State::DeleteFailed => {
            match &msg.reply_target {
                Some(target) => {
                    assert(msg@.reply_target == Some(Box::new((**target)@)));
                    let request = SendRequest {
                        chat_id: msg.chat_id,
                        text: view(target),
                        markup_mode: MarkupMode::Html,
                        reply_to: Some(msg.id),
                        keyboard: Some(keyboard()),
                    };
                    Step { state: State::Notified, logged: failure, action: Action::Send(request) }
                },
                None => {
                    assert(msg@.reply_target is None);
                    Step { state: State::End, logged: None, action: Action::Finish(Ok(())) }
                },
            }
        },
        State::NoReply | State::SelfTarget | State::Notified => {
            let result = match failure {
                Some(error) => Err(error),
                None => Ok(()),
            };
            Step { state: State::End, logged: None, action: Action::Finish(result) }
        },
        State::End => Step { state: State::End, logged: None, action: Action::Finish(Ok(())) },
    }
}

impl State {
    /// Whether the handler can stand in this state while it works on `msg`.
    pub fn can_handle(&self, msg: &Message) -> (ok: bool)
        ensures
            ok == self.admits(msg@),
    {
        match self {
            State::Proceed => {
                assert(msg@.reply_target is Some <==> msg.reply_target is Some);
                msg.reply_target.is_some()
            },
            State::Deleted | State::DeleteFailed => match &msg.reply_target {
                Some(target) => {
                    assert(msg@.reply_target == Some(Box::new((**target)@)));
                    target.sender.is_some()
                },
                None => {
                    assert(msg@.reply_target is None);
                    false
                },
            },
            _ => true,
        }
    }
}

/// How the calls of one run end: `script(k)` is the failure of the call
/// that the handler asks for in its move number `k`, or `None` where that
/// call succeeds.
pub type Script = spec_fn(nat) -> Option<ApiError>;

/// The moves that the handler makes from `state` on, when the call before
/// them ended with `failure` and the calls of the moves from number `k` on
/// end as `script` says. The last move is the one that finishes.
pub open spec fn moves_from(
    msg: MessageView,
    me: Seq<char>,
    state: State,
    failure: Option<ApiError>,
    script: Script,
    k: nat,
) -> Seq<StepView>
    decreases state.moves_left(),
{
    let step = next_step(msg, me, state, failure);
    if step.action is Finish {
        seq![step]
    } else {
        seq![step] + moves_from(msg, me, step.state, script(k), script, k + 1)
    }
}

/// All the moves of the handler for the command message `msg`, from the
/// start to the move that finishes.
pub open spec fn moves(msg: MessageView, me: Seq<char>, script: Script) -> Seq<StepView> {
    moves_from(msg, me, State::Start, None, script, 0)
}

/// The calls among `steps`, in the order in which they are asked for.
pub open spec fn calls(steps: Seq<StepView>) -> Seq<ActionView> {
    steps.map_values(|step: StepView| step.action).filter(|action: ActionView| !(action is Finish))
}

/// Whether the command message `msg` answers somebody else than the bot
/// `me`: it has a reply target, that target has a sender, and the sender
/// does not carry the bot's account name.
pub open spec fn answers_other_user(msg: MessageView, me: Seq<char>) -> bool {
    &&& msg.reply_target is Some
    &&& msg.reply_target->0.sender is Some
    &&& !targets_bot(msg, me)
}

/// The moves of the handler in closed form, case by case: one notice and
/// the end where there is nothing to remove, else two removals, the
/// redirect notice and the end.
pub open spec fn course(msg: MessageView, me: Seq<char>, script: Script) -> Seq<StepView> {
    let finish = |k: nat|
        StepView {
            state: State::End,
            logged: None,
            action: ActionView::Finish(outcome(script(k))),
        };
    if msg.reply_target is None {
        seq![
            StepView {
                state: State::NoReply,
                logged: None,
                action: ActionView::Send(plain_notice(msg, TEXT_NON_REPLY@)),
            },
            finish(0),
        ]
    } else if targets_bot(msg, me) {
        seq![
            StepView {
                state: State::SelfTarget,
                logged: None,
                action: ActionView::Send(plain_notice(msg, TEXT_FAIL@)),
            },
            finish(0),
        ]
    } else {
        seq![
            StepView {
                state: State::Proceed,
                logged: None,
                action: ActionView::Delete(delete_trigger(msg)),
            },
            StepView {
                state: if script(0) is None {
                    State::Deleted
                } else {
                    State::DeleteFailed
                },
                logged: script(0),
                action: ActionView::Delete(delete_target(msg)),
            },
            StepView {
                state: State::Notified,
                logged: script(1),
                action: ActionView::Send(redirect(msg)),
            },
            finish(2),
        ]
    }
}

/// Move by move, the handler does what `course` says, whatever the
/// message and however the calls end.
pub proof fn law_course(msg: MessageView, me: Seq<char>, script: Script)
    ensures
        moves(msg, me, script) == course(msg, me, script),
{
    let first = next_step(msg, me, State::Start, None);
    if msg.reply_target is None || targets_bot(msg, me) {
        let last = next_step(msg, me, first.state, script(0));
        assert(moves_from(msg, me, first.state, script(0), script, 1) == seq![last]);
        assert(moves(msg, me, script) == seq![first] + seq![last]);
        assert(moves(msg, me, script) == seq![first, last]);
    } else {
        let second = next_step(msg, me, State::Proceed, script(0));
        let third = next_step(msg, me, second.state, script(1));
        let last = next_step(msg, me, State::Notified, script(2));
        assert(moves_from(msg, me, State::Notified, script(2), script, 3) == seq![last]);
        assert(moves_from(msg, me, second.state, script(1), script, 2) == seq![third] + seq![
            last,
        ]);
        assert(moves_from(msg, me, State::Proceed, script(0), script, 1) == seq![second] + (seq![
            third,
        ] + seq![last]));
        assert(moves(msg, me, script) == seq![first] + (seq![second] + (seq![third] + seq![
            last,
        ])));
        assert(moves(msg, me, script) == seq![first, second, third, last]);
    }
}

/// A command that answers no message gets the no-reply notice and nothing
/// else: the handler asks for that one send, for no removal, and ends with
/// the outcome of the send.
pub proof fn law_no_reply_target(msg: MessageView, me: Seq<char>, script: Script)
    requires
        msg.reply_target is None,
    ensures
        moves(msg, me, script) == seq![
            StepView {
                state: State::NoReply,
                logged: None,
                action: ActionView::Send(plain_notice(msg, TEXT_NON_REPLY@)),
            },
            StepView {
                state: State::End,
                logged: None,
                action: ActionView::Finish(outcome(script(0))),
            },
        ],
        calls(moves(msg, me, script)) == seq![
            ActionView::Send(plain_notice(msg, TEXT_NON_REPLY@)),
        ],
{
    law_course(msg, me, script);
    let steps = course(msg, me, script);
    lemma_calls_of_two(steps[0], steps[1]);
    assert(steps == seq![steps[0], steps[1]]);
}

/// A command that answers a message of the bot itself gets the refusal and
/// nothing else: the handler asks for that one send, for no removal, and
/// ends with the outcome of the send.
pub proof fn law_self_target(msg: MessageView, me: Seq<char>, script: Script)
    requires
        targets_bot(msg, me),
    ensures
        moves(msg, me, script) == seq![
            StepView {
                state: State::SelfTarget,
                logged: None,
                action: ActionView::Send(plain_notice(msg, TEXT_FAIL@)),
            },
            StepView {
                state: State::End,
                logged: None,
                action: ActionView::Finish(outcome(script(0))),
            },
        ],
        calls(moves(msg, me, script)) == seq![ActionView::Send(plain_notice(msg, TEXT_FAIL@))],
{
    law_course(msg, me, script);
    let steps = course(msg, me, script);
    lemma_calls_of_two(steps[0], steps[1]);
    assert(steps == seq![steps[0], steps[1]]);
}

/// A command that answers somebody else is carried out in full, however
/// the calls end: the handler asks for the removal of the command message,
/// then for the removal of the answered message, then for the redirect
/// notice with its keyboard of exactly one button, and for nothing else.
/// Each removal that fails is handed to the log, and the handler ends with
/// the outcome of the notice.
pub proof fn law_redirect(msg: MessageView, me: Seq<char>, script: Script)
    requires
        answers_other_user(msg, me),
    ensures
        moves(msg, me, script) == seq![
            StepView {
                state: State::Proceed,
                logged: None,
                action: ActionView::Delete(delete_trigger(msg)),
            },
            StepView {
                state: if script(0) is None {
                    State::Deleted
                } else {
                    State::DeleteFailed
                },
                logged: script(0),
                action: ActionView::Delete(delete_target(msg)),
            },
            StepView {
                state: State::Notified,
                logged: script(1),
                action: ActionView::Send(redirect(msg)),
            },
            StepView {
                state: State::End,
                logged: None,
                action: ActionView::Finish(outcome(script(2))),
            },
        ],
        calls(moves(msg, me, script)) == seq![
            ActionView::Delete(delete_trigger(msg)),
            ActionView::Delete(delete_target(msg)),
            ActionView::Send(redirect(msg)),
        ],
        redirect(msg).keyboard == Some(offtopic_keyboard()),
        KeyboardLayout::button_count(offtopic_keyboard()) == 1,
{
    law_course(msg, me, script);
    let steps = course(msg, me, script);
    lemma_calls_of_four(steps[0], steps[1], steps[2], steps[3]);
    assert(steps == seq![steps[0], steps[1], steps[2], steps[3]]);
    lemma_one_button();
}

/// A first removal that fails stops nothing: the handler still asks for
/// the second removal and then for the redirect notice, and hands the
/// failure to the log.
pub proof fn law_first_delete_fails(
    msg: MessageView,
    me: Seq<char>,
    script: Script,
    error: ApiError,
)
    requires
        answers_other_user(msg, me),
        script(0) == Some(error),
    ensures
        moves(msg, me, script).len() == 4,
        moves(msg, me, script)[1].state == State::DeleteFailed,
        moves(msg, me, script)[1].logged == Some(error),
        moves(msg, me, script)[1].action == ActionView::Delete(delete_target(msg)),
        moves(msg, me, script)[2].action == ActionView::Send(redirect(msg)),
        moves(msg, me, script)[3].action == ActionView::Finish(outcome(script(2))),
{
    law_redirect(msg, me, script);
}

/// A handler that starts on a message whose reply target, if it has one,
/// has a sender never leaves the states that admit the message: each move
/// of the run can be followed by the next.
pub proof fn law_states_admit(msg: MessageView, me: Seq<char>, script: Script)
    requires
        msg.reply_target is Some ==> msg.reply_target->0.sender is Some,
    ensures
        State::Start.admits(msg),
        forall|i: int|
            0 <= i < moves(msg, me, script).len() ==> (#[trigger] moves(
                msg,
                me,
                script,
            )[i]).state.admits(msg),
{
    law_course(msg, me, script);
}

/// Every run of the handler ends: it makes at most four moves, the last of
/// them finishes, and none before it does.
pub proof fn law_terminates(msg: MessageView, me: Seq<char>, script: Script)
    ensures
        1 <= moves(msg, me, script).len() <= 4,
        moves(msg, me, script).last().action is Finish,
        forall|i: int|
            0 <= i < moves(msg, me, script).len() - 1 ==> !(#[trigger] moves(
                msg,
                me,
                script,
            )[i].action is Finish),
{
    lemma_moves_from_end(msg, me, State::Start, None, script, 0);
}

proof fn lemma_moves_from_end(
    msg: MessageView,
    me: Seq<char>,
    state: State,
    failure: Option<ApiError>,
    script: Script,
    k: nat,
)
    ensures
        1 <= moves_from(msg, me, state, failure, script, k).len() <= if state.moves_left() == 0 {
            1
        } else {
            state.moves_left()
        },
        moves_from(msg, me, state, failure, script, k).last().action is Finish,
        forall|i: int|
            0 <= i < moves_from(msg, me, state, failure, script, k).len() - 1 ==> !(
            #[trigger] moves_from(msg, me, state, failure, script, k)[i].action is Finish),
    decreases state.moves_left(),
{
    let step = next_step(msg, me, state, failure);
    if !(step.action is Finish) {
        lemma_moves_from_end(msg, me, step.state, script(k), script, k + 1);
        let rest = moves_from(msg, me, step.state, script(k), script, k + 1);
        let all = moves_from(msg, me, state, failure, script, k);
        assert(all == seq![step] + rest);
        assert forall|i: int| 0 <= i < all.len() - 1 implies !(#[trigger] all[i].action is Finish) by {
            if i > 0 {
                assert(all[i] == rest[i - 1]);
            }
        }
    }
}

proof fn lemma_calls_of_two(first: StepView, last: StepView)
    requires
        !(first.action is Finish),
        last.action is Finish,
    ensures
        calls(seq![first, last]) == seq![first.action],
{
    let actions = seq![first, last].map_values(|step: StepView| step.action);
    let keep = |action: ActionView| !(action is Finish);
    assert(actions == seq![first.action, last.action]);
    reveal_with_fuel(Seq::filter, 3);
    assert(actions.drop_last() == seq![first.action]);
    assert(actions.drop_last().drop_last() == Seq::<ActionView>::empty());
    assert(actions.filter(keep) == seq![first.action]);
}

proof fn lemma_calls_of_four(first: StepView, second: StepView, third: StepView, last: StepView)
    requires
        !(first.action is Finish),
        !(second.action is Finish),
        !(third.action is Finish),
        last.action is Finish,
    ensures
        calls(seq![first, second, third, last]) == seq![first.action, second.action, third.action],
{
    let actions = seq![first, second, third, last].map_values(|step: StepView| step.action);
    let keep = |action: ActionView| !(action is Finish);
    assert(actions == seq![first.action, second.action, third.action, last.action]);
    reveal_with_fuel(Seq::filter, 5);
    assert(actions.drop_last() == seq![first.action, second.action, third.action]);
    assert(actions.drop_last().drop_last() == seq![first.action, second.action]);
    assert(actions.drop_last().drop_last().drop_last() == seq![first.action]);
    assert(actions.drop_last().drop_last().drop_last().drop_last() == Seq::<ActionView>::empty());
    assert(actions.filter(keep) == seq![first.action, second.action, third.action]);
}

proof fn lemma_one_button()
    ensures
        KeyboardLayout::button_count(offtopic_keyboard()) == 1,
{
    let layout = offtopic_keyboard();
    assert(layout.drop_last() == Seq::<Seq<ButtonView>>::empty());
    reveal_with_fuel(KeyboardLayout::button_count, 2);
}

/// The words of the redirect notice before the link.
pub const NOTICE_GREETING: &'static str = "Hurmatli ";

/// The scheme of the link to a user, up to the user's number.
pub const USER_LINK: &'static str = "tg://user?id=";

/// The words of the redirect notice between its two bold parts.
pub const NOTICE_BODY: &'static str = "\n\nTushunishim bo'yicha siz mavzudan chetlayashayabsiz. Iltimos, quyidagi tugmachani bosish orqali bizning offtop guruhga o'tib oling! Offtopic guruhimizda istalgan mavzuda suhbatlashish ruxsat etiladi. Boshqalarga halaqit qilmayliga 😉\n\n";

/// The signature under the redirect notice.
pub const NOTICE_SIGNATURE: &'static str = "Hurmat ila, Rustina (Rastina)";

/// The redirect notice as a document: a bold greeting that links the
/// user's name to the user, the body, and a bold signature. The name is
/// text of the document and nothing else.
pub open spec fn notice_markup(id: nat, name: Seq<char>) -> Markup {
    let link = Markup::Link { href: USER_LINK@ + decimal(id), body: Box::new(Markup::Text(name)) };
    let greeting = Markup::Bold(
        Box::new(
            Markup::Then(
                Box::new(Markup::Text(NOTICE_GREETING@)),
                Box::new(Markup::Then(Box::new(link), Box::new(Markup::Text(seq![','])))),
            ),
        ),
    );
    let signature = Markup::Bold(Box::new(Markup::Text(NOTICE_SIGNATURE@)));
    Markup::Then(
        Box::new(greeting),
        Box::new(Markup::Then(Box::new(Markup::Text(NOTICE_BODY@)), Box::new(signature))),
    )
}

/// The redirect notice is well-formed markup, whatever the user's display
/// name holds: it is the written form of the document `notice_markup`, in
/// which the name stands as text.
pub proof fn law_notice_well_formed(id: nat, name: Seq<char>)
    ensures
        redirect_notice(id, name) == notice_markup(id, name).render(),
        notice_markup(id, name).valid(),
        well_formed(redirect_notice(id, name)),
{
    reveal_strlit("<b>Hurmatli <a href=\"tg://user?id=");
    reveal_strlit("\">");
    reveal_strlit("</a>,</b>\n\nTushunishim bo'yicha siz mavzudan chetlayashayabsiz. Iltimos, quyidagi tugmachani bosish orqali bizning offtop guruhga o'tib oling! Offtopic guruhimizda istalgan mavzuda suhbatlashish ruxsat etiladi. Boshqalarga halaqit qilmayliga 😉\n\n<b>Hurmat ila, Rustina (Rastina)</b>");
    reveal_strlit("Hurmatli ");
    reveal_strlit("tg://user?id=");
    reveal_strlit("\n\nTushunishim bo'yicha siz mavzudan chetlayashayabsiz. Iltimos, quyidagi tugmachani bosish orqali bizning offtop guruhga o'tib oling! Offtopic guruhimizda istalgan mavzuda suhbatlashish ruxsat etiladi. Boshqalarga halaqit qilmayliga 😉\n\n");
    reveal_strlit("Hurmat ila, Rustina (Rastina)");
    let href = USER_LINK@ + decimal(id);
    lemma_decimal_is_plain(id);
    assert(is_plain(href)) by {
        assert forall|i: int| 0 <= i < href.len() implies {
            &&& #[trigger] href[i] != '<'
            &&& href[i] != '>'
            &&& href[i] != '&'
            &&& href[i] != '"'
        } by {
            if i >= USER_LINK@.len() {
                assert(href[i] == decimal(id)[i - USER_LINK@.len()]);
            }
        }
    }
    lemma_plain_text_is_kept(NOTICE_GREETING@);
    lemma_plain_text_is_kept(seq![',']);
    lemma_plain_text_is_kept(NOTICE_BODY@);
    lemma_plain_text_is_kept(NOTICE_SIGNATURE@);
    let document = notice_markup(id, name);
    assert(document.valid()) by {
        reveal_with_fuel(Markup::valid, 6);
    }
    assert(document.render() == seq!['<', 'b', '>'] + (NOTICE_GREETING@ + ((seq![
        '<',
        'a',
        ' ',
        'h',
        'r',
        'e',
        'f',
        '=',
        '"',
    ] + href + seq!['"', '>'] + escape(name) + seq!['<', '/', 'a', '>']) + seq![','])) + seq![
        '<',
        '/',
        'b',
        '>',
    ] + (NOTICE_BODY@ + (seq!['<', 'b', '>'] + NOTICE_SIGNATURE@ + seq!['<', '/', 'b', '>']))) by {
        reveal_with_fuel(Markup::render, 6);
    }
    assert(NOTICE_HEAD@ == seq!['<', 'b', '>'] + NOTICE_GREETING@ + seq![
        '<',
        'a',
        ' ',
        'h',
        'r',
        'e',
        'f',
        '=',
        '"',
    ] + USER_LINK@);
    assert(NOTICE_TAIL@ == seq!['<', '/', 'a', '>'] + seq![','] + seq!['<', '/', 'b', '>']
        + NOTICE_BODY@ + seq!['<', 'b', '>'] + NOTICE_SIGNATURE@ + seq!['<', '/', 'b', '>']);
    assert(redirect_notice(id, name) == document.render());
}

} // verus!
