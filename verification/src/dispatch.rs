//! Routing of inbound events: which command an event calls for, and the
//! per-event boundary at which a handler's failure ends up in the log and
//! nowhere else.
//!
//! [`dispatch`] makes one turn for one event. It holds no state of its own:
//! what it knows of an event is the `Progress` that the caller hands
//! back, so the turns of one event cannot reach those of another.

use crate::client::{ApiError, DeleteRequest, DeleteRequestView, SendRequest, SendRequestView};
use crate::functions::offtop;
use crate::functions::offtop::{Action, ActionView, Script, State, Step, StepView};
use crate::model::{BotIdentity, Event, Message, MessageView};
use vstd::prelude::*;
use vstd::string::*;

verus! {

/// The commands that the bot knows.
#[derive(Clone, Copy, Debug, PartialEq, Eq, Structural)]
pub enum Command {
    /// Redirect an off-topic exchange.
    Offtop,
}

/// The word by which the off-topic redirect is called.
pub const OFFTOP: &'static str = "offtop";

impl Command {
    /// The word by which the command is called, without the slash.
    pub open spec fn word(self) -> Seq<char> {
        match self {
            Command::Offtop => OFFTOP@,
        }
    }

    /// The word by which the command is called, without the slash.
    pub fn name(&self) -> (name: &'static str)
        ensures
            name@ == self.word(),
    {
        match self {
            Command::Offtop => OFFTOP,
        }
    }
}

/// Whether `c` ends a word: a space, a tab or a line break.
pub open spec fn is_blank(c: char) -> bool {
    c == ' ' || c == '\t' || c == '\n' || c == '\r'
}

/// The first word of `text`: everything before its first blank.
pub open spec fn first_word(text: Seq<char>) -> Seq<char>
    decreases text.len(),
{
    if text.len() == 0 || is_blank(text[0]) {
        Seq::empty()
    } else {
        seq![text[0]] + first_word(text.drop_first())
    }
}

/// An upper-case ASCII letter as its lower-case letter, any other
/// character as it is.
pub open spec fn fold_case(c: char) -> char {
    if 'A' <= c && c <= 'Z' {
        ((c as u8) + 32) as char
    } else {
        c
    }
}

/// Whether `a` and `b` are the same but for the case of ASCII letters.
pub open spec fn same_ignoring_case(a: Seq<char>, b: Seq<char>) -> bool {
    &&& a.len() == b.len()
    &&& forall|i: int| 0 <= i < a.len() ==> fold_case(#[trigger] a[i]) == fold_case(b[i])
}

/// Whether `word` calls the command named `name` on the bot with the
/// account name `bot`: a slash and the name, either alone or followed by
/// `@` and the bot's account name in any case.
pub open spec fn calls_command(word: Seq<char>, name: Seq<char>, bot: Seq<char>) -> bool {
    let plain = seq!['/'] + name;
    ||| word == plain
    ||| {
        &&& word.len() == plain.len() + 1 + bot.len()
        &&& word.take(plain.len() as int) == plain
        &&& word[plain.len() as int] == '@'
        &&& same_ignoring_case(word.skip(plain.len() as int + 1), bot)
    }
}

/// The command that a message with the text `text` calls on the bot
/// `bot`, if any: its first word decides.
pub open spec fn parse(text: Seq<char>, bot: Seq<char>) -> Option<Command> {
    if calls_command(first_word(text), Command::Offtop.word(), bot) {
        Some(Command::Offtop)
    } else {
        None
    }
}

/// The command that `event` calls for, if any. An event without a message,
/// a message without text and a text that calls no known command all go to
/// the fallback.
pub open spec fn route_of(event: Option<MessageView>, bot: Seq<char>) -> Option<Command> {
    match event {
        Some(msg) => match msg.text {
            Some(text) => parse(text, bot),
            None => None,
        },
        None => None,
    }
}

/// The first word of `text` is its longest prefix without a blank: where
/// the first `n` characters hold no blank and the text ends there or goes on
/// with a blank, they are the first word.
pub proof fn lemma_first_word(text: Seq<char>, n: int)
    requires
        0 <= n <= text.len(),
        forall|i: int| 0 <= i < n ==> !is_blank(#[trigger] text[i]),
        n == text.len() || is_blank(text[n]),
    ensures
        first_word(text) == text.take(n),
    decreases n,
{
    if n == 0 {
        assert(text.take(0) == Seq::<char>::empty());
    } else {
        let rest = text.drop_first();
        assert forall|i: int| 0 <= i < n - 1 implies !is_blank(#[trigger] rest[i]) by {
            assert(rest[i] == text[i + 1]);
        }
        lemma_first_word(rest, n - 1);
        assert(text.take(n) == seq![text[0]] + rest.take(n - 1));
    }
}

fn blank(c: char) -> (yes: bool)
    ensures
        yes == is_blank(c),
{
    c == ' ' || c == '\t' || c == '\n' || c == '\r'
}

fn folded(c: char) -> (lower: char)
    ensures
        lower == fold_case(c),
{
    if 'A' <= c && c <= 'Z' {
        ((c as u8) + 32) as char
    } else {
        c
    }
}

fn chars_of(s: &str) -> (chars: Vec<char>)
    ensures
        chars@ == s@,
{
    broadcast use vstd::string::group_string_axioms;

    let mut chars: Vec<char> = Vec::new();
    for c in it: s.chars()
        invariant
            it.seq() == s@,
            chars@ == s@.take(it.index()),
    {
        chars.push(c);
        assert(chars@ == s@.take(it.index() + 1));
    }
    assert(s@.take(s@.len() as int) == s@);
    chars
}

fn first_word_of(text: &str) -> (word: Vec<char>)
    ensures
        word@ == first_word(text@),
{
    broadcast use vstd::string::group_string_axioms;

    let mut word: Vec<char> = Vec::new();
    let mut open = true;
    for c in it: text.chars()
        invariant
            it.seq() == text@,
            open ==> word@ == text@.take(it.index()),
            open ==> forall|i: int| 0 <= i < it.index() ==> !is_blank(#[trigger] text@[i]),
            !open ==> word@ == first_word(text@),
    {
        if open {
            if blank(c) {
                open = false;
                proof {
                    lemma_first_word(text@, it.index());
                }
            } else {
                word.push(c);
                assert(word@ == text@.take(it.index() + 1));
            }
        }
    }
    proof {
        if open {
            lemma_first_word(text@, text@.len() as int);
            assert(text@.take(text@.len() as int) == text@);
        }
    }
    word
}

fn word_calls(word: &Vec<char>, name: &Vec<char>, bot: &Vec<char>) -> (yes: bool)
    requires
        name.len() < usize::MAX,
    ensures
        yes == calls_command(word@, name@, bot@),
{
    let ghost plain = seq!['/'] + name@;
    let plain_len = name.len() + 1;
    if word.len() < plain_len || word[0] != '/' {
        assert(word@ != plain);
        assert(word@.len() >= plain.len() ==> word@.take(plain.len() as int)[0] == word@[0]);
        return false;
    }
    let mut i: usize = 0;
    while i < name.len()
        invariant
            i <= name.len(),
            plain == seq!['/'] + name@,
            plain_len == name.len() + 1,
            word.len() >= plain_len,
            word[0] == '/',
            forall|j: int| 0 <= j < i ==> word[j + 1] == name[j],
        decreases name.len() - i,
    {
        if word[i + 1] != name[i] {
            assert(plain[i + 1] == name[i as int]);
            assert(word@.take(plain.len() as int)[i + 1] == word[i + 1]);
            return false;
        }
        i = i + 1;
    }
    assert(word@.take(plain.len() as int) == plain);
    if word.len() == plain_len {
        assert(word@.take(plain.len() as int) == word@);
        return true;
    }
    if word[plain_len] != '@' || word.len() - plain_len - 1 != bot.len() {
        return false;
    }
    let ghost suffix = word@.skip(plain.len() as int + 1);
    let mut k: usize = 0;
    while k < bot.len()
        invariant
            k <= bot.len(),
            plain == seq!['/'] + name@,
            plain_len == plain.len(),
            word.len() == plain_len + 1 + bot.len(),
            suffix == word@.skip(plain.len() as int + 1),
            forall|j: int| 0 <= j < k ==> fold_case(#[trigger] suffix[j]) == fold_case(bot[j]),
        decreases bot.len() - k,
    {
        assert(suffix[k as int] == word[plain_len + 1 + k]);
        if folded(word[plain_len + 1 + k]) != folded(bot[k]) {
            assert(fold_case(suffix[k as int]) != fold_case(bot[k as int]));
            return false;
        }
        k = k + 1;
    }
    true
}

/// The command that a message with the text `text` calls on the bot `me`,
/// if any.
pub fn parse_command(text: &str, me: &BotIdentity) -> (command: Option<Command>)
    ensures
        command == parse(text@, me@),
{
    let word = first_word_of(text);
    let name = chars_of(Command::Offtop.name());
    let bot = chars_of(me.username.as_str());
    proof {
        reveal_strlit("offtop");
    }
    if word_calls(&word, &name, &bot) {
        Some(Command::Offtop)
    } else {
        None
    }
}

/// The command that `event` calls for, or `None` where it goes to the
/// fallback.
pub fn route(event: &Event, me: &BotIdentity) -> (command: Option<Command>)
    ensures
        command == route_of(event@, me@),
{
    match &event.message {
        Some(msg) => match &msg.text {
            Some(text) => parse_command(text.as_str(), me),
            None => None,
        },
        None => None,
    }
}

/// How far the dispatcher has come with one event.
#[derive(Clone, Copy, Debug, PartialEq, Eq, Structural)]
pub enum Progress {
    /// The event has come in and nothing was done with it yet.
    Received,
    /// The handler of this command is at work and stands in this state.
    Handling(Command, State),
    /// The event is done with.
    Settled,
}

/// What the dispatcher wants written to the log.
#[derive(Clone, Copy, Debug, PartialEq, Eq, Structural)]
pub enum LogEntry {
    /// No handler took the event. This is no failure.
    Unhandled,
    /// A call failed and the handler went on without it.
    CallFailed(ApiError),
    /// The handler ended with this failure.
    HandlerFailed(ApiError),
}

/// What the dispatcher wants done next for one event.
#[derive(Debug, PartialEq, Eq)]
pub enum Effect {
    /// Post this message, then report how that went.
    Send(SendRequest),
    /// Remove this message, then report how that went.
    Delete(DeleteRequest),
    /// Nothing more: go on with other events.
    Rest,
}

/// What an `Effect` holds, as plain mathematical values.
pub enum EffectView {
    Send(SendRequestView),
    Delete(DeleteRequestView),
    Rest,
}

impl View for Effect {
    type V = EffectView;

    open spec fn view(&self) -> EffectView {
        match self {
            Effect::Send(request) => EffectView::Send(request@),
            Effect::Delete(request) => EffectView::Delete(request@),
            Effect::Rest => EffectView::Rest,
        }
    }
}

/// One turn of the dispatcher for one event: how far it has come, what
/// goes to the log, and what is to be done next.
#[derive(Debug, PartialEq, Eq)]
pub struct Turn {
    pub progress: Progress,
    pub log: Option<LogEntry>,
    pub effect: Effect,
}

/// What a `Turn` holds, as plain mathematical values.
pub struct TurnView {
    pub progress: Progress,
    pub log: Option<LogEntry>,
    pub effect: EffectView,
}

impl View for Turn {
    type V = TurnView;

    open spec fn view(&self) -> TurnView {
        TurnView { progress: self.progress, log: self.log, effect: self.effect@ }
    }
}

impl Progress {
    /// Whether the dispatcher can stand here while it works on `event`: a
    /// handler at work needs the message that it works on, in a state that
    /// admits that message.
    pub open spec fn admits(self, event: Option<MessageView>) -> bool {
        match self {
            Progress::Handling(_, state) => event is Some && state.admits(event->0),
            _ => true,
        }
    }

    /// An upper bound on the turns that are left from here.
    pub open spec fn turns_left(self) -> nat {
        match self {
            Progress::Received => 5,
            Progress::Handling(_, state) => state.moves_left(),
            Progress::Settled => 0,
        }
    }

    /// Whether the dispatcher can stand here while it works on `event`.
    pub fn can_handle(&self, event: &Event) -> (ok: bool)
        ensures
            ok == self.admits(event@),
    {
        match self {
            Progress::Handling(_, state) => match &event.message {
                Some(msg) => state.can_handle(msg),
                None => false,
            },
            _ => true,
        }
    }
}

/// The move that the handler of `command` makes: the table from each
/// known command to its handler.
pub open spec fn handler_step(
    command: Command,
    msg: MessageView,
    me: Seq<char>,
    state: State,
    failure: Option<ApiError>,
) -> StepView {
    match command {
        Command::Offtop => offtop::next_step(msg, me, state, failure),
    }
}

/// What the dispatcher makes of a handler's move. A call is passed on,
/// with a tolerated failure as a log entry beside it. A handler that has
/// finished settles the event: its failure, if it has one, goes to the log
/// and nowhere else.
pub open spec fn settle(command: Command, step: StepView) -> TurnView {
    match step.action {
        ActionView::Send(request) => TurnView {
            progress: Progress::Handling(command, step.state),
            log: match step.logged {
                Some(error) => Some(LogEntry::CallFailed(error)),
                None => None,
            },
            effect: EffectView::Send(request),
        },
        ActionView::Delete(request) => TurnView {
            progress: Progress::Handling(command, step.state),
            log: match step.logged {
                Some(error) => Some(LogEntry::CallFailed(error)),
                None => None,
            },
            effect: EffectView::Delete(request),
        },
        ActionView::Finish(result) => TurnView {
            progress: Progress::Settled,
            log: match result {
                Ok(_) => None,
                Err(error) => Some(LogEntry::HandlerFailed(error)),
            },
            effect: EffectView::Rest,
        },
    }
}

/// The turn that the dispatcher makes for `event` from `progress`, when
/// the call that the previous turn asked for ended with `failure`.
pub open spec fn next_turn(
    event: Option<MessageView>,
    me: Seq<char>,
    progress: Progress,
    failure: Option<ApiError>,
) -> TurnView {
    match progress {
        Progress::Received => match route_of(event, me) {
            Some(command) => settle(
                command,
                handler_step(command, event->0, me, State::Start, None),
            ),
            None => TurnView {
                progress: Progress::Settled,
                log: Some(LogEntry::Unhandled),
                effect: EffectView::Rest,
            },
        },
        Progress::Handling(command, state) => settle(
            command,
            handler_step(command, event->0, me, state, failure),
        ),
        Progress::Settled => TurnView {
            progress: Progress::Settled,
            log: None,
            effect: EffectView::Rest,
        },
    }
}

fn settled(log: Option<LogEntry>) -> (turn: Turn)
    ensures
        turn@ == (TurnView { progress: Progress::Settled, log, effect: EffectView::Rest }),
{
    Turn { progress: Progress::Settled, log, effect: Effect::Rest }
}

fn settle_step(command: Command, step: Step) -> (turn: Turn)
    ensures
        turn@ == settle(command, step@),
{
    let log = match step.logged {
        Some(error) => Some(LogEntry::CallFailed(error)),
        None => None,
    };
    match step.action {
        Action::Send(request) => Turn {
            progress: Progress::Handling(command, step.state),
            log,
            effect: Effect::Send(request),
        },
        Action::Delete(request) => Turn {
            progress: Progress::Handling(command, step.state),
            log,
            effect: Effect::Delete(request),
        },
        Action::Finish(result) => match result {
            Ok(_) => settled(None),
            Err(error) => settled(Some(LogEntry::HandlerFailed(error))),
        },
    }
}

fn handle(command: Command, msg: &Message, me: &BotIdentity, state: State, failure: Option<ApiError>) -> (step: Step)
    requires
        state.admits(msg@),
    ensures
        step@ == handler_step(command, msg@, me@, state, failure),
{
    match command {
        Command::Offtop => offtop::command(msg, me, state, failure),
    }
}

/// One turn of the dispatcher for `event`.
///
/// `progress` is how far the dispatcher has come with this event
/// (`Progress::Received` for the first turn) and `failure` says how the
/// call of the previous turn ended. The turn that comes back names the
/// progress to go on from, what to write to the log, and what to do next;
/// after `Effect::Rest` the event is done with.
///
/// No outcome of a call makes the dispatcher give up: a handler that fails
/// settles its event with a log entry, and an event that no handler takes
/// settles with the entry `LogEntry::Unhandled`.
pub fn dispatch(event: &Event, me: &BotIdentity, progress: Progress, failure: Option<ApiError>) -> (turn:
    Turn)
    requires
        progress.admits(event@),
    ensures
        turn@ == next_turn(event@, me@, progress, failure),
{
    match progress {
        Progress::Received => match route(event, me) {
            Some(command) => match &event.message {
                Some(msg) => settle_step(command, handle(command, msg, me, State::Start, None)),
                None => settled(None),
            },
            None => settled(Some(LogEntry::Unhandled)),
        },
        Progress::Handling(command, state) => match &event.message {
            Some(msg) => settle_step(command, handle(command, msg, me, state, failure)),
            None => settled(None),
        },
        Progress::Settled => settled(None),
    }
}

/// The turns that the dispatcher makes for `event` from `progress` on,
/// when the call before them ended with `failure` and the calls of the
/// turns from number `k` on end as `script` says. The last turn is the one
/// that rests.
pub open spec fn turns_from(
    event: Option<MessageView>,
    me: Seq<char>,
    progress: Progress,
    failure: Option<ApiError>,
    script: Script,
    k: nat,
) -> Seq<TurnView>
    decreases progress.turns_left(),
{
    let turn = next_turn(event, me, progress, failure);
    if turn.effect is Rest {
        seq![turn]
    } else {
        seq![turn] + turns_from(event, me, turn.progress, script(k), script, k + 1)
    }
}

/// All the turns of the dispatcher for `event`, from its arrival to the
/// turn that rests.
pub open spec fn turns(event: Option<MessageView>, me: Seq<char>, script: Script) -> Seq<
    TurnView,
> {
    turns_from(event, me, Progress::Received, None, script, 0)
}

/// The calls among `turns`, in the order in which they are asked for.
pub open spec fn effects(turns: Seq<TurnView>) -> Seq<EffectView> {
    turns.map_values(|turn: TurnView| turn.effect).filter(|effect: EffectView| !(effect is Rest))
}

/// The calls that `event` is owed: none where no command is called, else
/// those of the command's handler.
pub open spec fn expected_calls(event: Option<MessageView>, me: Seq<char>) -> Seq<EffectView> {
    match route_of(event, me) {
        None => Seq::empty(),
        Some(Command::Offtop) => {
            let msg = event->0;
            if msg.reply_target is None {
                seq![EffectView::Send(offtop::plain_notice(msg, offtop::TEXT_NON_REPLY@))]
            } else if offtop::targets_bot(msg, me) {
                seq![EffectView::Send(offtop::plain_notice(msg, offtop::TEXT_FAIL@))]
            } else {
                seq![
                    EffectView::Delete(offtop::delete_trigger(msg)),
                    EffectView::Delete(offtop::delete_target(msg)),
                    EffectView::Send(offtop::redirect(msg)),
                ]
            }
        },
    }
}

/// What the last turn for `event` writes to the log: that no handler took
/// the event, or the failure of the handler's last call, or nothing.
pub open spec fn verdict(event: Option<MessageView>, me: Seq<char>, script: Script) -> Option<
    LogEntry,
> {
    match route_of(event, me) {
        None => Some(LogEntry::Unhandled),
        Some(_) => match script((expected_calls(event, me).len() - 1) as nat) {
            Some(error) => Some(LogEntry::HandlerFailed(error)),
            None => None,
        },
    }
}

/// The turns for each event of a batch, where `scripts[i]` says how the
/// calls for `events[i]` end.
pub open spec fn serve(events: Seq<Option<MessageView>>, me: Seq<char>, scripts: Seq<Script>) -> Seq<
    Seq<TurnView>,
> {
    Seq::new(events.len(), |i: int| turns(events[i], me, scripts[i]))
}

/// Every event is served to the end, however its calls end: the
/// dispatcher asks for exactly the calls that the event is owed, then
/// settles the event and rests. A handler's failure shows in the log entry
/// of that last turn and in nothing else.
pub proof fn law_event_served(event: Option<MessageView>, me: Seq<char>, script: Script)
    ensures
        effects(turns(event, me, script)) == expected_calls(event, me),
        turns(event, me, script).last().progress == Progress::Settled,
        turns(event, me, script).last().effect is Rest,
        turns(event, me, script).last().log == verdict(event, me, script),
{
    match route_of(event, me) {
        None => {
            let only = next_turn(event, me, Progress::Received, None);
            assert(turns(event, me, script) == seq![only]);
            let mapped = seq![only].map_values(|turn: TurnView| turn.effect);
            assert(mapped == seq![only.effect]);
            reveal_with_fuel(Seq::filter, 2);
            assert(mapped.drop_last() == Seq::<EffectView>::empty());
            assert(effects(seq![only]) == Seq::<EffectView>::empty());
        },
        Some(command) => {
            let msg = event->0;
            lemma_turns_follow_moves(event, me, script);
            offtop::law_course(msg, me, script);
            let steps = offtop::course(msg, me, script);
            let all = turns(event, me, script);
            if msg.reply_target is None || offtop::targets_bot(msg, me) {
                assert(all == seq![settle(command, steps[0]), settle(command, steps[1])]);
                lemma_effects_of_two(all[0], all[1]);
                assert(all == seq![all[0], all[1]]);
            } else {
                assert(all == seq![
                    settle(command, steps[0]),
                    settle(command, steps[1]),
                    settle(command, steps[2]),
                    settle(command, steps[3]),
                ]);
                lemma_effects_of_four(all[0], all[1], all[2], all[3]);
                assert(all == seq![all[0], all[1], all[2], all[3]]);
            }
        },
    }
}

/// An event whose message answers nothing, or answers a message that has
/// a sender, can be served turn by turn to the end: the dispatcher never
/// comes to stand where it does not admit the event.
pub proof fn law_progress_admits(event: Option<MessageView>, me: Seq<char>, script: Script)
    requires
        event matches Some(msg) ==> (msg.reply_target is Some ==> msg.reply_target->0.sender
            is Some),
    ensures
        Progress::Received.admits(event),
        forall|i: int|
            0 <= i < turns(event, me, script).len() ==> (#[trigger] turns(
                event,
                me,
                script,
            )[i]).progress.admits(event),
{
    match route_of(event, me) {
        None => {
            let only = next_turn(event, me, Progress::Received, None);
            assert(turns(event, me, script) == seq![only]);
        },
        Some(command) => {
            let msg = event->0;
            lemma_turns_follow_moves(event, me, script);
            offtop::law_states_admit(msg, me, script);
            offtop::law_course(msg, me, script);
        },
    }
}

/// One event cannot reach another. Take a batch and two ways in which its
/// calls may end that differ for event `k` alone, so that the handler of
/// event `k` may fail in one and not in the other. Every event of the batch
/// is served in both, each gets exactly the calls that it is owed, and
/// every event but `k` sees the same turns, log entries included.
pub proof fn law_isolation(
    events: Seq<Option<MessageView>>,
    me: Seq<char>,
    scripts: Seq<Script>,
    other: Seq<Script>,
    k: int,
)
    requires
        scripts.len() == events.len(),
        other.len() == events.len(),
        0 <= k < events.len(),
        forall|j: int| 0 <= j < events.len() && j != k ==> other[j] == scripts[j],
    ensures
        serve(events, me, scripts).len() == events.len(),
        serve(events, me, other).len() == events.len(),
        forall|j: int|
            0 <= j < events.len() ==> effects(#[trigger] serve(events, me, scripts)[j])
                == expected_calls(events[j], me),
        forall|j: int|
            0 <= j < events.len() ==> effects(#[trigger] serve(events, me, other)[j])
                == expected_calls(events[j], me),
        forall|j: int|
            0 <= j < events.len() && j != k ==> #[trigger] serve(events, me, other)[j] == serve(
                events,
                me,
                scripts,
            )[j],
        serve(events, me, other)[k].last().log == verdict(events[k], me, other[k]),
        serve(events, me, other)[k].last().progress == Progress::Settled,
{
    assert forall|j: int| 0 <= j < events.len() implies effects(
        #[trigger] serve(events, me, scripts)[j],
    ) == expected_calls(events[j], me) by {
        law_event_served(events[j], me, scripts[j]);
    }
    assert forall|j: int| 0 <= j < events.len() implies effects(
        #[trigger] serve(events, me, other)[j],
    ) == expected_calls(events[j], me) by {
        law_event_served(events[j], me, other[j]);
    }
    law_event_served(events[k], me, other[k]);
}

proof fn lemma_turns_follow_steps(
    event: Option<MessageView>,
    me: Seq<char>,
    command: Command,
    state: State,
    failure: Option<ApiError>,
    script: Script,
    k: nat,
)
    requires
        event is Some,
    ensures
        turns_from(event, me, Progress::Handling(command, state), failure, script, k)
            == offtop::moves_from(event->0, me, state, failure, script, k).map_values(
            |step: StepView| settle(command, step),
        ),
    decreases state.moves_left(),
{
    let msg = event->0;
    let step = offtop::next_step(msg, me, state, failure);
    let by_settle = |step: StepView| settle(command, step);
    if step.action is Finish {
        assert(seq![step].map_values(by_settle) == seq![settle(command, step)]);
    } else {
        lemma_turns_follow_steps(event, me, command, step.state, script(k), script, k + 1);
        let rest = offtop::moves_from(msg, me, step.state, script(k), script, k + 1);
        assert((seq![step] + rest).map_values(by_settle) == seq![settle(command, step)]
            + rest.map_values(by_settle));
    }
}

proof fn lemma_turns_follow_moves(event: Option<MessageView>, me: Seq<char>, script: Script)
    requires
        route_of(event, me) is Some,
    ensures
        turns(event, me, script) == offtop::moves(event->0, me, script).map_values(
            |step: StepView| settle(route_of(event, me)->0, step),
        ),
{
    let command = route_of(event, me)->0;
    let msg = event->0;
    let step = offtop::next_step(msg, me, State::Start, None);
    let by_settle = |step: StepView| settle(command, step);
    lemma_turns_follow_steps(event, me, command, step.state, script(0), script, 1);
    let rest = offtop::moves_from(msg, me, step.state, script(0), script, 1);
    assert((seq![step] + rest).map_values(by_settle) == seq![settle(command, step)]
        + rest.map_values(by_settle));
}

proof fn lemma_effects_of_two(first: TurnView, last: TurnView)
    requires
        !(first.effect is Rest),
        last.effect is Rest,
    ensures
        effects(seq![first, last]) == seq![first.effect],
{
    let mapped = seq![first, last].map_values(|turn: TurnView| turn.effect);
    let keep = |effect: EffectView| !(effect is Rest);
    assert(mapped == seq![first.effect, last.effect]);
    reveal_with_fuel(Seq::filter, 3);
    assert(mapped.drop_last() == seq![first.effect]);
    assert(mapped.drop_last().drop_last() == Seq::<EffectView>::empty());
    assert(mapped.filter(keep) == seq![first.effect]);
}

proof fn lemma_effects_of_four(first: TurnView, second: TurnView, third: TurnView, last: TurnView)
    requires
        !(first.effect is Rest),
        !(second.effect is Rest),
        !(third.effect is Rest),
        last.effect is Rest,
    ensures
        effects(seq![first, second, third, last]) == seq![
            first.effect,
            second.effect,
            third.effect,
        ],
{
    let mapped = seq![first, second, third, last].map_values(|turn: TurnView| turn.effect);
    let keep = |effect: EffectView| !(effect is Rest);
    assert(mapped == seq![first.effect, second.effect, third.effect, last.effect]);
    reveal_with_fuel(Seq::filter, 5);
    assert(mapped.drop_last() == seq![first.effect, second.effect, third.effect]);
    assert(mapped.drop_last().drop_last() == seq![first.effect, second.effect]);
    assert(mapped.drop_last().drop_last().drop_last() == seq![first.effect]);
    assert(mapped.drop_last().drop_last().drop_last().drop_last() == Seq::<EffectView>::empty());
    assert(mapped.filter(keep) == seq![first.effect, second.effect, third.effect]);
}

} // verus!
