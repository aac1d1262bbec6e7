use crate::services::event_service::{Event, EventView};
use vstd::prelude::*;
use vstd::string::StringExecFns;

verus! {

/// The model every request names.
pub const MODEL: &'static str = "gpt-4o";

/// The most tokens a reply may have.
pub const MAX_TOKENS: u16 = 512;

pub const GENERAL_TEMPLATE: &'static str =
    "You are a general purpose programmer. The user that will chat with you appreciates short answers when possible. If you want to share commands, there is not reason to explain what all the commands does in detail, a short sentence maximum. The user will most likely send you questions about his terminal output. When answering, be consice!!\n\n                If you're asked what IP a demo device has, respond with 10.82.189.130.";

pub const NETWORK_TEMPLATE: &'static str =
    "You are an advanced network assistant. Your role is to assist users in resolving their network challenges, improving their config, and understanding networking concepts. Follow these guidelines: - Analyze the config provided by the user for errors, inefficiencies, or areas that require explanation. - If in doubt of which operating system, ask (e.g. Cisco IOS XE or IOS XR) - Offer solutions, optimizations, or explanations that are directly relevant to the user's request. -Ensure that your responses are in the same operating system language that the user is using. - Provide clear, step-by-step guidance when explaining solutions or concepts. - Encourage best practices in networking, such as clean code principles, commenting, and efficient algorithms. - Structure your response and questions using markdown headers to organize different aspects of coding assistance. For example: ### <your text> <feedback> - Always respond in the same language as the user writes to you in (If the user writes in Norwegian, respond in Norwegian). Remember to adapt your guidance to the user's level of expertise, from beginner to advanced.";

pub const LINUX_TEMPLATE: &'static str =
    "You are a Linux Security Expert. The user that will chat with you appreciates short answers when possible. If you want to share commands, there is not reason to explain what all the commands does in detail, a short sentence maximum. The user will most likely send you questions about his terminal output. When answering, be consice!!";

pub const NETWORK_GREETING: &'static str =
    "Hi! I'm your personal Network assistant. I'm can see your terminal, so feel free to ask questions!";

pub const LINUX_GREETING: &'static str =
    "Hi! I'm your personal Linux assistant. I'm can see your terminal, so feel free to ask questions!";

pub const NETWORK_LABEL: &'static str = "Network Engineer";

pub const LINUX_LABEL: &'static str = "Linux Engineer";

/// A fixed set of instructions that defines how the assistant behaves.
#[derive(Clone, Copy, Debug, PartialEq, Eq, Structural)]
pub enum Persona {
    /// The persona of a fresh conversation.
    General,
    NetworkEngineer,
    LinuxEngineer,
}

impl Persona {
    /// The system instructions of this persona.
    pub open spec fn template_text(self) -> Seq<char> {
        match self {
            Persona::General => GENERAL_TEMPLATE@,
            Persona::NetworkEngineer => NETWORK_TEMPLATE@,
            Persona::LinuxEngineer => LINUX_TEMPLATE@,
        }
    }

    /// What the assistant says when this persona is chosen, if anything.
    pub open spec fn greeting_text(self) -> Option<Seq<char>> {
        match self {
            Persona::General => None,
            Persona::NetworkEngineer => Some(NETWORK_GREETING@),
            Persona::LinuxEngineer => Some(LINUX_GREETING@),
        }
    }

    /// The name shown beside the assistant's replies; empty for the general
    /// persona.
    pub open spec fn label_text(self) -> Seq<char> {
        match self {
            Persona::General => Seq::<char>::empty(),
            Persona::NetworkEngineer => NETWORK_LABEL@,
            Persona::LinuxEngineer => LINUX_LABEL@,
        }
    }

    pub fn template(self) -> (r: String)
        ensures
            r@ == self.template_text(),
    {
        match self {
            Persona::General => GENERAL_TEMPLATE.to_owned(),
            Persona::NetworkEngineer => NETWORK_TEMPLATE.to_owned(),
            Persona::LinuxEngineer => LINUX_TEMPLATE.to_owned(),
        }
    }

    pub fn greeting(self) -> (r: Option<String>)
        ensures
            r.is_some() <==> self.greeting_text().is_some(),
            r.is_some() ==> r.unwrap()@ == self.greeting_text().unwrap(),
    {
        match self {
            Persona::General => None,
            Persona::NetworkEngineer => Some(NETWORK_GREETING.to_owned()),
            Persona::LinuxEngineer => Some(LINUX_GREETING.to_owned()),
        }
    }

    pub fn label(self) -> (r: String)
        ensures
            r@ == self.label_text(),
    {
        match self {
            Persona::General => String::new(),
            Persona::NetworkEngineer => NETWORK_LABEL.to_owned(),
            Persona::LinuxEngineer => LINUX_LABEL.to_owned(),
        }
    }
}

/// What the application state machine asks of the conversation session.
#[derive(Clone, Debug, PartialEq, Eq)]
pub enum Action {
    SendMessage(String),
    ClearHistory,
    SwitchPersona(Persona),
}

pub enum ActionView {
    SendMessage(Seq<char>),
    ClearHistory,
    SwitchPersona(Persona),
}

impl View for Action {
    type V = ActionView;

    open spec fn view(&self) -> ActionView {
        match self {
            Action::SendMessage(text) => ActionView::SendMessage(text@),
            Action::ClearHistory => ActionView::ClearHistory,
            Action::SwitchPersona(persona) => ActionView::SwitchPersona(*persona),
        }
    }
}

/// Who speaks in a turn of the dialogue.
#[derive(Clone, Copy, Debug, PartialEq, Eq, Structural)]
pub enum Role {
    System,
    User,
    Assistant,
}

/// One turn of the dialogue.
#[derive(Clone, Debug, PartialEq, Eq)]
pub struct Turn {
    pub role: Role,
    pub content: String,
}

pub struct TurnView {
    pub role: Role,
    pub content: Seq<char>,
}

impl View for Turn {
    type V = TurnView;

    open spec fn view(&self) -> TurnView {
        TurnView { role: self.role, content: self.content@ }
    }
}

/// The views of a sequence of turns.
pub open spec fn turn_views(turns: Seq<Turn>) -> Seq<TurnView> {
    turns.map_values(|turn: Turn| turn@)
}

/// The views of a sequence of events.
pub open spec fn event_views(events: Seq<Event>) -> Seq<EventView> {
    events.map_values(|event: Event| event@)
}

/// What is sent to the language-model backend: the whole dialogue so far.
#[derive(Clone, Debug, PartialEq, Eq)]
pub struct ChatRequest {
    pub model: String,
    pub max_tokens: u16,
    pub messages: Vec<Turn>,
}

pub struct ChatRequestView {
    pub model: Seq<char>,
    pub max_tokens: u16,
    pub messages: Seq<TurnView>,
}

impl View for ChatRequest {
    type V = ChatRequestView;

    open spec fn view(&self) -> ChatRequestView {
        ChatRequestView {
            model: self.model@,
            max_tokens: self.max_tokens,
            messages: turn_views(self.messages@),
        }
    }
}

/// One alternative of one increment of a streamed reply.
#[derive(Clone, Debug, PartialEq, Eq)]
pub struct ChoiceDelta {
    /// The text this increment adds, if it carries any.
    pub content: Option<String>,
    /// Whether the backend marked the reply as complete.
    pub finished: bool,
}

pub struct ChoiceDeltaView {
    pub content: Option<Seq<char>>,
    pub finished: bool,
}

impl View for ChoiceDelta {
    type V = ChoiceDeltaView;

    open spec fn view(&self) -> ChoiceDeltaView {
        ChoiceDeltaView {
            content: match self.content {
                Some(text) => Some(text@),
                None => None,
            },
            finished: self.finished,
        }
    }
}

pub open spec fn choice_views(choices: Seq<ChoiceDelta>) -> Seq<ChoiceDeltaView> {
    choices.map_values(|choice: ChoiceDelta| choice@)
}

/// What the stream of a request in flight yields.
#[derive(Clone, Debug, PartialEq, Eq)]
pub enum StreamSignal {
    /// One increment, with its alternatives in order.
    Chunk(Vec<ChoiceDelta>),
    /// The stream is exhausted.
    End,
    /// Transport, stream or decoding failed.
    Failure,
}

pub enum StreamSignalView {
    Chunk(Seq<ChoiceDeltaView>),
    End,
    Failure,
}

impl View for StreamSignal {
    type V = StreamSignalView;

    open spec fn view(&self) -> StreamSignalView {
        match self {
            StreamSignal::Chunk(choices) => StreamSignalView::Chunk(choice_views(choices@)),
            StreamSignal::End => StreamSignalView::End,
            StreamSignal::Failure => StreamSignalView::Failure,
        }
    }
}

/// The conversation session as a value: the system turn, the turns after
/// it, and the text gathered so far for a request in flight.
pub struct ChatView {
    pub system: Seq<char>,
    pub turns: Seq<TurnView>,
    pub pending: Option<Seq<char>>,
}

/// What a step of the session hands back.
pub struct StepView {
    pub state: ChatView,
    pub events: Seq<EventView>,
    pub request: Option<ChatRequestView>,
}

impl ChatView {
    /// The conversation history: the system turn, then all later turns.
    pub open spec fn history(self) -> Seq<TurnView> {
        seq![TurnView { role: Role::System, content: self.system }] + self.turns
    }

    /// A fresh session: the general persona, no turns, nothing in flight.
    pub open spec fn initial() -> ChatView {
        ChatView {
            system: Persona::General.template_text(),
            turns: Seq::empty(),
            pending: None,
        }
    }

    /// The session once the request in flight, if any, is over: the text
    /// gathered for it becomes one assistant turn, unless there is none.
    pub open spec fn settled(self) -> ChatView {
        match self.pending {
            None => self,
            Some(text) => ChatView {
                system: self.system,
                turns: if text.len() > 0 {
                    self.turns.push(TurnView { role: Role::Assistant, content: text })
                } else {
                    self.turns
                },
                pending: None,
            },
        }
    }

    /// The request that carries the whole history.
    pub open spec fn request(self) -> ChatRequestView {
        ChatRequestView { model: MODEL@, max_tokens: MAX_TOKENS, messages: self.history() }
    }

    /// The step an action causes. A request still in flight is settled
    /// first.
    pub open spec fn on_action(self, action: ActionView) -> StepView {
        let base = self.settled();
        match action {
            ActionView::SendMessage(text) => {
                let state = ChatView {
                    system: base.system,
                    turns: base.turns.push(TurnView { role: Role::User, content: text }),
                    pending: Some(Seq::empty()),
                };
                StepView {
                    state,
                    events: seq![EventView::ConversationFinished(false)],
                    request: Some(state.request()),
                }
            },
            ActionView::ClearHistory => StepView {
                state: ChatView { system: base.system, turns: Seq::empty(), pending: None },
                events: Seq::empty(),
                request: None,
            },
            ActionView::SwitchPersona(persona) => StepView {
                state: ChatView {
                    system: persona.template_text(),
                    turns: Seq::empty(),
                    pending: None,
                },
                events: match persona.greeting_text() {
                    Some(text) => seq![EventView::ConversationToken(text)],
                    None => Seq::empty(),
                },
                request: None,
            },
        }
    }

    /// The step one alternative of an increment causes: its text, if any,
    /// is gathered and passed on; its finish marker ends the request. With
    /// nothing in flight it is ignored.
    pub open spec fn on_choice(self, choice: ChoiceDeltaView) -> StepView {
        match self.pending {
            None => StepView { state: self, events: Seq::empty(), request: None },
            Some(text) => {
                let gathered = ChatView {
                    system: self.system,
                    turns: self.turns,
                    pending: Some(
                        match choice.content {
                            Some(more) => text + more,
                            None => text,
                        },
                    ),
                };
                let tokens = match choice.content {
                    Some(more) => seq![EventView::ConversationToken(more)],
                    None => Seq::empty(),
                };
                if choice.finished {
                    StepView {
                        state: gathered.settled(),
                        events: tokens.push(EventView::ConversationFinished(true)),
                        request: None,
                    }
                } else {
                    StepView { state: gathered, events: tokens, request: None }
                }
            },
        }
    }

    /// The step the alternatives of one increment cause, taken in order.
    pub open spec fn on_choices(self, choices: Seq<ChoiceDeltaView>) -> StepView
        decreases choices.len(),
    {
        if choices.len() == 0 {
            StepView { state: self, events: Seq::empty(), request: None }
        } else {
            let before = self.on_choices(choices.drop_last());
            let last = before.state.on_choice(choices.last());
            StepView { state: last.state, events: before.events + last.events, request: None }
        }
    }

    /// The step a signal of the stream causes. The end of the stream
    /// completes the request; a failure abandons it without a word.
    pub open spec fn on_signal(self, signal: StreamSignalView) -> StepView {
        match signal {
            StreamSignalView::Chunk(choices) => self.on_choices(choices),
            StreamSignalView::End => match self.pending {
                None => StepView { state: self, events: Seq::empty(), request: None },
                Some(_) => StepView {
                    state: self.settled(),
                    events: seq![EventView::ConversationFinished(true)],
                    request: None,
                },
            },
            StreamSignalView::Failure => StepView {
                state: self.settled(),
                events: Seq::empty(),
                request: None,
            },
        }
    }

    /// The step a run of signals causes, taken in order.
    pub open spec fn on_signals(self, signals: Seq<StreamSignalView>) -> StepView
        decreases signals.len(),
    {
        if signals.len() == 0 {
            StepView { state: self, events: Seq::empty(), request: None }
        } else {
            let before = self.on_signals(signals.drop_last());
            let last = before.state.on_signal(signals.last());
            StepView { state: last.state, events: before.events + last.events, request: None }
        }
    }

    /// Whether this is where a request stands that was issued with `turns`
    /// in the history and has so far streamed the text `said`: either it is
    /// still in flight and has gathered `said`, or it is over and `said`
    /// has joined the history.
    pub open spec fn follows(self, system: Seq<char>, turns: Seq<TurnView>, said: Seq<char>) -> bool {
        &&& self.system == system
        &&& match self.pending {
            Some(text) => text == said && self.turns == turns,
            None => self.turns == turns + reply_turns(said),
        }
    }
}

/// The turns a reply with the given text adds to the history: one
/// assistant turn, or none if the text is empty.
pub open spec fn reply_turns(text: Seq<char>) -> Seq<TurnView> {
    if text.len() > 0 {
        seq![TurnView { role: Role::Assistant, content: text }]
    } else {
        Seq::empty()
    }
}

/// The text an event passes on as a fragment of a reply.
pub open spec fn fragment_of(event: EventView) -> Seq<char> {
    match event {
        EventView::ConversationToken(text) => text,
        _ => Seq::empty(),
    }
}

/// The fragments among `events`, concatenated in order.
pub open spec fn token_text(events: Seq<EventView>) -> Seq<char>
    decreases events.len(),
{
    if events.len() == 0 {
        Seq::empty()
    } else {
        token_text(events.drop_last()) + fragment_of(events.last())
    }
}

/// The fragments of two runs of events are those of the first, then those
/// of the second.
pub proof fn lemma_token_text_concat(a: Seq<EventView>, b: Seq<EventView>)
    ensures
        token_text(a + b) == token_text(a) + token_text(b),
    decreases b.len(),
{
    if b.len() == 0 {
        assert(a + b =~= a);
        assert(token_text(a) + token_text(b) =~= token_text(a));
    } else {
        assert((a + b).drop_last() =~= a + b.drop_last());
        assert((a + b).last() == b.last());
        lemma_token_text_concat(a, b.drop_last());
        assert(token_text(a + b) =~= token_text(a) + token_text(b));
    }
}

/// The fragments of no event, and of one event.
proof fn lemma_token_text_small(event: EventView)
    ensures
        token_text(Seq::empty()) == Seq::<char>::empty(),
        token_text(seq![event]) == fragment_of(event),
{
    assert(token_text(Seq::empty()) =~= Seq::<char>::empty());
    assert(seq![event].drop_last() =~= Seq::<EventView>::empty());
    assert(seq![event].last() == event);
    assert(token_text(seq![event]) =~= fragment_of(event));
}

proof fn lemma_choice_follows(
    state: ChatView,
    choice: ChoiceDeltaView,
    system: Seq<char>,
    turns: Seq<TurnView>,
    said: Seq<char>,
)
    requires
        state.follows(system, turns, said),
    ensures
        state.on_choice(choice).state.follows(
            system,
            turns,
            said + token_text(state.on_choice(choice).events),
        ),
{
    let step = state.on_choice(choice);
    let finish = EventView::ConversationFinished(true);
    lemma_token_text_small(finish);
    match state.pending {
        None => {
            assert(step.events =~= Seq::<EventView>::empty());
            assert(said + token_text(step.events) =~= said);
        },
        Some(text) => {
            let more = match choice.content {
                Some(more) => more,
                None => Seq::empty(),
            };
            let tokens = match choice.content {
                Some(more) => seq![EventView::ConversationToken(more)],
                None => Seq::empty(),
            };
            assert(token_text(tokens) == more) by {
                if choice.content.is_some() {
                    lemma_token_text_small(EventView::ConversationToken(more));
                }
            }
            let gathered = match choice.content {
                Some(more) => text + more,
                None => text,
            };
            assert(gathered =~= said + more);
            if choice.finished {
                assert(step.events =~= tokens + seq![finish]);
                lemma_token_text_concat(tokens, seq![finish]);
                assert(token_text(step.events) =~= more);
                assert(said + token_text(step.events) =~= gathered);
                if gathered.len() > 0 {
                    assert(turns.push(TurnView { role: Role::Assistant, content: gathered })
                        =~= turns + reply_turns(gathered));
                } else {
                    assert(turns =~= turns + reply_turns(gathered));
                }
            } else {
                assert(step.events == tokens);
                assert(said + token_text(step.events) =~= gathered);
            }
        },
    }
}

proof fn lemma_choices_follow(
    state: ChatView,
    choices: Seq<ChoiceDeltaView>,
    system: Seq<char>,
    turns: Seq<TurnView>,
    said: Seq<char>,
)
    requires
        state.follows(system, turns, said),
    ensures
        state.on_choices(choices).state.follows(
            system,
            turns,
            said + token_text(state.on_choices(choices).events),
        ),
    decreases choices.len(),
{
    if choices.len() == 0 {
        assert(said + token_text(state.on_choices(choices).events) =~= said);
    } else {
        let before = state.on_choices(choices.drop_last());
        lemma_choices_follow(state, choices.drop_last(), system, turns, said);
        let middle = said + token_text(before.events);
        let last = before.state.on_choice(choices.last());
        lemma_choice_follows(before.state, choices.last(), system, turns, middle);
        lemma_token_text_concat(before.events, last.events);
        assert(middle + token_text(last.events) =~= said + token_text(before.events + last.events));
    }
}

proof fn lemma_settled_follows(
    state: ChatView,
    system: Seq<char>,
    turns: Seq<TurnView>,
    said: Seq<char>,
)
    requires
        state.follows(system, turns, said),
    ensures
        state.settled().follows(system, turns, said),
{
    if state.pending.is_some() {
        if said.len() > 0 {
            assert(turns.push(TurnView { role: Role::Assistant, content: said }) =~= turns
                + reply_turns(said));
        } else {
            assert(turns =~= turns + reply_turns(said));
        }
    }
}

proof fn lemma_signal_follows(
    state: ChatView,
    signal: StreamSignalView,
    system: Seq<char>,
    turns: Seq<TurnView>,
    said: Seq<char>,
)
    requires
        state.follows(system, turns, said),
    ensures
        state.on_signal(signal).state.follows(
            system,
            turns,
            said + token_text(state.on_signal(signal).events),
        ),
{
    let step = state.on_signal(signal);
    let finish = EventView::ConversationFinished(true);
    lemma_token_text_small(finish);
    lemma_settled_follows(state, system, turns, said);
    match signal {
        StreamSignalView::Chunk(choices) => {
            lemma_choices_follow(state, choices, system, turns, said);
        },
        StreamSignalView::End => {
            if state.pending.is_some() {
                assert(step.events =~= seq![finish]);
            } else {
                assert(step.events =~= Seq::<EventView>::empty());
            }
            assert(said + token_text(step.events) =~= said);
        },
        StreamSignalView::Failure => {
            assert(step.events =~= Seq::<EventView>::empty());
            assert(said + token_text(step.events) =~= said);
        },
    }
}

proof fn lemma_signals_follow(
    state: ChatView,
    signals: Seq<StreamSignalView>,
    system: Seq<char>,
    turns: Seq<TurnView>,
    said: Seq<char>,
)
    requires
        state.follows(system, turns, said),
    ensures
        state.on_signals(signals).state.follows(
            system,
            turns,
            said + token_text(state.on_signals(signals).events),
        ),
    decreases signals.len(),
{
    if signals.len() == 0 {
        assert(said + token_text(state.on_signals(signals).events) =~= said);
    } else {
        let before = state.on_signals(signals.drop_last());
        lemma_signals_follow(state, signals.drop_last(), system, turns, said);
        let middle = said + token_text(before.events);
        let last = before.state.on_signal(signals.last());
        lemma_signal_follows(before.state, signals.last(), system, turns, middle);
        lemma_token_text_concat(before.events, last.events);
        assert(middle + token_text(last.events) =~= said + token_text(before.events + last.events));
    }
}

/// Whether a run of events says that a reply is complete.
pub open spec fn says_complete(events: Seq<EventView>) -> bool {
    events.contains(EventView::ConversationFinished(true))
}

proof fn lemma_says_complete_concat(a: Seq<EventView>, b: Seq<EventView>)
    ensures
        says_complete(a + b) <==> says_complete(a) || says_complete(b),
{
    let finish = EventView::ConversationFinished(true);
    if says_complete(a + b) {
        let i = choose|i: int| 0 <= i < (a + b).len() && (a + b)[i] == finish;
        if i < a.len() {
            assert(a[i] == finish);
        } else {
            assert(b[i - a.len()] == finish);
        }
    }
    if says_complete(a) {
        let i = choose|i: int| 0 <= i < a.len() && a[i] == finish;
        assert((a + b)[i] == finish);
    }
    if says_complete(b) {
        let i = choose|i: int| 0 <= i < b.len() && b[i] == finish;
        assert((a + b)[i + a.len()] == finish);
    }
}

proof fn lemma_choice_ends(state: ChatView, choice: ChoiceDeltaView)
    ensures
        says_complete(state.on_choice(choice).events) ==> state.on_choice(
            choice,
        ).state.pending.is_none(),
        state.pending.is_none() ==> state.on_choice(choice).state.pending.is_none(),
{
    let step = state.on_choice(choice);
    let finish = EventView::ConversationFinished(true);
    if says_complete(step.events) && !choice.finished {
        let i = choose|i: int| 0 <= i < step.events.len() && step.events[i] == finish;
        assert(step.events[i] != finish);
    }
}

proof fn lemma_choices_end(state: ChatView, choices: Seq<ChoiceDeltaView>)
    ensures
        says_complete(state.on_choices(choices).events) ==> state.on_choices(
            choices,
        ).state.pending.is_none(),
        state.pending.is_none() ==> state.on_choices(choices).state.pending.is_none(),
    decreases choices.len(),
{
    if choices.len() == 0 {
        assert(!says_complete(Seq::<EventView>::empty()));
    } else {
        let before = state.on_choices(choices.drop_last());
        let last = before.state.on_choice(choices.last());
        lemma_choices_end(state, choices.drop_last());
        lemma_choice_ends(before.state, choices.last());
        lemma_says_complete_concat(before.events, last.events);
    }
}

proof fn lemma_signal_ends(state: ChatView, signal: StreamSignalView)
    ensures
        says_complete(state.on_signal(signal).events) ==> state.on_signal(
            signal,
        ).state.pending.is_none(),
        state.pending.is_none() ==> state.on_signal(signal).state.pending.is_none(),
{
    match signal {
        StreamSignalView::Chunk(choices) => {
            lemma_choices_end(state, choices);
        },
        _ => {},
    }
}

proof fn lemma_signals_end(state: ChatView, signals: Seq<StreamSignalView>)
    ensures
        says_complete(state.on_signals(signals).events) ==> state.on_signals(
            signals,
        ).state.pending.is_none(),
        state.pending.is_none() ==> state.on_signals(signals).state.pending.is_none(),
    decreases signals.len(),
{
    if signals.len() == 0 {
        assert(!says_complete(Seq::<EventView>::empty()));
    } else {
        let before = state.on_signals(signals.drop_last());
        let last = before.state.on_signal(signals.last());
        lemma_signals_end(state, signals.drop_last());
        lemma_signal_ends(before.state, signals.last());
        lemma_says_complete_concat(before.events, last.events);
    }
}

/// A message and its reply. Sending `text` adds one user turn to the
/// history. Whatever the stream then yields, once the request is over the
/// history has gained after that turn exactly one assistant turn, whose
/// content is the concatenation, in order, of all fragments passed on for
/// the request; or no turn, if no text was passed on. Until then the
/// fragments passed on are the text gathered so far. The request is over
/// once the event that says the reply is complete has been passed on.
pub proof fn lemma_message_and_reply(
    start: ChatView,
    text: Seq<char>,
    signals: Seq<StreamSignalView>,
)
    ensures
        ({
            let sent = start.on_action(ActionView::SendMessage(text)).state;
            let run = sent.on_signals(signals);
            let said = token_text(run.events);
            let asked = start.settled().history().push(
                TurnView { role: Role::User, content: text },
            );
            &&& sent.history() == asked
            &&& run.state.pending.is_none() ==> run.state.history() == asked + reply_turns(said)
            &&& run.state.pending.is_some() ==> run.state.pending == Some(said)
                && run.state.history() == asked
            &&& run.state.settled().history() == asked + reply_turns(said)
            &&& says_complete(run.events) ==> run.state.pending.is_none()
        }),
{
    lemma_signals_end(start.on_action(ActionView::SendMessage(text)).state, signals);
    let base = start.settled();
    let sent = start.on_action(ActionView::SendMessage(text)).state;
    let turns = base.turns.push(TurnView { role: Role::User, content: text });
    let run = sent.on_signals(signals);
    let said = token_text(run.events);
    let asked = base.history().push(TurnView { role: Role::User, content: text });
    assert(sent.follows(base.system, turns, Seq::empty()));
    lemma_signals_follow(sent, signals, base.system, turns, Seq::empty());
    assert(Seq::<char>::empty() + said =~= said);
    assert(run.state.follows(base.system, turns, said));
    assert(sent.history() =~= asked);
    let first = seq![TurnView { role: Role::System, content: base.system }];
    assert(first + turns =~= asked);
    assert(first + (turns + reply_turns(said)) =~= asked + reply_turns(said));
    lemma_settled_follows(run.state, base.system, turns, said);
}

/// The texts of the fragments among `events`, one by one, in order.
pub open spec fn token_list(events: Seq<EventView>) -> Seq<Seq<char>>
    decreases events.len(),
{
    if events.len() == 0 {
        Seq::empty()
    } else {
        match events.last() {
            EventView::ConversationToken(text) => token_list(events.drop_last()).push(text),
            _ => token_list(events.drop_last()),
        }
    }
}

/// What has been heard of a stream: the text deltas it has yielded, in
/// order, and whether it has not ended yet.
pub struct Heard {
    pub deltas: Seq<Seq<char>>,
    pub open: bool,
}

/// What is heard after one more alternative: its delta, if it has one,
/// and the end of the stream if it carries the finish marker. Nothing more
/// is heard of a stream that has ended.
pub open spec fn heard_choice(before: Heard, choice: ChoiceDeltaView) -> Heard {
    if before.open {
        Heard {
            deltas: match choice.content {
                Some(text) => before.deltas.push(text),
                None => before.deltas,
            },
            open: !choice.finished,
        }
    } else {
        before
    }
}

/// What is heard after the alternatives of one increment, in order.
pub open spec fn heard_choices(before: Heard, choices: Seq<ChoiceDeltaView>) -> Heard
    decreases choices.len(),
{
    if choices.len() == 0 {
        before
    } else {
        heard_choice(heard_choices(before, choices.drop_last()), choices.last())
    }
}

/// What is heard after one more signal: exhaustion and failure end the
/// stream.
pub open spec fn heard_signal(before: Heard, signal: StreamSignalView) -> Heard {
    match signal {
        StreamSignalView::Chunk(choices) => heard_choices(before, choices),
        _ => Heard { deltas: before.deltas, open: false },
    }
}

/// What is heard after a run of signals, in order.
pub open spec fn heard_from(before: Heard, signals: Seq<StreamSignalView>) -> Heard
    decreases signals.len(),
{
    if signals.len() == 0 {
        before
    } else {
        heard_signal(heard_from(before, signals.drop_last()), signals.last())
    }
}

/// What is heard of a stream from its start: its text deltas up to its
/// end, whichever way it ends.
pub open spec fn heard(signals: Seq<StreamSignalView>) -> Heard {
    heard_from(Heard { deltas: Seq::empty(), open: true }, signals)
}

/// The fragments of two runs of events, one by one, are those of the first,
/// then those of the second.
pub proof fn lemma_token_list_concat(a: Seq<EventView>, b: Seq<EventView>)
    ensures
        token_list(a + b) == token_list(a) + token_list(b),
    decreases b.len(),
{
    if b.len() == 0 {
        assert(a + b =~= a);
        assert(token_list(a) + token_list(b) =~= token_list(a));
    } else {
        assert((a + b).drop_last() =~= a + b.drop_last());
        assert((a + b).last() == b.last());
        lemma_token_list_concat(a, b.drop_last());
        assert(token_list(a + b) =~= token_list(a) + token_list(b));
    }
}

/// The concatenated fragments are the fragments, one by one, joined.
pub proof fn lemma_token_text_joins_the_list(events: Seq<EventView>)
    ensures
        token_text(events) == token_list(events).flatten(),
    decreases events.len(),
{
    if events.len() == 0 {
        assert(token_list(events).flatten() =~= Seq::<char>::empty());
    } else {
        lemma_token_text_joins_the_list(events.drop_last());
        let rest = token_list(events.drop_last());
        match events.last() {
            EventView::ConversationToken(text) => {
                rest.lemma_flatten_push(text);
            },
            _ => {
                assert(rest.flatten() + Seq::<char>::empty() =~= rest.flatten());
            },
        }
    }
}

proof fn lemma_token_list_small(event: EventView)
    ensures
        token_list(Seq::empty()) == Seq::<Seq<char>>::empty(),
        token_list(seq![event]) == (match event {
            EventView::ConversationToken(text) => seq![text],
            _ => Seq::empty(),
        }),
{
    assert(seq![event].drop_last() =~= Seq::<EventView>::empty());
    assert(seq![event].last() == event);
    assert(token_list(Seq::<EventView>::empty()) =~= Seq::<Seq<char>>::empty());
    match event {
        EventView::ConversationToken(text) => {
            assert(token_list(seq![event]) =~= seq![text]);
        },
        _ => {
            assert(token_list(seq![event]) =~= Seq::<Seq<char>>::empty());
        },
    }
}

proof fn lemma_choice_heard(state: ChatView, choice: ChoiceDeltaView, before: Heard)
    requires
        state.pending.is_some() == before.open,
    ensures
        state.on_choice(choice).state.pending.is_some() == heard_choice(before, choice).open,
        before.deltas + token_list(state.on_choice(choice).events) == heard_choice(
            before,
            choice,
        ).deltas,
{
    let step = state.on_choice(choice);
    let finish = EventView::ConversationFinished(true);
    lemma_token_list_small(finish);
    match state.pending {
        None => {
            assert(step.events =~= Seq::<EventView>::empty());
            assert(before.deltas + token_list(step.events) =~= before.deltas);
        },
        Some(text) => {
            let tokens = match choice.content {
                Some(more) => seq![EventView::ConversationToken(more)],
                None => Seq::empty(),
            };
            let said = match choice.content {
                Some(more) => seq![more],
                None => Seq::empty(),
            };
            assert(token_list(tokens) == said) by {
                match choice.content {
                    Some(more) => {
                        lemma_token_list_small(EventView::ConversationToken(more));
                    },
                    None => {},
                }
            }
            if choice.finished {
                assert(step.events =~= tokens + seq![finish]);
                lemma_token_list_concat(tokens, seq![finish]);
                assert(token_list(step.events) =~= said);
            } else {
                assert(step.events == tokens);
            }
            assert(before.deltas + said =~= heard_choice(before, choice).deltas);
        },
    }
}

proof fn lemma_choices_heard(state: ChatView, choices: Seq<ChoiceDeltaView>, before: Heard)
    requires
        state.pending.is_some() == before.open,
    ensures
        state.on_choices(choices).state.pending.is_some() == heard_choices(before, choices).open,
        before.deltas + token_list(state.on_choices(choices).events) == heard_choices(
            before,
            choices,
        ).deltas,
    decreases choices.len(),
{
    if choices.len() == 0 {
        lemma_token_list_small(EventView::Tick);
        assert(before.deltas + token_list(state.on_choices(choices).events) =~= before.deltas);
    } else {
        let earlier = state.on_choices(choices.drop_last());
        let so_far = heard_choices(before, choices.drop_last());
        lemma_choices_heard(state, choices.drop_last(), before);
        let last = earlier.state.on_choice(choices.last());
        lemma_choice_heard(earlier.state, choices.last(), so_far);
        lemma_token_list_concat(earlier.events, last.events);
        assert(before.deltas + token_list(earlier.events + last.events) =~= so_far.deltas
            + token_list(last.events));
    }
}

proof fn lemma_signal_heard(state: ChatView, signal: StreamSignalView, before: Heard)
    requires
        state.pending.is_some() == before.open,
    ensures
        state.on_signal(signal).state.pending.is_some() == heard_signal(before, signal).open,
        before.deltas + token_list(state.on_signal(signal).events) == heard_signal(
            before,
            signal,
        ).deltas,
{
    let step = state.on_signal(signal);
    let finish = EventView::ConversationFinished(true);
    lemma_token_list_small(finish);
    match signal {
        StreamSignalView::Chunk(choices) => {
            lemma_choices_heard(state, choices, before);
        },
        StreamSignalView::End => {
            if state.pending.is_some() {
                assert(step.events =~= seq![finish]);
            } else {
                assert(step.events =~= Seq::<EventView>::empty());
            }
            assert(before.deltas + token_list(step.events) =~= before.deltas);
        },
        StreamSignalView::Failure => {
            assert(step.events =~= Seq::<EventView>::empty());
            assert(before.deltas + token_list(step.events) =~= before.deltas);
        },
    }
}

proof fn lemma_signals_heard(state: ChatView, signals: Seq<StreamSignalView>, before: Heard)
    requires
        state.pending.is_some() == before.open,
    ensures
        state.on_signals(signals).state.pending.is_some() == heard_from(before, signals).open,
        before.deltas + token_list(state.on_signals(signals).events) == heard_from(
            before,
            signals,
        ).deltas,
    decreases signals.len(),
{
    if signals.len() == 0 {
        lemma_token_list_small(EventView::Tick);
        assert(before.deltas + token_list(state.on_signals(signals).events) =~= before.deltas);
    } else {
        let earlier = state.on_signals(signals.drop_last());
        let so_far = heard_from(before, signals.drop_last());
        lemma_signals_heard(state, signals.drop_last(), before);
        let last = earlier.state.on_signal(signals.last());
        lemma_signal_heard(earlier.state, signals.last(), so_far);
        lemma_token_list_concat(earlier.events, last.events);
        assert(before.deltas + token_list(earlier.events + last.events) =~= so_far.deltas
            + token_list(last.events));
    }
}

/// The fragments passed on are the stream's deltas. After `text` is sent,
/// whatever the stream yields, the fragments passed on for the request are
/// exactly the text deltas the stream yields up to its end, one for one
/// and in order; alternatives without a delta add nothing. The request is
/// in flight exactly as long as the stream has not ended, and once it has,
/// the history holds the user turn and after it one assistant turn whose
/// content is those deltas joined, or none if they join to nothing.
pub proof fn lemma_tokens_are_the_deltas(
    start: ChatView,
    text: Seq<char>,
    signals: Seq<StreamSignalView>,
)
    ensures
        ({
            let sent = start.on_action(ActionView::SendMessage(text)).state;
            let run = sent.on_signals(signals);
            let asked = start.settled().history().push(
                TurnView { role: Role::User, content: text },
            );
            &&& token_list(run.events) == heard(signals).deltas
            &&& token_text(run.events) == heard(signals).deltas.flatten()
            &&& run.state.pending.is_some() == heard(signals).open
            &&& !heard(signals).open ==> run.state.history() == asked + reply_turns(
                heard(signals).deltas.flatten(),
            )
        }),
{
    let sent = start.on_action(ActionView::SendMessage(text)).state;
    let run = sent.on_signals(signals);
    let fresh = Heard { deltas: Seq::empty(), open: true };
    lemma_signals_heard(sent, signals, fresh);
    assert(fresh.deltas + token_list(run.events) =~= token_list(run.events));
    lemma_token_text_joins_the_list(run.events);
    lemma_message_and_reply(start, text, signals);
}

/// Whether the event that says the reply is complete, if it is among
/// `events`, is the last of them and occurs once.
pub open spec fn completes_at_the_end(events: Seq<EventView>) -> bool {
    says_complete(events) ==> events.len() > 0 && events.last() == EventView::ConversationFinished(
        true,
    ) && !says_complete(events.drop_last())
}

/// Whether every one of `events` is a fragment of a reply or says that the
/// reply is complete.
pub open spec fn only_reply_events(events: Seq<EventView>) -> bool {
    forall|i: int|
        0 <= i < events.len() ==> (#[trigger] events[i] is ConversationToken || events[i]
            == EventView::ConversationFinished(true))
}

proof fn lemma_choice_completes_once(state: ChatView, choice: ChoiceDeltaView, prior: Seq<EventView>)
    requires
        state.pending.is_some() ==> !says_complete(prior),
        completes_at_the_end(prior),
        only_reply_events(prior),
    ensures
        state.on_choice(choice).state.pending.is_some() ==> !says_complete(
            prior + state.on_choice(choice).events,
        ),
        completes_at_the_end(prior + state.on_choice(choice).events),
        only_reply_events(prior + state.on_choice(choice).events),
{
    let step = state.on_choice(choice);
    let finish = EventView::ConversationFinished(true);
    let all = prior + step.events;
    match state.pending {
        None => {
            assert(step.events =~= Seq::<EventView>::empty());
            assert(all =~= prior);
        },
        Some(text) => {
            let tokens = match choice.content {
                Some(more) => seq![EventView::ConversationToken(more)],
                None => Seq::empty(),
            };
            assert(!says_complete(tokens)) by {
                if says_complete(tokens) {
                    let i = choose|i: int| 0 <= i < tokens.len() && tokens[i] == finish;
                    assert(tokens[i] != finish);
                }
            }
            lemma_says_complete_concat(prior, tokens);
            if choice.finished {
                assert(step.events =~= tokens.push(finish));
                assert(all.last() == finish);
                assert(all.drop_last() =~= prior + tokens);
                assert(all[all.len() - 1] == finish);
            } else {
                assert(step.events == tokens);
            }
            assert forall|i: int| 0 <= i < all.len() implies (#[trigger] all[i]
                is ConversationToken || all[i] == finish) by {
                if i < prior.len() {
                    assert(all[i] == prior[i]);
                } else {
                    assert(all[i] == step.events[i - prior.len()]);
                }
            }
        },
    }
}

proof fn lemma_choices_complete_once(
    state: ChatView,
    choices: Seq<ChoiceDeltaView>,
    prior: Seq<EventView>,
)
    requires
        state.pending.is_some() ==> !says_complete(prior),
        completes_at_the_end(prior),
        only_reply_events(prior),
    ensures
        state.on_choices(choices).state.pending.is_some() ==> !says_complete(
            prior + state.on_choices(choices).events,
        ),
        completes_at_the_end(prior + state.on_choices(choices).events),
        only_reply_events(prior + state.on_choices(choices).events),
    decreases choices.len(),
{
    if choices.len() == 0 {
        assert(prior + state.on_choices(choices).events =~= prior);
    } else {
        let earlier = state.on_choices(choices.drop_last());
        lemma_choices_complete_once(state, choices.drop_last(), prior);
        let last = earlier.state.on_choice(choices.last());
        lemma_choice_completes_once(earlier.state, choices.last(), prior + earlier.events);
        assert(prior + (earlier.events + last.events) =~= (prior + earlier.events) + last.events);
    }
}

proof fn lemma_signal_completes_once(
    state: ChatView,
    signal: StreamSignalView,
    prior: Seq<EventView>,
)
    requires
        state.pending.is_some() ==> !says_complete(prior),
        completes_at_the_end(prior),
        only_reply_events(prior),
    ensures
        state.on_signal(signal).state.pending.is_some() ==> !says_complete(
            prior + state.on_signal(signal).events,
        ),
        completes_at_the_end(prior + state.on_signal(signal).events),
        only_reply_events(prior + state.on_signal(signal).events),
{
    let step = state.on_signal(signal);
    let finish = EventView::ConversationFinished(true);
    let all = prior + step.events;
    match signal {
        StreamSignalView::Chunk(choices) => {
            lemma_choices_complete_once(state, choices, prior);
        },
        StreamSignalView::End => {
            if state.pending.is_some() {
                assert(step.events =~= seq![finish]);
                assert(all.last() == finish);
                assert(all.drop_last() =~= prior);
                assert forall|i: int| 0 <= i < all.len() implies (#[trigger] all[i]
                    is ConversationToken || all[i] == finish) by {
                    if i < prior.len() {
                        assert(all[i] == prior[i]);
                    }
                }
            } else {
                assert(all =~= prior);
            }
        },
        StreamSignalView::Failure => {
            assert(all =~= prior);
        },
    }
}

proof fn lemma_signals_complete_once(
    state: ChatView,
    signals: Seq<StreamSignalView>,
    prior: Seq<EventView>,
)
    requires
        state.pending.is_some() ==> !says_complete(prior),
        completes_at_the_end(prior),
        only_reply_events(prior),
    ensures
        state.on_signals(signals).state.pending.is_some() ==> !says_complete(
            prior + state.on_signals(signals).events,
        ),
        completes_at_the_end(prior + state.on_signals(signals).events),
        only_reply_events(prior + state.on_signals(signals).events),
    decreases signals.len(),
{
    if signals.len() == 0 {
        assert(prior + state.on_signals(signals).events =~= prior);
    } else {
        let earlier = state.on_signals(signals.drop_last());
        lemma_signals_complete_once(state, signals.drop_last(), prior);
        let last = earlier.state.on_signal(signals.last());
        lemma_signal_completes_once(earlier.state, signals.last(), prior + earlier.events);
        assert(prior + (earlier.events + last.events) =~= (prior + earlier.events) + last.events);
    }
}

/// One completing event for each request. Whatever the stream of a request
/// yields, the events passed on for it are fragments of the reply and, at
/// most once, the event that says the reply is complete; that event is the
/// last one, after every fragment.
pub proof fn lemma_one_completing_event(
    start: ChatView,
    text: Seq<char>,
    signals: Seq<StreamSignalView>,
)
    ensures
        ({
            let sent = start.on_action(ActionView::SendMessage(text)).state;
            let run = sent.on_signals(signals);
            &&& only_reply_events(run.events)
            &&& completes_at_the_end(run.events)
            &&& says_complete(run.events) ==> run.state.pending.is_none()
        }),
{
    let sent = start.on_action(ActionView::SendMessage(text)).state;
    let none = Seq::<EventView>::empty();
    lemma_signals_complete_once(sent, signals, none);
    assert(none + sent.on_signals(signals).events =~= sent.on_signals(signals).events);
}

/// Changing the persona leaves a history of length one, whose only turn is
/// the system turn with the persona's template, whatever the history was.
pub proof fn lemma_switch_persona_resets(start: ChatView, persona: Persona)
    ensures
        start.on_action(ActionView::SwitchPersona(persona)).state.history() == seq![
            TurnView { role: Role::System, content: persona.template_text() },
        ],
        start.on_action(ActionView::SwitchPersona(persona)).state.pending.is_none(),
{
    let after = start.on_action(ActionView::SwitchPersona(persona)).state;
    assert(after.history() =~= seq![
        TurnView { role: Role::System, content: persona.template_text() },
    ]);
}

/// Clearing the history leaves only the system turn, unchanged.
pub proof fn lemma_clear_history_keeps_system(start: ChatView)
    ensures
        start.on_action(ActionView::ClearHistory).state.history() == seq![start.history()[0]],
        start.on_action(ActionView::ClearHistory).state.pending.is_none(),
{
    let after = start.on_action(ActionView::ClearHistory).state;
    assert(after.history() =~= seq![start.history()[0]]);
}

impl ChatView {
    /// Whether every turn after the system turn is a turn of the dialogue:
    /// the user's or the assistant's.
    pub open spec fn later_turns_are_dialogue(self) -> bool {
        forall|i: int|
            0 <= i < self.turns.len() ==> (#[trigger] self.turns[i]).role != Role::System
    }
}

proof fn lemma_choices_keep_dialogue(state: ChatView, choices: Seq<ChoiceDeltaView>)
    requires
        state.later_turns_are_dialogue(),
    ensures
        state.on_choices(choices).state.later_turns_are_dialogue(),
    decreases choices.len(),
{
    if choices.len() > 0 {
        lemma_choices_keep_dialogue(state, choices.drop_last());
    }
}

proof fn lemma_signals_keep_dialogue(state: ChatView, signals: Seq<StreamSignalView>)
    requires
        state.later_turns_are_dialogue(),
    ensures
        state.on_signals(signals).state.later_turns_are_dialogue(),
    decreases signals.len(),
{
    if signals.len() > 0 {
        lemma_signals_keep_dialogue(state, signals.drop_last());
        let earlier = state.on_signals(signals.drop_last()).state;
        match signals.last() {
            StreamSignalView::Chunk(choices) => {
                lemma_choices_keep_dialogue(earlier, choices);
            },
            _ => {},
        }
    }
}

/// Only the first turn is a system turn. A fresh session has no other
/// turn, and no action and no signal of a stream adds a system turn: in
/// every state that the session reaches, each turn of the history after
/// the first is the user's or the assistant's.
pub proof fn lemma_later_turns_are_dialogue(
    state: ChatView,
    action: ActionView,
    signals: Seq<StreamSignalView>,
)
    requires
        state.later_turns_are_dialogue(),
    ensures
        ChatView::initial().later_turns_are_dialogue(),
        state.settled().later_turns_are_dialogue(),
        state.on_action(action).state.later_turns_are_dialogue(),
        state.on_signals(signals).state.later_turns_are_dialogue(),
        forall|i: int|
            1 <= i < state.history().len() ==> (#[trigger] state.history()[i]).role
                != Role::System,
{
    lemma_signals_keep_dialogue(state, signals);
    assert forall|i: int| 1 <= i < state.history().len() implies (#[trigger] state.history()[i]).role
        != Role::System by {
        assert(state.history()[i] == state.turns[i - 1]);
    }
}

/// The first turn of the history is the system turn, in every state.
pub proof fn lemma_history_starts_with_system(state: ChatView)
    ensures
        state.history().len() >= 1,
        state.history()[0] == (TurnView { role: Role::System, content: state.system }),
{
}

/// What the session asks of its driver after an action: events to pass on,
/// and a request to issue, if any.
#[derive(Clone, Debug, PartialEq, Eq)]
pub struct Reply {
    pub events: Vec<Event>,
    pub request: Option<ChatRequest>,
}

impl Reply {
    pub open spec fn request_view(self) -> Option<ChatRequestView> {
        match self.request {
            Some(request) => Some(request@),
            None => None,
        }
    }
}

/// The conversation session: it owns the history of the dialogue and
/// gathers the streamed reply to the request in flight.
pub struct ChatService {
    system: String,
    turns: Vec<Turn>,
    busy: bool,
    assistant_response: String,
}

impl View for ChatService {
    type V = ChatView;

    closed spec fn view(&self) -> ChatView {
        ChatView {
            system: self.system@,
            turns: turn_views(self.turns@),
            pending: if self.busy {
                Some(self.assistant_response@)
            } else {
                None
            },
        }
    }
}

impl ChatService {
    /// A session with the general persona and an empty dialogue.
    pub fn new() -> (r: ChatService)
        ensures
            r@ == ChatView::initial(),
    {
        let r = ChatService {
            system: Persona::General.template(),
            turns: Vec::new(),
            busy: false,
            assistant_response: String::new(),
        };
        assert(turn_views(r.turns@) =~= Seq::empty());
        r
    }

    /// Whether a request is in flight.
    pub fn is_busy(&self) -> (r: bool)
        ensures
            r == self@.pending.is_some(),
    {
        self.busy
    }

    /// A copy of the conversation history, system turn first.
    pub fn history(&self) -> (r: Vec<Turn>)
        ensures
            turn_views(r@) == self@.history(),
    {
        let mut r: Vec<Turn> = Vec::new();
        r.push(Turn { role: Role::System, content: self.system.clone() });
        let mut i: usize = 0;
        while i < self.turns.len()
            invariant
                i <= self.turns.len(),
                r.len() == i + 1,
                r[0]@ == (TurnView { role: Role::System, content: self.system@ }),
                forall|j: int| 0 <= j < i ==> (#[trigger] r[j + 1])@ == self.turns[j]@,
            decreases self.turns.len() - i,
        {
            let turn = &self.turns[i];
            r.push(Turn { role: turn.role, content: turn.content.clone() });
            i = i + 1;
        }
        assert forall|k: int| 0 <= k < r@.len() implies turn_views(r@)[k] == self@.history()[k] by {
            if k > 0 {
                assert(r[(k - 1) + 1]@ == self.turns[k - 1]@);
            }
        }
        assert(turn_views(r@) =~= self@.history());
        r
    }

    /// Ends the request in flight, if any, keeping the text gathered for it.
    fn settle(&mut self)
        ensures
            final(self)@ == old(self)@.settled(),
    {
        if self.busy {
            let ghost before = self.turns@;
            let ghost text = self.assistant_response@;
            if !self.assistant_response.as_str().is_empty() {
                let content = self.assistant_response.clone();
                self.turns.push(Turn { role: Role::Assistant, content });
                assert(turn_views(self.turns@) =~= turn_views(before).push(
                    TurnView { role: Role::Assistant, content: text },
                ));
            }
            self.busy = false;
            self.assistant_response = String::new();
        }
    }

    /// Carries out one action.
    pub fn handle_action(&mut self, action: Action) -> (reply: Reply)
        ensures
            final(self)@ == old(self)@.on_action(action@).state,
            event_views(reply.events@) == old(self)@.on_action(action@).events,
            reply.request_view() == old(self)@.on_action(action@).request,
    {
        self.settle();
        let mut events: Vec<Event> = Vec::new();
        match action {
            Action::SendMessage(text) => {
                let ghost before = self.turns@;
                let ghost content = text@;
                self.turns.push(Turn { role: Role::User, content: text });
                assert(turn_views(self.turns@) =~= turn_views(before).push(
                    TurnView { role: Role::User, content },
                ));
                self.busy = true;
                self.assistant_response = String::new();
                let request = ChatRequest {
                    model: MODEL.to_owned(),
                    max_tokens: MAX_TOKENS,
                    messages: self.history(),
                };
                events.push(Event::ConversationFinished(false));
                assert(event_views(events@) =~= seq![EventView::ConversationFinished(false)]);
                Reply { events, request: Some(request) }
            },
            Action::ClearHistory => {
                self.turns.clear();
                assert(turn_views(self.turns@) =~= Seq::empty());
                assert(event_views(events@) =~= Seq::empty());
                Reply { events, request: None }
            },
            Action::SwitchPersona(persona) => {
                self.turns.clear();
                assert(turn_views(self.turns@) =~= Seq::empty());
                self.system = persona.template();
                match persona.greeting() {
                    Some(text) => {
                        let ghost shown = text@;
                        events.push(Event::ConversationToken(text));
                        assert(event_views(events@) =~= seq![EventView::ConversationToken(shown)]);
                    },
                    None => {
                        assert(event_views(events@) =~= Seq::empty());
                    },
                }
                Reply { events, request: None }
            },
        }
    }

    /// Takes one alternative of an increment, adding to `events` what is to
    /// be passed on.
    fn handle_choice(&mut self, choice: &ChoiceDelta, events: &mut Vec<Event>)
        ensures
            final(self)@ == old(self)@.on_choice(choice@).state,
            event_views(final(events)@) == event_views(old(events)@) + old(self)@.on_choice(
                choice@,
            ).events,
    {
        let ghost shown = event_views(events@);
        if self.busy {
            match &choice.content {
                Some(more) => {
                    self.assistant_response.append(more.as_str());
                    events.push(Event::ConversationToken(more.clone()));
                    assert(event_views(events@) =~= shown.push(EventView::ConversationToken(more@)));
                },
                None => {},
            }
            if choice.finished {
                let ghost so_far = event_views(events@);
                self.settle();
                events.push(Event::ConversationFinished(true));
                assert(event_views(events@) =~= so_far.push(EventView::ConversationFinished(true)));
            }
            assert(event_views(events@) =~= shown + old(self)@.on_choice(choice@).events);
        } else {
            assert(event_views(events@) =~= shown + old(self)@.on_choice(choice@).events);
        }
    }

    /// Takes one signal of the stream of the request in flight and returns
    /// the events to pass on, in order.
    pub fn handle_stream(&mut self, signal: StreamSignal) -> (events: Vec<Event>)
        ensures
            final(self)@ == old(self)@.on_signal(signal@).state,
            event_views(events@) == old(self)@.on_signal(signal@).events,
    {
        let mut events: Vec<Event> = Vec::new();
        assert(event_views(events@) =~= Seq::empty());
        match signal {
            StreamSignal::Chunk(choices) => {
                let mut i: usize = 0;
                while i < choices.len()
                    invariant
                        i <= choices.len(),
                        self@ == old(self)@.on_choices(choice_views(choices@).take(i as int)).state,
                        event_views(events@) == old(self)@.on_choices(
                            choice_views(choices@).take(i as int),
                        ).events,
                    decreases choices.len() - i,
                {
                    let ghost done = choice_views(choices@).take(i as int);
                    let ghost next = choice_views(choices@).take(i as int + 1);
                    assert(next.drop_last() =~= done);
                    assert(next.last() == choices[i as int]@);
                    self.handle_choice(&choices[i], &mut events);
                    i = i + 1;
                }
                assert(choice_views(choices@).take(i as int) =~= choice_views(choices@));
            },
            StreamSignal::End => {
                if self.busy {
                    self.settle();
                    events.push(Event::ConversationFinished(true));
                    assert(event_views(events@) =~= seq![EventView::ConversationFinished(true)]);
                }
            },
            StreamSignal::Failure => {
                self.settle();
            },
        }
        events
    }
}

} // verus!
