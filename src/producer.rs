use vstd::prelude::*;
use crate::command::{command_of, parse_command, trimmed, Command, CommandView};
use crate::topology::{publish_target, Names, NamesView, PublishTarget, target_of};

verus! {

/// Where the producer stands: reading operator input, then shutting down,
/// channel first and connection second.
#[derive(Clone, Copy, Debug, PartialEq, Eq, Structural)]
pub enum ProducerPhase {
    Reading,
    ClosingChannel,
    ClosingConnection,
    Closed,
}

/// What happened since the last action.
#[derive(Clone, Debug, PartialEq, Eq)]
pub enum ProducerEvent {
    /// The operator typed a line.
    Line { text: String },
    /// The channel close handshake completed.
    ChannelClosed,
    /// The connection close was sent.
    ConnectionClosed,
}

/// What the caller does next.
#[derive(Clone, Debug, PartialEq, Eq)]
pub enum ProducerAction {
    /// Publish `body`, then read the next line.
    Publish {
        exchange: String,
        routing_key: String,
        mandatory: bool,
        immediate: bool,
        content_type: String,
        body: String,
    },
    /// Show `text` to the operator, then read the next line.
    Report { text: String },
    /// Read the next line.
    ReadLine,
    /// Close the channel with this reply.
    CloseChannel { reply_code: u16, reply_text: String },
    /// Close the connection with this reply; its outcome is not checked.
    CloseConnection { reply_code: u16, reply_text: String },
    /// Nothing to do.
    Nothing,
}

pub enum ProducerEventView {
    Line { text: Seq<char> },
    ChannelClosed,
    ConnectionClosed,
}

pub enum ProducerActionView {
    Publish {
        exchange: Seq<char>,
        routing_key: Seq<char>,
        mandatory: bool,
        immediate: bool,
        content_type: Seq<char>,
        body: Seq<char>,
    },
    Report { text: Seq<char> },
    ReadLine,
    CloseChannel { reply_code: u16, reply_text: Seq<char> },
    CloseConnection { reply_code: u16, reply_text: Seq<char> },
    Nothing,
}

impl View for ProducerEvent {
    type V = ProducerEventView;

    open spec fn view(&self) -> ProducerEventView {
        match self {
            ProducerEvent::Line { text } => ProducerEventView::Line { text: text@ },
            ProducerEvent::ChannelClosed => ProducerEventView::ChannelClosed,
            ProducerEvent::ConnectionClosed => ProducerEventView::ConnectionClosed,
        }
    }
}

impl View for ProducerAction {
    type V = ProducerActionView;

    open spec fn view(&self) -> ProducerActionView {
        match self {
            ProducerAction::Publish {
                exchange,
                routing_key,
                mandatory,
                immediate,
                content_type,
                body,
            } => ProducerActionView::Publish {
                exchange: exchange@,
                routing_key: routing_key@,
                mandatory: *mandatory,
                immediate: *immediate,
                content_type: content_type@,
                body: body@,
            },
            ProducerAction::Report { text } => ProducerActionView::Report { text: text@ },
            ProducerAction::ReadLine => ProducerActionView::ReadLine,
            ProducerAction::CloseChannel { reply_code, reply_text } => ProducerActionView::CloseChannel {
                reply_code: *reply_code,
                reply_text: reply_text@,
            },
            ProducerAction::CloseConnection { reply_code, reply_text } => ProducerActionView::CloseConnection {
                reply_code: *reply_code,
                reply_text: reply_text@,
            },
            ProducerAction::Nothing => ProducerActionView::Nothing,
        }
    }
}

/// The reply code sent when closing: success.
pub const CLOSE_REPLY_CODE: u16 = 200;

pub open spec fn close_reply_text() -> Seq<char> {
    "closing producer"@
}

pub open spec fn missing_message_text() -> Seq<char> {
    "Missing message."@
}

pub open spec fn content_type_text() -> Seq<char> {
    "text"@
}

/// One step of the producer: the phase and action that follow an event,
/// given where messages are published (exchange, routing key).
pub open spec fn producer_step(
    phase: ProducerPhase,
    target: (Seq<char>, Seq<char>),
    event: ProducerEventView,
) -> (ProducerPhase, ProducerActionView) {
    match (phase, event) {
        (ProducerPhase::Reading, ProducerEventView::Line { text }) => match command_of(text) {
            CommandView::Exit => (
                ProducerPhase::ClosingChannel,
                ProducerActionView::CloseChannel {
                    reply_code: CLOSE_REPLY_CODE,
                    reply_text: close_reply_text(),
                },
            ),
            CommandView::Push { message } => (
                ProducerPhase::Reading,
                ProducerActionView::Publish {
                    exchange: target.0,
                    routing_key: target.1,
                    mandatory: true,
                    immediate: false,
                    content_type: content_type_text(),
                    body: message,
                },
            ),
            CommandView::MissingMessage => (
                ProducerPhase::Reading,
                ProducerActionView::Report { text: missing_message_text() },
            ),
            CommandView::Ignored => (ProducerPhase::Reading, ProducerActionView::ReadLine),
        },
        (ProducerPhase::ClosingChannel, ProducerEventView::ChannelClosed) => (
            ProducerPhase::ClosingConnection,
            ProducerActionView::CloseConnection {
                reply_code: CLOSE_REPLY_CODE,
                reply_text: close_reply_text(),
            },
        ),
        (ProducerPhase::ClosingConnection, ProducerEventView::ConnectionClosed) => (
            ProducerPhase::Closed,
            ProducerActionView::Nothing,
        ),
        _ => (phase, ProducerActionView::Nothing),
    }
}

/// The producer's side of the harness: turns operator lines into
/// publications, and `exit` into an ordered shutdown.
pub struct Producer {
    target: PublishTarget,
    phase: ProducerPhase,
}

impl Producer {
    pub closed spec fn spec_phase(&self) -> ProducerPhase {
        self.phase
    }

    pub closed spec fn spec_target(&self) -> (Seq<char>, Seq<char>) {
        (self.target.exchange@, self.target.routing_key@)
    }

    /// A producer reading input, publishing to the destination that the
    /// names and fan-out setting give.
    pub fn new(names: &Names, fanout: bool) -> (r: Producer)
        ensures
            r.spec_phase() == ProducerPhase::Reading,
            r.spec_target() == target_of(names@, fanout),
    {
        Producer { target: publish_target(names, fanout), phase: ProducerPhase::Reading }
    }

    pub fn phase(&self) -> (r: ProducerPhase)
        ensures
            r == self.spec_phase(),
    {
        self.phase
    }

    /// Whether the input loop still runs.
    pub fn reading(&self) -> (r: bool)
        ensures
            r == (self.spec_phase() == ProducerPhase::Reading),
    {
        self.phase == ProducerPhase::Reading
    }

    /// Takes one event and says what to do next.
    pub fn step(&mut self, event: &ProducerEvent) -> (r: ProducerAction)
        ensures
            (final(self).spec_phase(), r@) == producer_step(
                old(self).spec_phase(),
                old(self).spec_target(),
                event@,
            ),
            final(self).spec_target() == old(self).spec_target(),
    {
        proof {
            reveal_strlit("closing producer");
        }
        match (self.phase, event) {
            (ProducerPhase::Reading, ProducerEvent::Line { text }) => match parse_command(
                text.as_str(),
            ) {
                Command::Exit => {
                    self.phase = ProducerPhase::ClosingChannel;
                    ProducerAction::CloseChannel {
                        reply_code: CLOSE_REPLY_CODE,
                        reply_text: String::from_str("closing producer"),
                    }
                },
                Command::Push { message } => ProducerAction::Publish {
                    exchange: self.target.exchange.clone(),
                    routing_key: self.target.routing_key.clone(),
                    mandatory: true,
                    immediate: false,
                    content_type: String::from_str("text"),
                    body: message,
                },
                Command::MissingMessage => ProducerAction::Report {
                    text: String::from_str("Missing message."),
                },
                Command::Ignored => ProducerAction::ReadLine,
            },
            (ProducerPhase::ClosingChannel, ProducerEvent::ChannelClosed) => {
                self.phase = ProducerPhase::ClosingConnection;
                ProducerAction::CloseConnection {
                    reply_code: CLOSE_REPLY_CODE,
                    reply_text: String::from_str("closing producer"),
                }
            },
            (ProducerPhase::ClosingConnection, ProducerEvent::ConnectionClosed) => {
                self.phase = ProducerPhase::Closed;
                ProducerAction::Nothing
            },
            _ => ProducerAction::Nothing,
        }
    }
}

/// `push` alone: a line that is `push` once trimmed publishes nothing and
/// keeps the input loop running, after the diagnostic `Missing message.`.
pub proof fn lemma_push_without_message(target: (Seq<char>, Seq<char>), line: Seq<char>)
    requires
        trimmed(line) == "push"@,
    ensures
        producer_step(ProducerPhase::Reading, target, ProducerEventView::Line { text: line }) == (
            ProducerPhase::Reading,
            ProducerActionView::Report { text: missing_message_text() },
        ),
{
    reveal_strlit("push");
    let t = trimmed(line);
    crate::command::lemma_single_token(t);
    assert(t.subrange(0, 4) =~= seq!['p', 'u', 's', 'h']);
    assert(t.subrange(0, 4) != seq!['e', 'x', 'i', 't']);
}

/// `exit` ends the input loop: a line that is `exit` once trimmed starts the
/// shutdown by closing the channel with reply code 200 and text
/// `closing producer`, and from then on no line is acted upon.
pub proof fn lemma_exit_stops_input(
    target: (Seq<char>, Seq<char>),
    line: Seq<char>,
    later: Seq<char>,
)
    requires
        trimmed(line) == "exit"@,
    ensures
        producer_step(ProducerPhase::Reading, target, ProducerEventView::Line { text: line }) == (
            ProducerPhase::ClosingChannel,
            ProducerActionView::CloseChannel {
                reply_code: 200,
                reply_text: "closing producer"@,
            },
        ),
        producer_step(ProducerPhase::ClosingChannel, target, ProducerEventView::Line { text: later })
            == (ProducerPhase::ClosingChannel, ProducerActionView::Nothing),
{
    reveal_strlit("exit");
    let t = trimmed(line);
    crate::command::lemma_single_token(t);
    assert(t.subrange(0, 4) =~= seq!['e', 'x', 'i', 't']);
}

/// Shutdown order: the connection is closed only once the channel close has
/// completed, and both closes carry reply code 200 and text `closing producer`.
/// Once input has stopped, no event brings it back.
pub proof fn lemma_close_order(
    phase: ProducerPhase,
    target: (Seq<char>, Seq<char>),
    event: ProducerEventView,
)
    ensures
        producer_step(phase, target, event).1 is CloseConnection ==> phase
            == ProducerPhase::ClosingChannel && event is ChannelClosed
            && producer_step(phase, target, event).1 == (ProducerActionView::CloseConnection {
            reply_code: 200,
            reply_text: close_reply_text(),
        }),
        producer_step(phase, target, event).1 is CloseChannel ==> phase == ProducerPhase::Reading
            && producer_step(phase, target, event).1 == (ProducerActionView::CloseChannel {
            reply_code: 200,
            reply_text: close_reply_text(),
        }),
        phase != ProducerPhase::Reading ==> producer_step(phase, target, event).0
            != ProducerPhase::Reading,
        phase != ProducerPhase::Reading ==> !(producer_step(phase, target, event).1 is Publish),
{
}

} // verus!
