//! The input generator server's two loops as step functions: the block
//! listener, from the latest block number to the broadcast of a block's input,
//! and the handler of one connected client, from a broadcast command to what
//! is sent to that client. The caller performs each action and feeds back
//! what came of it.

use vstd::prelude::*;

use crate::blocks::{block_wait, spec_next_multiple, BlockWait, SECONDS_PER_BLOCK};
use crate::path::{join_path, spec_join};
use crate::protocol::{
    frame_input_message, input_command, input_name, input_text, parse_broadcast_command,
    queued_command, queued_notice, queued_text, spec_broadcast, spec_frame, Broadcast,
};
use crate::protocol::{law_frame_round_trip, spec_parse_message};
use vstd::utf8::encode_utf8;

use crate::text::{decimal, is_ws, lemma_words_are_words, words};

verus! {

/// Where the block listener stands.
#[derive(PartialEq, Eq, Structural, Debug, Clone, Copy)]
pub enum ListenerState {
    /// Waiting for the latest block number.
    Polling,
    /// Fetching the block.
    Fetching(u64),
    /// Announcing that the block is queued.
    Announcing(u64),
    /// Generating the block's input file.
    Generating(u64),
    /// Announcing the block's input file.
    Publishing(u64),
}

/// What came of the listener's last action.
#[derive(PartialEq, Eq, Structural, Debug, Clone, Copy)]
pub enum ListenerEvent {
    /// The latest block number was read.
    LatestBlock(u64),
    /// The block was fetched, or its input file written.
    Done,
    /// A broadcast was made; `true` when some client handler received it.
    Delivered(bool),
    /// Fetching the block or generating its input failed.
    Failed,
}

/// What the listener does next.
pub enum ListenerAction<S> {
    /// Sleep `seconds`, waiting for block `next`, then read the latest block number.
    Wait { next: u64, seconds: u64 },
    /// Fetch the block.
    FetchBlock(u64),
    /// Broadcast this command to the client handlers.
    Broadcast(S),
    /// Generate the block's input file.
    GenerateInput(u64),
    /// The round is over: rest until twelve seconds have passed since the
    /// block was taken up, then read the latest block number.
    Rest,
}

impl<S: View> View for ListenerAction<S> {
    type V = ListenerAction<S::V>;

    open spec fn view(&self) -> ListenerAction<S::V> {
        match self {
            ListenerAction::Wait { next, seconds } => ListenerAction::Wait {
                next: *next,
                seconds: *seconds,
            },
            ListenerAction::FetchBlock(b) => ListenerAction::FetchBlock(*b),
            ListenerAction::Broadcast(t) => ListenerAction::Broadcast(t@),
            ListenerAction::GenerateInput(b) => ListenerAction::GenerateInput(*b),
            ListenerAction::Rest => ListenerAction::Rest,
        }
    }
}

/// One step of the block listener with block modulus `modulus`: a block that is
/// a multiple of the modulus is fetched, announced as queued, and, if some
/// handler heard that, its input is generated and announced; any other block is
/// waited past; a failure, an unheard announcement, or the end of a block
/// closes the round.
pub open spec fn spec_listener_step(
    state: ListenerState,
    event: ListenerEvent,
    modulus: u64,
) -> (ListenerState, ListenerAction<Seq<char>>) {
    match (state, event) {
        (ListenerState::Polling, ListenerEvent::LatestBlock(b)) => if b % modulus == 0 {
            (ListenerState::Fetching(b), ListenerAction::FetchBlock(b))
        } else {
            (
                ListenerState::Polling,
                ListenerAction::Wait {
                    next: spec_next_multiple(b, modulus) as u64,
                    seconds: ((spec_next_multiple(b, modulus) - b) * SECONDS_PER_BLOCK) as u64,
                },
            )
        },
        (ListenerState::Fetching(b), ListenerEvent::Done) => (
            ListenerState::Announcing(b),
            ListenerAction::Broadcast(queued_text(decimal(b as nat))),
        ),
        (ListenerState::Announcing(b), ListenerEvent::Delivered(true)) => (
            ListenerState::Generating(b),
            ListenerAction::GenerateInput(b),
        ),
        (ListenerState::Generating(b), ListenerEvent::Done) => (
            ListenerState::Publishing(b),
            ListenerAction::Broadcast(input_text(input_name(b as nat))),
        ),
        _ => (ListenerState::Polling, ListenerAction::Rest),
    }
}

/// Takes one step of the block listener.
pub fn listener_step(state: ListenerState, event: ListenerEvent, modulus: u64) -> (r: (
    ListenerState,
    ListenerAction<String>,
))
    requires
        modulus > 0,
        state == ListenerState::Polling ==> (event matches ListenerEvent::LatestBlock(b) ==> {
            &&& spec_next_multiple(b, modulus) <= u64::MAX
            &&& (spec_next_multiple(b, modulus) - b) * SECONDS_PER_BLOCK <= u64::MAX
        }),
    ensures
        r.0 == spec_listener_step(state, event, modulus).0,
        r.1@ == spec_listener_step(state, event, modulus).1,
{
    match (state, event) {
        (ListenerState::Polling, ListenerEvent::LatestBlock(b)) => match block_wait(b, modulus) {
            BlockWait::Ready => (ListenerState::Fetching(b), ListenerAction::FetchBlock(b)),
            BlockWait::Wait { next, seconds } => (
                ListenerState::Polling,
                ListenerAction::Wait { next, seconds },
            ),
        },
        (ListenerState::Fetching(b), ListenerEvent::Done) => (
            ListenerState::Announcing(b),
            ListenerAction::Broadcast(queued_command(b)),
        ),
        (ListenerState::Announcing(b), ListenerEvent::Delivered(true)) => (
            ListenerState::Generating(b),
            ListenerAction::GenerateInput(b),
        ),
        (ListenerState::Generating(b), ListenerEvent::Done) => (
            ListenerState::Publishing(b),
            ListenerAction::Broadcast(input_command(b)),
        ),
        _ => (ListenerState::Polling, ListenerAction::Rest),
    }
}

/// Every block the listener holds is a multiple of the modulus.
pub open spec fn listener_inv(state: ListenerState, modulus: u64) -> bool {
    match state {
        ListenerState::Polling => true,
        ListenerState::Fetching(b) => b % modulus == 0,
        ListenerState::Announcing(b) => b % modulus == 0,
        ListenerState::Generating(b) => b % modulus == 0,
        ListenerState::Publishing(b) => b % modulus == 0,
    }
}

/// Only multiples of the modulus are ever fetched, generated or broadcast: each
/// step keeps the listener's block a multiple, and every broadcast is the
/// `queued` or `input` command of such a block.
pub proof fn law_listener_only_multiples(state: ListenerState, event: ListenerEvent, modulus: u64)
    requires
        modulus > 0,
        listener_inv(state, modulus),
    ensures
        listener_inv(spec_listener_step(state, event, modulus).0, modulus),
        spec_listener_step(state, event, modulus).1 matches ListenerAction::FetchBlock(b) ==> b
            % modulus == 0,
        spec_listener_step(state, event, modulus).1 matches ListenerAction::GenerateInput(b) ==> b
            % modulus == 0,
        spec_listener_step(state, event, modulus).1 matches ListenerAction::Broadcast(t) ==> {
            ||| state matches ListenerState::Fetching(b) && b % modulus == 0 && t == queued_text(
                decimal(b as nat),
            )
            ||| state matches ListenerState::Generating(b) && b % modulus == 0 && t == input_text(
                input_name(b as nat),
            )
        },
{
}

/// The steps of a block come in order: it is fetched after it was read as the
/// latest block, announced as queued once fetched, generated only once that
/// announcement was heard, and its input announced only once generated.
pub proof fn law_listener_order(state: ListenerState, event: ListenerEvent, modulus: u64, b: u64)
    requires
        modulus > 0,
    ensures
        spec_listener_step(state, event, modulus).0 == ListenerState::Fetching(b) ==> state
            == ListenerState::Polling && event == ListenerEvent::LatestBlock(b),
        spec_listener_step(state, event, modulus).0 == ListenerState::Announcing(b) ==> state
            == ListenerState::Fetching(b) && event == ListenerEvent::Done,
        spec_listener_step(state, event, modulus).0 == ListenerState::Generating(b) ==> state
            == ListenerState::Announcing(b) && event == ListenerEvent::Delivered(true),
        spec_listener_step(state, event, modulus).0 == ListenerState::Publishing(b) ==> state
            == ListenerState::Generating(b) && event == ListenerEvent::Done,
{
}


/// Where the handler of one connected client stands.
pub enum HandlerState<S> {
    /// Waiting for the next broadcast command.
    Listening,
    /// Reading the input file with this name.
    Reading(S),
    /// Waiting for a frame to be sent.
    Sending,
    /// The client is gone.
    Closed,
}

impl<S: View> View for HandlerState<S> {
    type V = HandlerState<S::V>;

    open spec fn view(&self) -> HandlerState<S::V> {
        match self {
            HandlerState::Listening => HandlerState::Listening,
            HandlerState::Reading(f) => HandlerState::Reading(f@),
            HandlerState::Sending => HandlerState::Sending,
            HandlerState::Closed => HandlerState::Closed,
        }
    }
}

/// What came of the handler's last action, or what it received.
pub enum HandlerEvent<S, B> {
    /// A broadcast command arrived.
    Command(S),
    /// The input file was read and holds these bytes.
    FileRead(B),
    /// The input file could not be read.
    ReadFailed,
    /// The frame was sent.
    Sent,
    /// The frame could not be sent.
    SendFailed,
}

impl<S: View, B: View> View for HandlerEvent<S, B> {
    type V = HandlerEvent<S::V, B::V>;

    open spec fn view(&self) -> HandlerEvent<S::V, B::V> {
        match self {
            HandlerEvent::Command(c) => HandlerEvent::Command(c@),
            HandlerEvent::FileRead(b) => HandlerEvent::FileRead(b@),
            HandlerEvent::ReadFailed => HandlerEvent::ReadFailed,
            HandlerEvent::Sent => HandlerEvent::Sent,
            HandlerEvent::SendFailed => HandlerEvent::SendFailed,
        }
    }
}

/// What the handler does next.
pub enum HandlerAction<S, B> {
    /// Send `text` as a text frame, announcing that `block` is queued.
    Announce { block: S, text: S },
    /// Read the input file `file`, found at `path`.
    ReadFile { file: S, path: S },
    /// Send `payload`, the framed input file `file`, as a binary frame.
    SendFile { file: S, payload: B },
    /// Nothing to send: wait for the next command.
    Ignore,
    /// Stop serving this client.
    Disconnect,
}

impl<S: View, B: View> View for HandlerAction<S, B> {
    type V = HandlerAction<S::V, B::V>;

    open spec fn view(&self) -> HandlerAction<S::V, B::V> {
        match self {
            HandlerAction::Announce { block, text } => HandlerAction::Announce {
                block: block@,
                text: text@,
            },
            HandlerAction::ReadFile { file, path } => HandlerAction::ReadFile {
                file: file@,
                path: path@,
            },
            HandlerAction::SendFile { file, payload } => HandlerAction::SendFile {
                file: file@,
                payload: payload@,
            },
            HandlerAction::Ignore => HandlerAction::Ignore,
            HandlerAction::Disconnect => HandlerAction::Disconnect,
        }
    }
}

/// One step of a client handler whose input files lie in `folder`: a `queued`
/// command is passed on as a text frame; an `input` command has its file read
/// and sent framed with its name; other commands and unreadable files are
/// passed over; a frame that cannot be sent ends the handler.
pub open spec fn spec_handler_step(
    state: HandlerState<Seq<char>>,
    event: HandlerEvent<Seq<char>, Seq<u8>>,
    folder: Seq<char>,
) -> (HandlerState<Seq<char>>, HandlerAction<Seq<char>, Seq<u8>>) {
    match (state, event) {
        (HandlerState::Listening, HandlerEvent::Command(c)) => match spec_broadcast(c) {
            Broadcast::Queued(b) => (
                HandlerState::Sending,
                HandlerAction::Announce { block: b, text: queued_text(b) },
            ),
            Broadcast::Input(f) => (
                HandlerState::Reading(f),
                HandlerAction::ReadFile { file: f, path: spec_join(folder, f) },
            ),
            Broadcast::Unknown => (HandlerState::Listening, HandlerAction::Ignore),
        },
        (HandlerState::Reading(f), HandlerEvent::FileRead(content)) => (
            HandlerState::Sending,
            HandlerAction::SendFile { file: f, payload: spec_frame(f, content) },
        ),
        (HandlerState::Reading(_), HandlerEvent::ReadFailed) => (
            HandlerState::Listening,
            HandlerAction::Ignore,
        ),
        (HandlerState::Sending, HandlerEvent::Sent) => (HandlerState::Listening, HandlerAction::Ignore),
        (HandlerState::Sending, HandlerEvent::SendFailed) => (
            HandlerState::Closed,
            HandlerAction::Disconnect,
        ),
        (HandlerState::Closed, _) => (HandlerState::Closed, HandlerAction::Disconnect),
        _ => (state, HandlerAction::Ignore),
    }
}

/// Takes one step of a client handler.
pub fn handler_step(
    state: HandlerState<String>,
    event: HandlerEvent<String, Vec<u8>>,
    folder: &str,
) -> (r: (HandlerState<String>, HandlerAction<String, Vec<u8>>))
    ensures
        (r.0@, r.1@) == spec_handler_step(state@, event@, folder@),
{
    match (state, event) {
        (HandlerState::Listening, HandlerEvent::Command(c)) => match parse_broadcast_command(
            c.as_str(),
        ) {
            Broadcast::Queued(b) => {
                let text = queued_notice(b.as_str());
                (HandlerState::Sending, HandlerAction::Announce { block: b, text })
            },
            Broadcast::Input(f) => {
                let path = join_path(folder, f.as_str());
                let file = f.clone();
                (HandlerState::Reading(f), HandlerAction::ReadFile { file, path })
            },
            Broadcast::Unknown => (HandlerState::Listening, HandlerAction::Ignore),
        },
        (HandlerState::Reading(f), HandlerEvent::FileRead(content)) => {
            let payload = frame_input_message(f.as_str(), content.as_slice());
            (HandlerState::Sending, HandlerAction::SendFile { file: f, payload })
        },
        (HandlerState::Reading(_), HandlerEvent::ReadFailed) => (
            HandlerState::Listening,
            HandlerAction::Ignore,
        ),
        (HandlerState::Sending, HandlerEvent::Sent) => (HandlerState::Listening, HandlerAction::Ignore),
        (HandlerState::Sending, HandlerEvent::SendFailed) => (
            HandlerState::Closed,
            HandlerAction::Disconnect,
        ),
        (HandlerState::Closed, _) => (HandlerState::Closed, HandlerAction::Disconnect),
        (state, _) => (state, HandlerAction::Ignore),
    }
}

/// What a handler sends answers the command it received: a text frame only
/// right after a `queued` command, repeating its block word; a file frame only
/// right after reading the file of an `input` command, framing that file's
/// name and content; a file is only read for an `input` command that names
/// it. After each frame the handler waits for it to be sent before it takes
/// another command.
pub proof fn law_handler_sends_answers(
    state: HandlerState<Seq<char>>,
    event: HandlerEvent<Seq<char>, Seq<u8>>,
    folder: Seq<char>,
)
    ensures
        spec_handler_step(state, event, folder).1 matches HandlerAction::Announce { block, text }
            ==> state == HandlerState::<Seq<char>>::Listening && (event matches HandlerEvent::Command(
            c,
        ) && spec_broadcast(c) == Broadcast::Queued(block)) && text == queued_text(block),
        spec_handler_step(state, event, folder).1 matches HandlerAction::SendFile { file, payload }
            ==> state == HandlerState::Reading(file) && (event matches HandlerEvent::FileRead(
            content,
        ) && payload == spec_frame(file, content)),
        spec_handler_step(state, event, folder).0 matches HandlerState::Reading(f) ==> (state
            == HandlerState::Reading(f) || (state == HandlerState::<Seq<char>>::Listening && (
        event matches HandlerEvent::Command(c) && spec_broadcast(c) == Broadcast::Input(f)))),
        (spec_handler_step(state, event, folder).1 matches HandlerAction::Announce { .. }
            || spec_handler_step(state, event, folder).1 matches HandlerAction::SendFile { .. })
            ==> spec_handler_step(state, event, folder).0 == HandlerState::<Seq<char>>::Sending,
{
}

/// The file of any `input` command, sent with any content, reaches the client
/// as that file's name and that content.
pub proof fn law_handler_file_reaches_client(c: Seq<char>, f: Seq<char>, content: Seq<u8>)
    requires
        spec_broadcast(c) == Broadcast::Input(f),
    ensures
        spec_parse_message(spec_frame(f, content)) == Some((f, content)),
{
    lemma_words_are_words(c);
    assert(f == words(c)[1]);
    assert forall|i: int| 0 <= i < f.len() implies #[trigger] f[i] != '\n' by {
        assert(!is_ws(f[i]));
    }
    law_frame_round_trip(f, content);
}


/// The listener's progress through a block, for every modulus and block: a
/// latest block that is a multiple is fetched; a fetched block is announced as
/// `queued {b}`; once that announcement is heard, the block's input is always
/// generated; a generated input is announced as `input {b}.bin`; a latest block
/// that is not a multiple is waited past, for the next multiple, twelve seconds
/// a block.
pub proof fn law_listener_progress(modulus: u64, b: u64)
    requires
        modulus > 0,
    ensures
        b % modulus == 0 ==> spec_listener_step(
            ListenerState::Polling,
            ListenerEvent::LatestBlock(b),
            modulus,
        ) == (ListenerState::Fetching(b), ListenerAction::<Seq<char>>::FetchBlock(b)),
        b % modulus != 0 ==> spec_listener_step(
            ListenerState::Polling,
            ListenerEvent::LatestBlock(b),
            modulus,
        ) == (
            ListenerState::Polling,
            ListenerAction::<Seq<char>>::Wait {
                next: (b + (modulus - b % modulus)) as u64,
                seconds: ((modulus - b % modulus) * 12) as u64,
            },
        ),
        spec_listener_step(ListenerState::Fetching(b), ListenerEvent::Done, modulus) == (
            ListenerState::Announcing(b),
            ListenerAction::Broadcast("queued "@ + decimal(b as nat)),
        ),
        spec_listener_step(ListenerState::Announcing(b), ListenerEvent::Delivered(true), modulus)
            == (ListenerState::Generating(b), ListenerAction::<Seq<char>>::GenerateInput(b)),
        spec_listener_step(ListenerState::Generating(b), ListenerEvent::Done, modulus) == (
            ListenerState::Publishing(b),
            ListenerAction::Broadcast("input "@ + decimal(b as nat) + ".bin"@),
        ),
{
    assert(input_text(input_name(b as nat)) =~= "input "@ + decimal(b as nat) + ".bin"@);
}

/// A round ends, and the listener reads the latest block again after resting,
/// when a queued announcement goes unheard, when fetching or generation fails,
/// or once the input announcement was made, heard or not.
pub proof fn law_listener_round_ends(modulus: u64, b: u64, heard: bool)
    requires
        modulus > 0,
    ensures
        spec_listener_step(ListenerState::Announcing(b), ListenerEvent::Delivered(false), modulus)
            == (ListenerState::Polling, ListenerAction::<Seq<char>>::Rest),
        spec_listener_step(ListenerState::Publishing(b), ListenerEvent::Delivered(heard), modulus)
            == (ListenerState::Polling, ListenerAction::<Seq<char>>::Rest),
        spec_listener_step(ListenerState::Fetching(b), ListenerEvent::Failed, modulus) == (
            ListenerState::Polling,
            ListenerAction::<Seq<char>>::Rest,
        ),
        spec_listener_step(ListenerState::Generating(b), ListenerEvent::Failed, modulus) == (
            ListenerState::Polling,
            ListenerAction::<Seq<char>>::Rest,
        ),
{
}

/// How a handler answers, for every folder, command, file name and content: a
/// `queued` command with block word `w` is passed on as the text `queued {w}`;
/// an `input` command naming `f` reads `f` inside the folder; a file that was
/// read is always sent, whatever its size, as its name, a newline byte and its
/// bytes; an unreadable file or another command is passed over; a sent frame
/// returns the handler to listening, and a frame that cannot be sent ends it.
pub proof fn law_handler_answers(
    folder: Seq<char>,
    c: Seq<char>,
    f: Seq<char>,
    content: Seq<u8>,
)
    ensures
        spec_broadcast(c) matches Broadcast::Queued(w) ==> spec_handler_step(
            HandlerState::Listening,
            HandlerEvent::Command(c),
            folder,
        ) == (
            HandlerState::<Seq<char>>::Sending,
            HandlerAction::<Seq<char>, Seq<u8>>::Announce { block: w, text: "queued "@ + w },
        ),
        spec_broadcast(c) matches Broadcast::Input(g) ==> spec_handler_step(
            HandlerState::Listening,
            HandlerEvent::Command(c),
            folder,
        ) == (
            HandlerState::Reading(g),
            HandlerAction::<Seq<char>, Seq<u8>>::ReadFile { file: g, path: spec_join(folder, g) },
        ),
        spec_broadcast(c) == Broadcast::<Seq<char>>::Unknown ==> spec_handler_step(
            HandlerState::Listening,
            HandlerEvent::Command(c),
            folder,
        ) == (HandlerState::<Seq<char>>::Listening, HandlerAction::<Seq<char>, Seq<u8>>::Ignore),
        spec_handler_step(HandlerState::Reading(f), HandlerEvent::FileRead(content), folder) == (
            HandlerState::<Seq<char>>::Sending,
            HandlerAction::<Seq<char>, Seq<u8>>::SendFile {
                file: f,
                payload: encode_utf8(f) + seq![10u8] + content,
            },
        ),
        spec_handler_step(
            HandlerState::Reading(f),
            HandlerEvent::<Seq<char>, Seq<u8>>::ReadFailed,
            folder,
        ) == (HandlerState::<Seq<char>>::Listening, HandlerAction::<Seq<char>, Seq<u8>>::Ignore),
        spec_handler_step(
            HandlerState::<Seq<char>>::Sending,
            HandlerEvent::<Seq<char>, Seq<u8>>::Sent,
            folder,
        ) == (HandlerState::<Seq<char>>::Listening, HandlerAction::<Seq<char>, Seq<u8>>::Ignore),
        spec_handler_step(
            HandlerState::<Seq<char>>::Sending,
            HandlerEvent::<Seq<char>, Seq<u8>>::SendFailed,
            folder,
        ) == (
            HandlerState::<Seq<char>>::Closed,
            HandlerAction::<Seq<char>, Seq<u8>>::Disconnect,
        ),
{
}

} // verus!
