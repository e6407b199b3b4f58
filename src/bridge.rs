//! The host-bridge protocol: the operations a script may call, the correlation
//! of request→reply calls with the editor's answers, and the handle table
//! through which a script reaches its editor.
use vstd::prelude::*;
use std::collections::HashMap;
use crate::model::{EditorSelectionReplacement, EditorSelectionState, EditorState};

verus! {

broadcast use vstd::std_specs::hash::group_hash_axioms;

/// An operation that a script asks the editor to perform.
pub enum ScriptRunEditorRequestEvent {
    GetFullText,
    SetFullText(String),
    SetError(String),
    GetPartialText { start: Option<usize>, end: Option<usize>, selection_index: Option<usize> },
    ReplaceSelections(Vec<EditorSelectionReplacement>),
}

/// A request as the editor receives it: `id` is present where a reply is expected.
pub struct ScriptRunEditorRequest {
    pub id: Option<u64>,
    pub event: ScriptRunEditorRequestEvent,
}

/// The payload of a reply from the editor.
pub enum InternalScriptRunEditorResponse {
    GetFullText(String),
    GetPartialText(String),
}

/// A reply from the editor to the request `id`: an error or a payload.
pub struct ScriptRunEditorResponse {
    pub id: u64,
    pub error: Option<String>,
    pub event: Option<InternalScriptRunEditorResponse>,
}

/// What a run sends to its window: a fire-and-forget operation, an operation
/// with the slot its reply goes to, or the run's terminal error.
pub enum InternalScriptRunEditorRequest<S> {
    Request(ScriptRunEditorRequestEvent),
    RequestWithResponse { event: ScriptRunEditorRequestEvent, reply_sender: S },
    Error(String),
}

/// Why a bridge operation failed, as the calling script sees it.
#[derive(Debug, PartialEq, Eq)]
pub enum BridgeError {
    /// The handle names no editor of this run.
    InvalidHandle,
    /// The channel to the window was torn down before the reply came.
    ChannelClosed,
    /// The editor answered with an error.
    Editor(String),
    /// The reply was of another operation.
    IncorrectResponse,
    /// The input was not base64.
    InvalidBase64,
}

/// How a request→reply call ended on the script's side: `None` where the
/// reply slot was dropped unanswered.
pub type ReplyOutcome = Option<Result<InternalScriptRunEditorResponse, String>>;

/// The full text carried by a reply to `GetFullText`.
pub fn full_text_from_reply(outcome: ReplyOutcome) -> (r: Result<String, BridgeError>)
    ensures
        match outcome {
            None => r == Err::<String, BridgeError>(BridgeError::ChannelClosed),
            Some(Err(m)) => r == Err::<String, BridgeError>(BridgeError::Editor(m)),
            Some(Ok(InternalScriptRunEditorResponse::GetFullText(t))) => r == Ok::<
                String,
                BridgeError,
            >(t),
            Some(Ok(_)) => r == Err::<String, BridgeError>(BridgeError::IncorrectResponse),
        },
{
    match outcome {
        None => Err(BridgeError::ChannelClosed),
        Some(Err(m)) => Err(BridgeError::Editor(m)),
        Some(Ok(InternalScriptRunEditorResponse::GetFullText(t))) => Ok(t),
        Some(Ok(_)) => Err(BridgeError::IncorrectResponse),
    }
}

/// The text carried by a reply to `GetPartialText`.
pub fn partial_text_from_reply(outcome: ReplyOutcome) -> (r: Result<String, BridgeError>)
    ensures
        match outcome {
            None => r == Err::<String, BridgeError>(BridgeError::ChannelClosed),
            Some(Err(m)) => r == Err::<String, BridgeError>(BridgeError::Editor(m)),
            Some(Ok(InternalScriptRunEditorResponse::GetPartialText(t))) => r == Ok::<
                String,
                BridgeError,
            >(t),
            Some(Ok(_)) => r == Err::<String, BridgeError>(BridgeError::IncorrectResponse),
        },
{
    match outcome {
        None => Err(BridgeError::ChannelClosed),
        Some(Err(m)) => Err(BridgeError::Editor(m)),
        Some(Ok(InternalScriptRunEditorResponse::GetPartialText(t))) => Ok(t),
        Some(Ok(_)) => Err(BridgeError::IncorrectResponse),
    }
}

/// The request for `GetPartialText` between `start` and `end`; an absent
/// bound leaves that end of the range open.
pub fn partial_text_request(start: Option<usize>, end: Option<usize>) -> (r: ScriptRunEditorRequestEvent)
    ensures
        r == (ScriptRunEditorRequestEvent::GetPartialText { start, end, selection_index: None }),
{
    ScriptRunEditorRequestEvent::GetPartialText { start, end, selection_index: None }
}

/// The 64 characters of the standard base64 alphabet, by value.
pub open spec fn base64_alphabet() -> Seq<char> {
    seq!['A', 'B', 'C', 'D', 'E', 'F', 'G', 'H', 'I', 'J', 'K', 'L', 'M', 'N', 'O', 'P', 'Q', 'R', 'S', 'T', 'U', 'V', 'W', 'X', 'Y', 'Z', 'a', 'b', 'c', 'd', 'e', 'f', 'g', 'h', 'i', 'j', 'k', 'l', 'm', 'n', 'o', 'p', 'q', 'r', 's', 't', 'u', 'v', 'w', 'x', 'y', 'z', '0', '1', '2', '3', '4', '5', '6', '7', '8', '9', '+', '/']
}

/// The byte at `i` of `data`, or 0 past its end.
pub open spec fn byte_or_zero(data: Seq<u8>, i: int) -> int {
    if i < data.len() {
        data[i] as int
    } else {
        0
    }
}

/// The six-bit value of the char at `i` of the encoding of `data`.
pub open spec fn sextet(data: Seq<u8>, i: int) -> int {
    let g = 3 * (i / 4);
    let b0 = byte_or_zero(data, g);
    let b1 = byte_or_zero(data, g + 1);
    let b2 = byte_or_zero(data, g + 2);
    if i % 4 == 0 {
        b0 / 4
    } else if i % 4 == 1 {
        (b0 % 4) * 16 + b1 / 16
    } else if i % 4 == 2 {
        (b1 % 16) * 4 + b2 / 64
    } else {
        b2 % 64
    }
}

/// The standard padded base64 encoding of `data`: four chars for each group
/// of three bytes, the last group padded with `=`.
pub open spec fn base64_encoding(data: Seq<u8>) -> Seq<char> {
    Seq::new(
        (4 * ((data.len() + 2) / 3)) as nat,
        |i: int|
            if (i % 4 == 2 && 3 * (i / 4) + 1 >= data.len()) || (i % 4 == 3 && 3 * (i / 4) + 2
                >= data.len()) {
                '='
            } else {
                base64_alphabet()[sextet(data, i)]
            },
    )
}

/// The forgiving base64 decoding of `data` (ASCII whitespace ignored, padding
/// optional), where `data` is base64.
pub uninterp spec fn forgiving_base64_decoding(data: Seq<u8>) -> Option<Seq<u8>>;

/// Relies on `base64_simd::STANDARD.encode_to_string`: the padded standard
/// encoding with the standard alphabet. It panics where the encoding would be
/// longer than half the address space.
#[verifier::external_body]
fn base64_encode(data: &[u8]) -> (r: String)
    requires
        base64_encoding(data@).len() <= usize::MAX / 2,
    ensures
        r@ == base64_encoding(data@),
{
    base64_simd::STANDARD.encode_to_string(data)
}

/// Relies on `base64_simd::forgiving_decode_to_vec`: the forgiving decoding,
/// or an error where the input is not base64.
#[verifier::external_body]
fn base64_forgiving_decode(data: &[u8]) -> (r: Option<Vec<u8>>)
    ensures
        match r {
            Some(v) => forgiving_base64_decoding(data@) == Some(v@),
            None => forgiving_base64_decoding(data@) is None,
        },
{
    base64_simd::forgiving_decode_to_vec(data).ok()
}

/// `atob` for scripts: decodes base64 text, forgivingly.
pub fn op_base64_atob(s: &[u8]) -> (r: Result<Vec<u8>, BridgeError>)
    ensures
        match forgiving_base64_decoding(s@) {
            Some(d) => r is Ok && r->Ok_0@ == d,
            None => r == Err::<Vec<u8>, BridgeError>(BridgeError::InvalidBase64),
        },
{
    match base64_forgiving_decode(s) {
        Some(v) => Ok(v),
        None => Err(BridgeError::InvalidBase64),
    }
}

/// `btoa` for scripts: encodes bytes as padded standard base64.
pub fn op_base64_btoa(s: &[u8]) -> (r: String)
    requires
        base64_encoding(s@).len() <= usize::MAX / 2,
    ensures
        r@ == base64_encoding(s@),
{
    base64_encode(s)
}

/// What a run's bridge handle stands for: the channel to its window and the
/// editor snapshot taken when the run started.
pub struct EditorHandle<C> {
    pub editor_request_channel: C,
    pub editor_state: EditorState,
}

/// The per-run table of resources; a script holds only indices into it.
pub struct HandleTable<T> {
    slots: Vec<T>,
}

impl<T> HandleTable<T> {
    /// The resources, by handle.
    pub closed spec fn entries(&self) -> Seq<T> {
        self.slots@
    }

    /// An empty table.
    pub fn new() -> (r: HandleTable<T>)
        ensures
            r.entries().len() == 0,
    {
        HandleTable { slots: Vec::new() }
    }

    /// Files `t` and returns its handle.
    pub fn add(&mut self, t: T) -> (r: u32)
        requires
            old(self).entries().len() < u32::MAX,
        ensures
            r == old(self).entries().len(),
            final(self).entries() == old(self).entries().push(t),
    {
        let r = self.slots.len() as u32;
        self.slots.push(t);
        r
    }

    /// The resource behind `handle`; a handle that was never given out fails.
    pub fn get(&self, handle: u32) -> (r: Result<&T, BridgeError>)
        ensures
            handle < self.entries().len() <==> r is Ok,
            r matches Ok(t) ==> *t == self.entries()[handle as int],
            !(handle < self.entries().len()) ==> r == Err::<&T, BridgeError>(
                BridgeError::InvalidHandle,
            ),
    {
        if (handle as usize) < self.slots.len() {
            Ok(&self.slots[handle as usize])
        } else {
            Err(BridgeError::InvalidHandle)
        }
    }
}

/// `GetSelectionState`: the selection snapshot taken when the run started,
/// served without asking the editor.
pub fn op_get_selection_state<C>(table: &HandleTable<EditorHandle<C>>, handle: u32) -> (r: Result<
    EditorSelectionState,
    BridgeError,
>)
    ensures
        handle < table.entries().len() <==> r is Ok,
        r matches Ok(s) ==> s.main_selection_index == table.entries()[handle as int].editor_state.selection.main_selection_index
            && s.selections@ == table.entries()[handle as int].editor_state.selection.selections@,
        !(handle < table.entries().len()) ==> r == Err::<EditorSelectionState, BridgeError>(
            BridgeError::InvalidHandle,
        ),
{
    match table.get(handle) {
        Ok(h) => Ok(h.editor_state.selection.duplicate()),
        Err(e) => Err(e),
    }
}

/// How relaying `request` took the table from `before` to `after` and
/// produced `r`.
pub open spec fn relayed<S>(
    before: WindowScriptState<S>,
    after: WindowScriptState<S>,
    request: InternalScriptRunEditorRequest<S>,
    r: Result<ScriptRunEditorRequest, String>,
) -> bool {
    &&& after.wf()
    &&& match request {
        InternalScriptRunEditorRequest::Request(e) => {
            &&& r == Ok::<ScriptRunEditorRequest, String>(
                ScriptRunEditorRequest { id: None, event: e },
            )
            &&& after == before
        },
        InternalScriptRunEditorRequest::RequestWithResponse { event, reply_sender } => {
            if before.next_id() < u64::MAX {
                &&& r == Ok::<ScriptRunEditorRequest, String>(
                    ScriptRunEditorRequest { id: Some(before.next_id()), event },
                )
                &&& after.next_id() == before.next_id() + 1
                &&& after.pending() == before.pending().insert(
                    before.next_id(),
                    reply_sender,
                )
            } else {
                r is Err && after == before
            }
        },
        InternalScriptRunEditorRequest::Error(e) => {
            &&& r == Err::<ScriptRunEditorRequest, String>(e)
            &&& after == before
        },
    }
}

/// How accepting `reply` took the table from `before` to `after` and
/// produced `r`.
pub open spec fn reply_accepted<S>(
    before: WindowScriptState<S>,
    after: WindowScriptState<S>,
    reply: ScriptRunEditorResponse,
    r: Result<(S, Result<InternalScriptRunEditorResponse, String>), String>,
) -> bool {
    &&& after.wf()
    &&& after.next_id() == before.next_id()
    &&& after.pending() == before.pending().remove(reply.id)
    &&& before.pending().contains_key(reply.id) <==> r is Ok
    &&& r matches Err(m) ==> m@ == "No reply sender found for the given id"@
    &&& r matches Ok((slot, payload)) ==> {
        &&& slot == before.pending()[reply.id]
        &&& match reply.event {
            Some(e) => payload == Ok::<InternalScriptRunEditorResponse, String>(e),
            None => match reply.error {
                Some(m) => payload == Err::<InternalScriptRunEditorResponse, String>(m),
                None => payload matches Err(m) && m@ == "Received an empty response"@,
            },
        }
    }
}

/// A window's table of request→reply calls awaiting the editor's answer.
pub struct WindowScriptState<S> {
    reply_senders: HashMap<u64, S>,
    last_given_id: u64,
}

impl<S> WindowScriptState<S> {
    /// The reply slots, by correlation id.
    pub closed spec fn pending(&self) -> Map<u64, S> {
        self.reply_senders@
    }

    /// The next correlation id to give out.
    pub closed spec fn next_id(&self) -> u64 {
        self.last_given_id
    }

    /// Every pending id was given out before: ids still to come are fresh.
    pub open spec fn wf(&self) -> bool {
        forall|id: u64| #[trigger] self.pending().contains_key(id) ==> id < self.next_id()
    }

    /// A table with nothing pending.
    pub fn new() -> (r: WindowScriptState<S>)
        ensures
            r.wf(),
            r.pending() == Map::<u64, S>::empty(),
            r.next_id() == 0,
    {
        WindowScriptState { reply_senders: HashMap::new(), last_given_id: 0 }
    }

    /// Gives out the next correlation id and files `slot` under it; `None`
    /// once every id has been given out.
    pub fn register(&mut self, slot: S) -> (r: Option<u64>)
        requires
            old(self).wf(),
        ensures
            final(self).wf(),
            match r {
                Some(id) => {
                    &&& id == old(self).next_id()
                    &&& final(self).next_id() == old(self).next_id() + 1
                    &&& !old(self).pending().contains_key(id)
                    &&& final(self).pending() == old(self).pending().insert(id, slot)
                },
                None => {
                    &&& old(self).next_id() == u64::MAX
                    &&& *final(self) == *old(self)
                },
            },
    {
        let id = self.last_given_id;
        if id == u64::MAX {
            return None;
        }
        self.last_given_id = id + 1;
        self.reply_senders.insert(id, slot);
        proof {
            assert forall|k: u64| #[trigger] self.pending().contains_key(k) implies k
                < self.next_id() by {
                if k != id {
                    assert(old(self).pending().contains_key(k));
                }
            }
        }
        Some(id)
    }

    /// Takes out the slot filed under `id`; each slot is taken at most once.
    pub fn take_reply_slot(&mut self, id: u64) -> (r: Option<S>)
        requires
            old(self).wf(),
        ensures
            final(self).wf(),
            final(self).next_id() == old(self).next_id(),
            final(self).pending() == old(self).pending().remove(id),
            match r {
                Some(s) => old(self).pending().contains_key(id) && s == old(self).pending()[id],
                None => !old(self).pending().contains_key(id),
            },
    {
        let r = self.reply_senders.remove(&id);
        proof {
            assert forall|k: u64| #[trigger] self.pending().contains_key(k) implies k
                < self.next_id() by {
                assert(old(self).pending().contains_key(k));
            }
        }
        r
    }

    /// Turns what a run sent into what the editor receives: a request with a
    /// reply slot gets the next correlation id and its slot is filed; a
    /// terminal error is handed back as `Err`.
    pub fn relay(&mut self, request: InternalScriptRunEditorRequest<S>) -> (r: Result<
        ScriptRunEditorRequest,
        String,
    >)
        requires
            old(self).wf(),
        ensures
            final(self).wf(),
            relayed(*old(self), *final(self), request, r),
    {
        match request {
            InternalScriptRunEditorRequest::Request(event) => Ok(
                ScriptRunEditorRequest { id: None, event },
            ),
            InternalScriptRunEditorRequest::RequestWithResponse { event, reply_sender } => {
                match self.register(reply_sender) {
                    Some(id) => Ok(ScriptRunEditorRequest { id: Some(id), event }),
                    None => Err(String::from_str("No correlation id is left for this window")),
                }
            },
            InternalScriptRunEditorRequest::Error(e) => Err(e),
        }
    }

    /// Matches the editor's reply with the call awaiting it: the slot filed
    /// under the reply's id, and what to put in it (the payload, else the
    /// error, else a note that the reply was empty). Fails where no call awaits
    /// that id.
    pub fn accept_reply(&mut self, reply: ScriptRunEditorResponse) -> (r: Result<
        (S, Result<InternalScriptRunEditorResponse, String>),
        String,
    >)
        requires
            old(self).wf(),
        ensures
            reply_accepted(*old(self), *final(self), reply, r),
    {
        match self.take_reply_slot(reply.id) {
            None => Err(String::from_str("No reply sender found for the given id")),
            Some(slot) => {
                let payload = match reply.event {
                    Some(e) => Ok(e),
                    None => match reply.error {
                        Some(m) => Err(m),
                        None => Err(String::from_str("Received an empty response")),
                    },
                };
                Ok((slot, payload))
            },
        }
    }
}

} // verus!
