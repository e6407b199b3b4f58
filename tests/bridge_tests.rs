use snip_scripts::bridge::{
    full_text_from_reply, op_base64_atob, op_base64_btoa, op_get_selection_state, partial_text_from_reply,
    partial_text_request, BridgeError, EditorHandle, HandleTable, InternalScriptRunEditorRequest,
    InternalScriptRunEditorResponse, ScriptRunEditorRequestEvent, ScriptRunEditorResponse, WindowScriptState,
};
use snip_scripts::model::{EditorSelection, EditorSelectionState, EditorState};

#[test]
fn uppercase_round_trip_through_the_bridge() {
    let mut window: WindowScriptState<u32> = WindowScriptState::new();
    let sent = window
        .relay(InternalScriptRunEditorRequest::RequestWithResponse {
            event: ScriptRunEditorRequestEvent::GetFullText,
            reply_sender: 7,
        })
        .ok()
        .unwrap();
    assert_eq!(sent.id, Some(0));
    assert!(matches!(sent.event, ScriptRunEditorRequestEvent::GetFullText));
    let (slot, payload) = window
        .accept_reply(ScriptRunEditorResponse {
            id: 0,
            error: None,
            event: Some(InternalScriptRunEditorResponse::GetFullText("hi".to_string())),
        })
        .ok()
        .unwrap();
    assert_eq!(slot, 7);
    let text = full_text_from_reply(Some(payload)).unwrap();
    assert_eq!(text, "hi");
    let upper = text.to_uppercase();
    let set = window
        .relay(InternalScriptRunEditorRequest::Request(ScriptRunEditorRequestEvent::SetFullText(upper)))
        .ok()
        .unwrap();
    assert_eq!(set.id, None);
    assert!(matches!(set.event, ScriptRunEditorRequestEvent::SetFullText(ref t) if t == "HI"));
}

#[test]
fn unanswered_call_fails_when_channel_closes() {
    assert_eq!(full_text_from_reply(None), Err(BridgeError::ChannelClosed));
    assert_eq!(partial_text_from_reply(None), Err(BridgeError::ChannelClosed));
}

#[test]
fn replies_are_checked_against_the_call() {
    assert_eq!(
        full_text_from_reply(Some(Ok(InternalScriptRunEditorResponse::GetPartialText("x".to_string())))),
        Err(BridgeError::IncorrectResponse)
    );
    assert_eq!(
        partial_text_from_reply(Some(Ok(InternalScriptRunEditorResponse::GetPartialText("x".to_string())))),
        Ok("x".to_string())
    );
    assert_eq!(full_text_from_reply(Some(Err("boom".to_string()))), Err(BridgeError::Editor("boom".to_string())));
}

#[test]
fn correlation_ids_increase_and_replies_are_taken_once() {
    let mut window: WindowScriptState<&str> = WindowScriptState::new();
    assert_eq!(window.register("a"), Some(0));
    assert_eq!(window.register("b"), Some(1));
    let reply = |id| ScriptRunEditorResponse { id, error: None, event: None };
    let (slot, payload) = window.accept_reply(reply(1)).ok().unwrap();
    assert_eq!(slot, "b");
    assert_eq!(payload.err(), Some("Received an empty response".to_string()));
    assert_eq!(window.accept_reply(reply(1)).err(), Some("No reply sender found for the given id".to_string()));
    let with_error = ScriptRunEditorResponse { id: 0, error: Some("bad".to_string()), event: None };
    let (slot, payload) = window.accept_reply(with_error).ok().unwrap();
    assert_eq!(slot, "a");
    assert_eq!(payload.err(), Some("bad".to_string()));
    assert_eq!(window.register("c"), Some(2));
    assert_eq!(window.take_reply_slot(2), Some("c"));
    assert_eq!(window.take_reply_slot(2), None);
}

#[test]
fn relay_passes_terminal_error_back() {
    let mut window: WindowScriptState<u8> = WindowScriptState::new();
    let r = window.relay(InternalScriptRunEditorRequest::Error("Uncaught error: x".to_string()));
    assert_eq!(r.err(), Some("Uncaught error: x".to_string()));
    assert_eq!(window.register(1), Some(0));
}

#[test]
fn partial_text_request_carries_bounds() {
    let e = partial_text_request(Some(2), Some(5));
    assert!(matches!(
        e,
        ScriptRunEditorRequestEvent::GetPartialText { start: Some(2), end: Some(5), selection_index: None }
    ));
    let open = partial_text_request(None, Some(5));
    assert!(matches!(
        open,
        ScriptRunEditorRequestEvent::GetPartialText { start: None, end: Some(5), selection_index: None }
    ));
}

#[test]
fn handle_table_rejects_unknown_handles() {
    let mut table: HandleTable<EditorHandle<u8>> = HandleTable::new();
    let state = EditorState {
        selection: EditorSelectionState {
            main_selection_index: 1,
            selections: vec![
                EditorSelection { anchor: 0, head: 2, text: Some("hi".to_string()) },
                EditorSelection { anchor: 3, head: 3, text: None },
            ],
        },
    };
    let h = table.add(EditorHandle { editor_request_channel: 9, editor_state: state });
    assert_eq!(h, 0);
    let s = op_get_selection_state(&table, h).ok().unwrap();
    assert_eq!(s.main_selection_index, 1);
    assert_eq!(s.selections.len(), 2);
    assert_eq!(s.selections[0].text, Some("hi".to_string()));
    assert_eq!(s.selections[1].anchor, 3);
    assert!(matches!(op_get_selection_state(&table, 5), Err(BridgeError::InvalidHandle)));
    assert!(matches!(table.get(1), Err(BridgeError::InvalidHandle)));
    assert_eq!(table.get(0).ok().unwrap().editor_request_channel, 9);
}

#[test]
fn base64_ops() {
    assert_eq!(op_base64_btoa(b"hi"), "aGk=");
    assert_eq!(op_base64_btoa(b""), "");
    assert_eq!(op_base64_atob(b"aGk="), Ok(b"hi".to_vec()));
    assert_eq!(op_base64_atob(b" aGk "), Ok(b"hi".to_vec()));
    assert_eq!(op_base64_atob(b"!!"), Err(BridgeError::InvalidBase64));
}
