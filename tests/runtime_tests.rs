use snip_scripts::bridge::{InternalScriptRunEditorRequest, ScriptRunEditorRequestEvent, ScriptRunEditorResponse};
use snip_scripts::windows::{decimal_string, Windows};
use snip_scripts::engine::{advance, step_for, RunStage, RunStep, StepOutcome};
use snip_scripts::queue::{QueueRefusal, TaskQueue, WindowTask};
use snip_scripts::settings::{settings_default_preferred_language, settings_default_wrap_lines, theme_from_name, Settings, Theme};

#[test]
fn runs_start_in_submission_order_one_at_a_time() {
    let mut q: TaskQueue<&str> = TaskQueue::new(8);
    assert!(q.submit("first").is_ok());
    assert!(q.submit("second").is_ok());
    assert!(q.submit("third").is_ok());
    assert_eq!(q.start_next(), Some("first"));
    assert_eq!(q.start_next(), None);
    q.finish();
    assert_eq!(q.start_next(), Some("second"));
    q.finish();
    assert_eq!(q.start_next(), Some("third"));
    q.finish();
    assert_eq!(q.start_next(), None);
}

#[test]
fn full_and_closed_queues_refuse_tasks() {
    let mut q: TaskQueue<u32> = TaskQueue::new(1);
    assert!(q.submit(1).is_ok());
    assert!(matches!(q.submit(2), Err(QueueRefusal::Full(2))));
    assert!(q.accept(WindowTask::Close).is_ok());
    assert!(matches!(q.submit(3), Err(QueueRefusal::Closed(3))));
    assert_eq!(q.start_next(), None);
}

#[test]
fn run_lifecycle_succeeds_through_every_stage() {
    let mut stage = RunStage::Created;
    let mut steps = vec![];
    while let Some(step) = step_for(stage) {
        steps.push(step);
        let (next, err) = advance(stage, StepOutcome::Succeeded);
        assert!(err.is_none());
        stage = next;
    }
    assert_eq!(stage, RunStage::Completed);
    assert_eq!(
        steps,
        vec![
            RunStep::InitializeEngine,
            RunStep::AttachBridge,
            RunStep::LoadModule,
            RunStep::EvaluateModule,
            RunStep::InvokeDefaultExport,
            RunStep::DrainEventLoop,
            RunStep::Finish
        ]
    );
}

#[test]
fn run_failure_is_forwarded_once() {
    let (stage, err) = advance(RunStage::BridgeAttached, StepOutcome::Failed("Could not load module: x".to_string()));
    assert_eq!(stage, RunStage::Failed);
    assert_eq!(err, Some("Could not load module: x".to_string()));
    let (stage, err) = advance(stage, StepOutcome::Failed("again".to_string()));
    assert_eq!(stage, RunStage::Failed);
    assert_eq!(err, None);
    let (stage, err) = advance(RunStage::Evaluating, StepOutcome::DefaultExportNotCallable);
    assert_eq!(stage, RunStage::Failed);
    assert_eq!(err, Some("Module should contain a function as default export".to_string()));
}

#[test]
fn settings_defaults_and_theme_names() {
    assert_eq!(settings_default_preferred_language(), "markdown");
    assert!(!settings_default_wrap_lines());
    let s = Settings::default();
    assert_eq!(s.theme, Theme::System);
    assert_eq!(s.preferred_language, "markdown");
    assert!(!s.wrap_lines);
    assert_eq!(theme_from_name("Light"), Theme::Light);
    assert_eq!(theme_from_name("Dark"), Theme::Dark);
    assert_eq!(theme_from_name("dark"), Theme::System);
}

#[test]
fn windows_get_numbered_labels_and_their_own_request_tables() {
    let mut windows: Windows<&str, u8> = Windows::new();
    assert!(!windows.has_open());
    let first = windows.create_window("worker one").ok().unwrap();
    let second = windows.create_window("worker two").ok().unwrap();
    assert_eq!(first, "main_1");
    assert_eq!(second, "main_2");
    assert!(windows.has_open());
    assert_eq!(windows.handle("main_2"), Some(&"worker two"));
    assert_eq!(windows.handle("main_3"), None);
    let request = |slot| InternalScriptRunEditorRequest::RequestWithResponse {
        event: ScriptRunEditorRequestEvent::GetFullText,
        reply_sender: slot,
    };
    assert_eq!(windows.relay("main_1", request(1)).ok().unwrap().id, Some(0));
    assert_eq!(windows.relay("main_2", request(2)).ok().unwrap().id, Some(0));
    assert_eq!(windows.relay("main_1", request(3)).ok().unwrap().id, Some(1));
    assert!(windows.relay("main_9", request(4)).is_err());
    let reply = ScriptRunEditorResponse { id: 1, error: Some("x".to_string()), event: None };
    let (slot, _) = windows.accept_reply("main_1", reply).ok().unwrap();
    assert_eq!(slot, 3);
    assert_eq!(windows.destroy_window("main_1"), Some("worker one"));
    assert_eq!(windows.destroy_window("main_1"), None);
    assert_eq!(windows.handle("main_2"), Some(&"worker two"));
    assert_eq!(windows.destroy_window("main_2"), Some("worker two"));
    assert!(!windows.has_open());
    assert_eq!(decimal_string(0), "0");
    assert_eq!(decimal_string(4294967295), "4294967295");
    assert_eq!(windows.create_window("worker three").ok().unwrap(), "main_3");
}
