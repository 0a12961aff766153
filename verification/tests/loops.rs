use toolloop::chat::{Chat, Message, Role, TurnOutcome};
use toolloop::convergence::{analysis_instruction, system_prompt, Convergence};
use toolloop::function::{ArgShape, CallableFunctionList, FunctionCall, ToolArgs};
use toolloop::project::Project;

fn assistant(content: Option<&str>, call: Option<(&str, &str)>) -> Message {
    Message {
        role: Role::Assistant,
        content: content.map(|s| s.to_string()),
        name: None,
        function_call: call.map(|(n, a)| FunctionCall {
            name: n.to_string(),
            arguments: a.to_string(),
        }),
    }
}

#[test]
fn conversation_loop_ends_exactly_without_invocation() {
    let mut list = CallableFunctionList::new();
    list.add_function("dst_read_file", "reads a file", ArgShape::ReadFile).unwrap();
    let mut chat = Chat::new("model".to_string(), list);
    chat.reset_with_system(system_prompt());
    chat.push_user_message(analysis_instruction());
    assert_eq!(chat.messages.len(), 2);

    // As long as replies carry invocations, the loop keeps dispatching.
    for _ in 0..3 {
        let reply = assistant(None, Some(("dst_read_file", r#"{"path":"lib.rs"}"#)));
        let outcome = chat.handle_model_reply(reply);
        let pending = match outcome {
            TurnOutcome::Invoke(p) => p,
            _ => panic!("an invocation must keep the loop running"),
        };
        assert_eq!(pending.name, "dst_read_file");
        match &pending.args {
            ToolArgs::Read(a) => assert_eq!(a.path, "lib.rs"),
            _ => panic!("expected read arguments"),
        }
        let project = Project::new("dst".to_string());
        let result = project.read_file("lib.rs", Some("mod a;".to_string()));
        chat.push_tool_message(pending.name, result.to_json());
        let tool_message = chat.messages.last().unwrap();
        assert!(matches!(tool_message.role, Role::Function));
        assert_eq!(tool_message.name.clone().unwrap(), "dst_read_file");
        assert_eq!(
            tool_message.content.clone().unwrap(),
            r#"{"error":null,"contents":"mod a;"}"#
        );
    }

    // A reply without an invocation ends the loop, and only such a reply.
    let outcome = chat.handle_model_reply(assistant(Some("done"), None));
    assert!(matches!(outcome, TurnOutcome::Done));
    assert_eq!(chat.messages.len(), 9);
}

#[test]
fn dispatch_failure_is_fatal_to_the_turn() {
    let mut list = CallableFunctionList::new();
    list.add_function("dst_read_file", "reads a file", ArgShape::ReadFile).unwrap();
    let mut chat = Chat::new("model".to_string(), list);
    let outcome = chat.handle_model_reply(assistant(None, Some(("nonexistent", "{}"))));
    assert!(matches!(outcome, TurnOutcome::Failed(_)));
    // The reply itself still stands in the transcript.
    assert_eq!(chat.messages.len(), 1);
}

#[test]
fn convergence_stops_on_first_unmutated_turn() {
    let mut cycle = Convergence::new();
    assert_eq!(
        cycle.instruction(),
        "Now create Rust project in the destination project directory so that it matches the implementation in the source project directory."
    );

    // First turn mutates; the build check reports diagnostics; go again.
    assert!(cycle.turn_ended(true));
    assert!(cycle.check_ended(Some("error[E0308]: mismatched types".to_string())));
    assert_eq!(
        cycle.instruction(),
        "Apparently there are some problems with the code. Please correct them. Here is the `cargo check` output:\nerror[E0308]: mismatched types"
    );

    // Second turn mutates again and the check comes back clean: stop.
    assert!(cycle.turn_ended(true));
    assert!(!cycle.check_ended(None));

    // A turn without mutation stops at once, even after turns that mutated.
    let mut other = Convergence::new();
    assert!(other.turn_ended(true));
    assert!(other.check_ended(Some("diagnostics".to_string())));
    assert!(!other.turn_ended(false));
}
