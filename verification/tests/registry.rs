use toolloop::chat::{Chat, Message, Role, TurnOutcome};
use toolloop::function::{
    ArgShape, CallableFunctionList, DispatchError, FunctionCall, RegistryError, ToolArgs,
};
use toolloop::json::{FieldValue, JsonField, JsonObject};

fn call(name: &str, arguments: &str) -> FunctionCall {
    FunctionCall { name: name.to_string(), arguments: arguments.to_string() }
}

#[test]
fn unit_type_args() {
    let mut list = CallableFunctionList::new();
    list.add_function("unit_test", "unit test function", ArgShape::Unit).unwrap();

    let mut chat = Chat::new("model".to_string(), list);
    let reply = Message {
        role: Role::Assistant,
        content: None,
        name: None,
        function_call: Some(call("unit_test", "{}")),
    };
    let pending = match chat.handle_model_reply(reply) {
        TurnOutcome::Invoke(p) => p,
        _ => panic!("expected an invocation"),
    };
    assert!(matches!(pending.args, ToolArgs::NoArgs));

    // The host function: |_: ()| FuncResult { message: "Hello" }.
    let output = JsonObject {
        fields: vec![JsonField {
            key: "message".to_string(),
            value: FieldValue::Str("Hello".to_string()),
        }],
    };
    chat.push_tool_message(pending.name, output);
    let message = chat.messages.last().unwrap();
    assert_eq!(message.content.clone().unwrap(), r#"{"message":"Hello"}"#);
}

#[test]
fn duplicate_registration_is_rejected() {
    let mut list = CallableFunctionList::new();
    list.add_function("tool", "first", ArgShape::Unit).unwrap();
    let second = list.add_function("tool", "second", ArgShape::WriteFile);
    assert!(matches!(second, Err(RegistryError::DuplicateName)));
    // Different shapes do not make the collision acceptable either way round.
    let mut other = CallableFunctionList::new();
    other.add_function("tool", "first", ArgShape::ReadFile).unwrap();
    assert!(matches!(other.add_function("tool", "second", ArgShape::Unit), Err(_)));
}

#[test]
fn unknown_name_is_not_found() {
    let mut list = CallableFunctionList::new();
    list.add_function("known", "a tool", ArgShape::Unit).unwrap();
    let r = list.dispatch(&call("unknown", "{}"));
    assert!(matches!(r, Err(DispatchError::FunctionNotFound)));
}

#[test]
fn unit_tool_ignores_payload() {
    let mut list = CallableFunctionList::new();
    list.add_function("noargs", "a tool", ArgShape::Unit).unwrap();
    for payload in ["{}", "", "garbage !!!", r#"{"x": 3}"#] {
        let r = list.dispatch(&call("noargs", payload));
        let p = r.unwrap();
        assert_eq!(p.name, "noargs");
        assert!(matches!(p.args, ToolArgs::NoArgs));
    }
}

#[test]
fn bad_arguments_do_not_reach_the_host() {
    let mut list = CallableFunctionList::new();
    list.add_function("read", "reads", ArgShape::ReadFile).unwrap();
    list.add_function("write", "writes", ArgShape::WriteFile).unwrap();
    for payload in ["not json", "{", r#"{"path": 3}"#, "{}", r#"{"wrong":"key"}"#, r#"{"path":"a","path":"b"}"#]
    {
        let r = list.dispatch(&call("read", payload));
        assert!(matches!(r, Err(DispatchError::Deserialize(_))));
    }
    for payload in ["null", r#"{"path":"a"}"#, r#"{"contents":"c"}"#] {
        let r = list.dispatch(&call("write", payload));
        assert!(matches!(r, Err(DispatchError::Deserialize(_))));
    }
}

#[test]
fn typed_dispatch_decodes_arguments() {
    let mut list = CallableFunctionList::new();
    list.add_function("read", "reads", ArgShape::ReadFile).unwrap();
    list.add_function("write", "writes", ArgShape::WriteFile).unwrap();

    let p = list.dispatch(&call("read", r#" { "path" : "src/main.rs" } "#)).unwrap();
    match p.args {
        ToolArgs::Read(a) => assert_eq!(a.path, "src/main.rs"),
        _ => panic!("expected read arguments"),
    }

    let p = list
        .dispatch(&call("write", r#"{"path":"a.rs","contents":"fn main() {}\n"}"#))
        .unwrap();
    match p.args {
        ToolArgs::Write(a) => {
            assert_eq!(a.path, "a.rs");
            assert_eq!(a.contents, "fn main() {}\n");
        },
        _ => panic!("expected write arguments"),
    }
}

#[test]
fn definitions_keep_registration_order_and_schemas() {
    let mut list = CallableFunctionList::new();
    list.add_function("src_list_files", "lists", ArgShape::Unit).unwrap();
    list.add_function("src_read_file", "reads", ArgShape::ReadFile).unwrap();
    list.add_function("dst_write_file", "writes", ArgShape::WriteFile).unwrap();
    let defs = list.function_definitions();
    assert_eq!(defs.len(), 3);
    assert_eq!(defs[0].name, "src_list_files");
    assert_eq!(defs[0].description, "lists");
    assert!(defs[0].parameters.is_none());
    assert_eq!(defs[1].name, "src_read_file");
    assert_eq!(
        defs[1].parameters.clone().unwrap(),
        r#"{"type":"object","required":["path"],"properties":{"path":{"description":"a relative path to the file in the project directory","type":"string"}}}"#
    );
    assert_eq!(
        defs[2].parameters.clone().unwrap(),
        r#"{"type":"object","required":["path","contents"],"properties":{"path":{"description":"a relative path to the file in the project directory","type":"string"},"contents":{"description":"new contents of a file","type":"string"}}}"#
    );
}
