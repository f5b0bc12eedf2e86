use localcoder::json::Json;
use localcoder::tools::{EchoTool, Tool, ToolError, ToolRegistry};

fn json(text: &str) -> Json {
    Json::parse(text).unwrap()
}

struct Named(&'static str, &'static str);

impl Tool for Named {
    fn name(&self) -> &str {
        self.0
    }
    fn description(&self) -> &str {
        self.1
    }
    fn schema(&self) -> Json {
        Json::Null
    }
    fn execute(&self, _input: Json) -> Result<String, ToolError<String>> {
        Ok(self.1.to_string())
    }
}

#[test]
fn echo_tool_returns_input_text() {
    let tool = EchoTool;
    let result = tool.execute(json("{\"text\": \"hello world\"}")).unwrap();
    assert_eq!(result, "hello world");
}

#[test]
fn echo_tool_errors_on_missing_text() {
    let tool = EchoTool;
    let result = tool.execute(json("{}"));
    assert!(result.is_err());
    assert!(result.unwrap_err().message().contains("text"));
}

#[test]
fn echo_tool_name() {
    assert_eq!(Tool::name(&EchoTool), "echo_tool");
}

#[test]
fn echo_tool_schema_has_required_text() {
    let schema = Tool::schema(&EchoTool);
    assert_eq!(schema.str_at("type"), Some("object"));
    let properties = schema.get("properties").unwrap();
    assert!(matches!(properties.get("text"), Some(Json::Object(_))));
    match schema.get("required") {
        Some(Json::Array(required)) => {
            assert!(required.iter().any(|v| v.as_str() == Some("text")))
        }
        _ => panic!("expected an array"),
    }
}

#[test]
fn new_registry_is_empty() {
    let r = ToolRegistry::<EchoTool>::new();
    assert!(r.is_empty());
    assert_eq!(r.len(), 0);
}

#[test]
fn register_increments_len() {
    let mut r = ToolRegistry::new();
    r.register(EchoTool);
    assert_eq!(r.len(), 1);
    assert!(!r.is_empty());
}

#[test]
fn register_same_name_overwrites() {
    let mut r = ToolRegistry::new();
    r.register(EchoTool);
    r.register(EchoTool);
    assert_eq!(r.len(), 1);
}

#[test]
fn names_returns_sorted_names() {
    let mut r = ToolRegistry::new();
    r.register(EchoTool);
    assert_eq!(r.names(), vec!["echo_tool"]);
}

#[test]
fn get_schemas_includes_name_and_description() {
    let mut r = ToolRegistry::new();
    r.register(EchoTool);
    let schemas = r.get_schemas();
    assert_eq!(schemas.len(), 1);
    assert_eq!(schemas[0].str_at("type"), Some("function"));
    let function = schemas[0].get("function").unwrap();
    assert_eq!(function.str_at("name"), Some("echo_tool"));
    assert!(matches!(function.get("description"), Some(Json::Text(_))));
    assert!(matches!(function.get("parameters"), Some(Json::Object(_))));
}

#[test]
fn execute_known_tool_succeeds() {
    let mut r = ToolRegistry::new();
    r.register(EchoTool);
    let result = r.execute("echo_tool", json("{\"text\": \"ping\"}")).unwrap();
    assert_eq!(result, "ping");
}

#[test]
fn execute_unknown_tool_errors() {
    let r = ToolRegistry::<EchoTool>::new();
    let result = r.execute("nonexistent", json("{}"));
    assert!(result.is_err());
    let message = result.unwrap_err().message();
    assert!(message.contains("unknown tool"));
    assert_eq!(message, "unknown tool: nonexistent");
}

#[test]
fn registry_keeps_the_last_of_a_name_and_sorts() {
    let mut r = ToolRegistry::new();
    r.register(Named("b", "first"));
    r.register(Named("a", "other"));
    r.register(Named("b", "second"));
    assert_eq!(r.names(), vec!["a", "b"]);
    assert_eq!(r.len(), 2);
    assert_eq!(r.execute("b", Json::Null).unwrap(), "second");
    let schemas = r.get_schemas();
    assert_eq!(
        schemas[0].get("function").unwrap().str_at("description"),
        Some("other")
    );
    assert_eq!(
        schemas[1].get("function").unwrap().str_at("description"),
        Some("second")
    );
}

#[test]
fn boxes_hold_tools_of_different_types() {
    let mut r: ToolRegistry<Box<dyn Tool>> = ToolRegistry::new();
    r.register(Box::new(Named("z", "last")));
    r.register(Box::new(EchoTool));
    assert_eq!(r.names(), vec!["echo_tool", "z"]);
    assert_eq!(r.execute("z", Json::Null).unwrap(), "last");
    assert_eq!(
        r.execute("echo_tool", json("{\"text\": \"x\"}")).unwrap(),
        "x"
    );
    let names: Vec<String> = r
        .get_schemas()
        .iter()
        .map(|schema| schema.get("function").unwrap().str_or_empty("name").to_string())
        .collect();
    assert_eq!(names, r.names());
}

#[test]
fn echo_tool_error_message() {
    let error = EchoTool.execute(json("{\"text\": 3}")).unwrap_err();
    assert_eq!(error.message(), "echo_tool: missing required field 'text'");
}
