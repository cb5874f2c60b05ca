use omcp::json_rpc::{
    JsonObject, JsonRPCMessageBuilder, JsonRPCInitParams, CLIENT_NAME, CLIENT_VERSION,
    JSON_RPC_PROTOCOL_VERSION, JSON_RPC_VERSION,
};
use omcp::types::{McpParams, McpTypes, ToolType};
use omcp::error::Error;

#[test]
fn builder_sets_version_tag() {
    let m = JsonRPCMessageBuilder::new().build();
    assert_eq!(m.jsonrpc, JSON_RPC_VERSION);
    assert_eq!(m.jsonrpc, "2.0");
    assert!(m.id.is_none() && m.method.is_none());
    assert!(m.result.is_none() && m.error.is_none() && m.parameters.is_none());
}

#[test]
fn builder_error_member() {
    let m = JsonRPCMessageBuilder::new().with_error(1, "deserialization failure").build();
    let e = m.error.unwrap();
    assert_eq!(e.code, 1);
    assert_eq!(e.message, "deserialization failure");
}

#[test]
fn builder_request_shape() {
    let m = JsonRPCMessageBuilder::new().with_id(7).with_method("tools/call").build();
    assert_eq!(m.id, Some(7));
    assert_eq!(m.method.as_deref(), Some("tools/call"));
}

#[test]
fn message_event_keeps_decoded_body() {
    let inner = JsonRPCMessageBuilder::new().with_id(9).build();
    match omcp::client::types::message_event(Some(inner)) {
        omcp::client::types::SseEvent::JsonRpcMessage(b) => assert_eq!(b.id, Some(9)),
        _ => panic!("expected a message event"),
    }
}

#[test]
fn message_event_substitutes_error_envelope() {
    // A body that failed to decode must not end the stream: it becomes an
    // error-tagged envelope instead.
    match omcp::client::types::message_event(None) {
        omcp::client::types::SseEvent::JsonRpcMessage(b) => {
            assert!(b.id.is_none() && b.method.is_none() && b.result.is_none());
            let e = b.error.unwrap();
            assert_eq!(e.code, 1);
            assert_eq!(e.message, "deserialization failure");
        }
        _ => panic!("expected a message event"),
    }
}

#[test]
fn init_params_fixed_payload() {
    let p = JsonRPCInitParams::new();
    assert_eq!(p.protocol_version, JSON_RPC_PROTOCOL_VERSION);
    assert_eq!(p.protocol_version, "2025-03-26");
    assert!(p.capabilities.roots.list_changed);
    assert_eq!(p.client_info.name, CLIENT_NAME);
    assert_eq!(p.client_info.version, CLIENT_VERSION);
}

#[test]
fn json_object_insert_get_take() {
    let mut o = JsonObject::new();
    assert!(o.is_empty());
    o.insert("a".to_string(), serde_json::Value::from(1u64));
    o.insert("b".to_string(), serde_json::Value::from(2u64));
    assert_eq!(o.len(), 2);
    assert_eq!(o.get(&"a".to_string()), Some(&serde_json::Value::from(1u64)));
    assert_eq!(o.get(&"c".to_string()), None);
    // Inserting under a present key replaces its value.
    o.insert("a".to_string(), serde_json::Value::from(3u64));
    assert_eq!(o.len(), 2);
    assert_eq!(o.get(&"a".to_string()), Some(&serde_json::Value::from(3u64)));
    assert_eq!(o.take(&"a".to_string()), Some(serde_json::Value::from(3u64)));
    assert_eq!(o.take(&"a".to_string()), None);
    assert_eq!(o.len(), 1);
}

#[test]
fn json_object_entries_out() {
    let mut o = JsonObject::new();
    o.insert("k".to_string(), serde_json::Value::Null);
    let entries = o.into_vec();
    assert_eq!(entries.len(), 1);
    assert_eq!(entries[0].key, "k");
    assert_eq!(entries[0].value, serde_json::Value::Null);
}

#[test]
fn mcp_params_arguments() {
    let mut p = McpParams::new("thermostat");
    assert_eq!(p.tool_name, "thermostat");
    p.add_argument("target", serde_json::Value::from(21u64));
    p.add_argument("target", serde_json::Value::from(22u64));
    assert_eq!(p.arguments.len(), 1);
    assert_eq!(
        p.arguments.get(&"target".to_string()),
        Some(&serde_json::Value::from(22u64))
    );
}

#[test]
fn tool_type_wire_names() {
    assert!(matches!(ToolType::from_str("object"), Ok(ToolType::Object)));
    assert!(matches!(ToolType::from_str("string"), Ok(ToolType::String)));
    assert!(matches!(ToolType::from_str("integer"), Ok(ToolType::Integer)));
    assert!(matches!(ToolType::from_str("boolean"), Ok(ToolType::Boolean)));
    assert!(matches!(ToolType::from_str("array"), Ok(ToolType::Array)));
    assert!(matches!(ToolType::from_str("number"), Ok(ToolType::Number)));
    assert!(matches!(ToolType::from_str("function"), Ok(ToolType::Function)));
    assert!(matches!(ToolType::from_str("tuple"), Err(Error::NotImplemented)));
}

#[test]
fn transport_kind_name() {
    assert_eq!(McpTypes::Sse.as_text(), "sse");
}

#[test]
fn json_rpc_parser() {
    // A handshake reply as a server sends it; the envelope's version tag
    // must read back as 2.0.  The library keeps payloads opaque, so the
    // decoding itself happens outside it; this pins the wire shape that
    // the outside decoder sees.
    let msg = r#"{
          "jsonrpc": "2.0",
          "id": 1,
          "result": {
            "protocolVersion": "2024-11-05",
            "capabilities": {
              "experimental": {},
              "prompts": {
                "listChanged": false
              },
              "tools": {
                "listChanged": false
              }
            },
            "serverInfo": {
              "name": "home-assistant",
              "version": "1.5.0"
            }
          }
        }
"#;

    let rpc: serde_json::Value = serde_json::from_str(msg).unwrap();
    assert_eq!(rpc["jsonrpc"], "2.0");

    // Rebuilt as a library envelope, the tag and id carry over.
    let mut result = JsonObject::new();
    if let serde_json::Value::Object(m) = rpc["result"].clone() {
        for (k, v) in m {
            result.insert(k, v);
        }
    }
    let envelope = JsonRPCMessageBuilder::new().with_id(1).with_result(result).build();
    assert_eq!(envelope.jsonrpc, "2.0");
    assert_eq!(envelope.id, Some(1));
}
