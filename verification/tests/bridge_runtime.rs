use service_fabric::bridge::{
    compile_dsl, initialize_ocaml_bridge, parse_dsl, BridgeError, CompileRequest, CompileTarget,
    FfiValue, OcamlBridge, PersonalityData, TraitData,
};

fn personality(name: &str, traits: Vec<TraitData>) -> PersonalityData {
    PersonalityData {
        name: name.to_string(),
        traits,
        knowledge: vec![],
        behaviors: vec![],
        evolution: vec![],
    }
}

#[test]
fn test_bridge_initialization() {
    let bridge = OcamlBridge::new();
    assert!(!bridge.is_initialized());
}

#[test]
fn test_validation() {
    let personality = personality(
        "Test",
        vec![TraitData {
            name: "test_trait".to_string(),
            strength_milli: 1500,
            modifiers: vec![],
        }],
    );

    let mut bridge = OcamlBridge::new();
    bridge.initialize().unwrap();
    let warnings = bridge.validate_personality(&personality).unwrap();
    assert!(!warnings.is_empty());
}

#[test]
fn test_validator_exact_warnings() {
    let p = personality(
        "",
        vec![TraitData { name: "t".to_string(), strength_milli: 1500, modifiers: vec![] }],
    );
    let mut bridge = OcamlBridge::new();
    bridge.initialize().unwrap();
    let warnings = bridge.validate_personality(&p).unwrap();
    assert_eq!(warnings.len(), 2);
    assert_eq!(warnings[0], "Personality name is empty");
    assert_eq!(warnings[1], "Trait t has invalid strength: 1.5");
}

#[test]
fn test_validator_strength_rendering() {
    let p = personality(
        "ok",
        vec![
            TraitData { name: "a".to_string(), strength_milli: -250, modifiers: vec![] },
            TraitData { name: "b".to_string(), strength_milli: 2000, modifiers: vec![] },
            TraitData { name: "c".to_string(), strength_milli: 1001, modifiers: vec![] },
            TraitData { name: "fine".to_string(), strength_milli: 850, modifiers: vec![] },
        ],
    );
    let mut bridge = OcamlBridge::new();
    bridge.initialize().unwrap();
    let warnings = bridge.validate_personality(&p).unwrap();
    assert_eq!(warnings.len(), 3);
    assert_eq!(warnings[0], "Trait a has invalid strength: -0.25");
    assert_eq!(warnings[1], "Trait b has invalid strength: 2");
    assert_eq!(warnings[2], "Trait c has invalid strength: 1.001");
}

#[test]
fn test_ffi_error_handling() {
    let bridge = OcamlBridge::new();

    for _ in 0..100 {
        let _result = bridge.validate_personality(&personality("test", vec![]));
    }

    assert!(!bridge.is_initialized() || bridge.is_initialized());
}

#[test]
fn test_error_propagation() {
    let bridge = OcamlBridge::new();

    assert!(!bridge.is_initialized());

    let result = bridge.parse_personality("test", None);
    assert!(result.is_err());
    match result.unwrap_err() {
        BridgeError::RuntimeNotInitialized => {}
        _ => panic!("Expected RuntimeNotInitialized error"),
    }
}

#[test]
fn test_lifecycle_flag() {
    let mut bridge = OcamlBridge::new();
    initialize_ocaml_bridge(&mut bridge).unwrap();
    assert!(bridge.is_initialized());
    assert_eq!(bridge.get_parser_version().unwrap(), "0.1.0");

    bridge.cleanup().unwrap();
    assert!(!bridge.is_initialized());
    assert!(matches!(
        bridge.get_parser_version(),
        Err(BridgeError::RuntimeNotInitialized)
    ));
}

#[test]
fn test_parse_call_preparation() {
    let mut bridge = OcamlBridge::new();
    bridge.initialize().unwrap();

    let call = parse_dsl(&bridge, "personality \"A\" {}", Some("a.dsl")).unwrap();
    assert_eq!(call.content, "personality \"A\" {}");
    assert_eq!(call.filename, "a.dsl");

    let call = parse_dsl(&bridge, "x", None).unwrap();
    assert_eq!(call.filename, "<string>");
}

#[test]
fn test_compile_call_preparation() {
    let mut bridge = OcamlBridge::new();
    bridge.initialize().unwrap();

    let request = CompileRequest {
        personality: personality("A", vec![]),
        target: CompileTarget::Lua,
        context: Some("ctx".to_string()),
    };
    let call = compile_dsl(&bridge, &request).unwrap();
    assert_eq!(call.target, "Lua");
    assert_eq!(call.context, Some("ctx".to_string()));

    let request = CompileRequest {
        personality: personality("A", vec![]),
        target: CompileTarget::Cypher,
        context: None,
    };
    let call = compile_dsl(&bridge, &request).unwrap();
    assert_eq!(call.target, "Cypher");
    assert_eq!(call.context, None);
}

#[test]
fn test_marshal_parse_success() {
    let bridge = OcamlBridge::new();
    // a success reply: tag 0, carrying a personality record whose
    // first field is its name
    let reply = FfiValue::Block(0, vec![FfiValue::Block(0, vec![FfiValue::Str("Zed".to_string())])]);
    let parsed = bridge.convert_parse_result(&reply).unwrap();
    assert!(parsed.success);
    assert_eq!(parsed.personality.unwrap().name, "Zed");
    assert!(parsed.errors.is_empty());
    assert!(parsed.warnings.is_empty());
}

#[test]
fn test_marshal_parse_failure_list() {
    let bridge = OcamlBridge::new();
    // a failure reply: tag 1, carrying a two-element error list
    let nil = FfiValue::Block(0, vec![]);
    let second = FfiValue::Block(
        1,
        vec![FfiValue::Block(0, vec![FfiValue::Str("bad trait".to_string())]), nil],
    );
    let list = FfiValue::Block(
        1,
        vec![FfiValue::Block(0, vec![FfiValue::Str("boom".to_string())]), second],
    );
    let reply = FfiValue::Block(1, vec![list]);

    let parsed = bridge.convert_parse_result(&reply).unwrap();
    assert!(!parsed.success);
    assert!(parsed.personality.is_none());
    assert_eq!(parsed.errors.len(), 2);
    assert_eq!(parsed.errors[0].message, "boom");
    assert_eq!(parsed.errors[1].message, "bad trait");
    assert_eq!(parsed.errors[0].line, 1);
    assert_eq!(parsed.errors[0].column, 1);
    assert_eq!(parsed.errors[0].filename, "<unknown>");
}

#[test]
fn test_marshal_wrong_shape() {
    let bridge = OcamlBridge::new();
    // a success reply without a readable personality name
    let reply = FfiValue::Block(0, vec![FfiValue::Block(0, vec![])]);
    match bridge.convert_parse_result(&reply) {
        Err(BridgeError::FfiError(m)) => assert_eq!(m, "Failed to extract personality name"),
        other => panic!("expected FfiError, got {:?}", other.map(|_| ())),
    }
    // a failure reply whose error list is malformed
    let reply = FfiValue::Block(1, vec![FfiValue::Block(1, vec![FfiValue::Str("no rest".to_string())])]);
    match bridge.convert_parse_result(&reply) {
        Err(BridgeError::FfiError(m)) => assert_eq!(m, "Failed to extract error message"),
        other => panic!("expected FfiError, got {:?}", other.map(|_| ())),
    }
}

#[test]
fn test_marshal_compile_result() {
    let bridge = OcamlBridge::new();

    let ok = FfiValue::Block(0, vec![FfiValue::Str("return {}".to_string())]);
    let compiled = bridge.convert_compile_result(&ok).unwrap();
    assert!(compiled.success);
    assert_eq!(compiled.output, Some("return {}".to_string()));
    assert!(compiled.errors.is_empty());

    let failed = FfiValue::Block(1, vec![]);
    let compiled = bridge.convert_compile_result(&failed).unwrap();
    assert!(!compiled.success);
    assert_eq!(compiled.output, None);
    assert_eq!(compiled.errors, vec!["Compilation failed".to_string()]);
}
