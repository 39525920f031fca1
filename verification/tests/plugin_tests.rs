use cellguard::plugins::{CounterPlugin, PluginMessage, PluginReply, WasmCounterPlugin, WasmTransformerPlugin};

#[test]
fn test_counter_plugin_increments() {
    let mut plugin = CounterPlugin::default();
    let reply1 = plugin
        .handle_message(PluginMessage::Custom { kind: "inc".into(), payload: Vec::new() })
        .unwrap();
    let reply2 = plugin
        .handle_message(PluginMessage::Custom { kind: "inc".into(), payload: Vec::new() })
        .unwrap();
    match (reply1, reply2) {
        (PluginReply::Success(a), PluginReply::Success(b)) => {
            assert_eq!(a, b"1");
            assert_eq!(b, b"2");
        }
        other => panic!("unexpected replies: {:?}", other),
    }
}

#[test]
fn test_wasm_counter_plugin_increments() {
    let mut plugin = WasmCounterPlugin::default();
    let _ = plugin.handle_message(PluginMessage::Custom { kind: "inc".into(), payload: Vec::new() });
    let reply2 = plugin
        .handle_message(PluginMessage::Custom { kind: "inc".into(), payload: Vec::new() })
        .unwrap();
    match reply2 {
        PluginReply::Success(b) => assert_eq!(b, b"2"),
        PluginReply::Failure(err) => panic!("{}", err),
    }
}

#[test]
fn test_wasm_transformer_plugin_adds_one() {
    let mut plugin = WasmTransformerPlugin;
    let reply = plugin
        .handle_message(PluginMessage::Custom { kind: "transform".into(), payload: b"abc".to_vec() })
        .unwrap();
    match reply {
        PluginReply::Success(data) => assert_eq!(data, b"bcd"),
        PluginReply::Failure(err) => panic!("{}", err),
    }
}

#[test]
fn transformer_wraps_at_255() {
    let mut plugin = WasmTransformerPlugin::default();
    match plugin.handle_message(PluginMessage::Custom { kind: "t".into(), payload: vec![255, 0, 9] }).unwrap() {
        PluginReply::Success(data) => assert_eq!(data, vec![0, 1, 10]),
        PluginReply::Failure(err) => panic!("{}", err),
    }
}

#[test]
fn counter_reaches_two_digits_and_clones_its_count() {
    let mut plugin = CounterPlugin::new();
    let mut last = Vec::new();
    for _ in 0..12 {
        if let PluginReply::Success(b) =
            plugin.handle_message(PluginMessage::Custom { kind: "inc".into(), payload: Vec::new() }).unwrap()
        {
            last = b;
        }
    }
    assert_eq!(last, b"12");
    let mut copy = plugin.clone_box();
    match copy.handle_message(PluginMessage::Custom { kind: "inc".into(), payload: Vec::new() }).unwrap() {
        PluginReply::Success(b) => assert_eq!(b, b"13"),
        PluginReply::Failure(err) => panic!("{}", err),
    }
    assert_eq!(plugin.id(), "counter");
    assert_eq!(plugin.version(), "0.1.0");
}
