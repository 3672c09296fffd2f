use wsdf::expand::{protocol, version};

/// The expansion of a plugin declaring `version!("0.0.1", 4, 4)` and `protocol!(TestPlugin)`.
fn simple_plugin_expansion() -> String {
    let mut expanded = version("0.0.1", "4", "4", None);
    expanded.push_str(&protocol(&vec!["TestPlugin".to_string()]));
    expanded
}

fn assert_wireshark_api(expanded: &str, symbol: &str) {
    assert!(
        expanded.contains(symbol),
        "Missing required Wireshark cAPI: {}()\n",
        symbol
    );
}

#[test]
fn test_plugin_registration_capi() {
    let expanded = simple_plugin_expansion();

    // Minimally required plugin registration symbols such that a dylib
    // can be recognised as a plugin
    assert_wireshark_api(&expanded, "plugin_register");
    assert_wireshark_api(&expanded, "plugin_want_major");
    assert_wireshark_api(&expanded, "plugin_want_minor");
    assert_wireshark_api(&expanded, "plugin_register");
    assert_wireshark_api(&expanded, "plugin_describe");
    assert_wireshark_api(&expanded, "proto_register_plugin");
}

#[test]
fn test_protocol_registration_capi() {
    let expanded = simple_plugin_expansion();

    // Minimally required protocol registration symbols
    assert_wireshark_api(&expanded, "register_protoinfo");
    assert_wireshark_api(&expanded, "register_handoff");
}
