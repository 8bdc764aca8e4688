use crabsoup::base::{chunk_name, OpaqueKey, PluginInstruction};

#[test]
fn chunk_names() {
    assert_eq!(chunk_name("print(1)", None), "print(1)");
    assert_eq!(chunk_name("print(1)", Some("main")), "main");
    let long = "a".repeat(41);
    assert_eq!(chunk_name(&long, None), format!("{}...", "a".repeat(40)));
    let exact = "b".repeat(40);
    assert_eq!(chunk_name(&exact, None), exact);
    let wide = "é".repeat(41);
    assert_eq!(chunk_name(&wide, None), format!("{}...", "é".repeat(40)));
}

#[test]
fn plugin_instructions() {
    let f = PluginInstruction::Fail("bad".to_string());
    let e = PluginInstruction::Exit("done".to_string());
    assert!(f.is_fail() && !f.is_exit());
    assert!(e.is_exit() && !e.is_fail());
    assert_eq!(f.get_message(), "bad");
    assert_eq!(e.get_message(), "done");
    let _key = OpaqueKey::new();
}
