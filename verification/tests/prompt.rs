use luai_orchestrator::prompt::{build_system_prompt, ToolDescription, OUTPUT_INSTRUCTIONS, SYSTEM_PREAMBLE};

#[test]
fn prompt_includes_tools() {
    let tools = vec![ToolDescription {
        name: "echo".into(),
        description: "Echoes the message back".into(),
        args: vec![("message".into(), "string to echo".into())],
        returns: vec![("message".into(), "the echoed string".into())],
    }];
    let prompt = build_system_prompt(&tools);
    assert!(prompt.contains("### `echo`"));
    assert!(prompt.contains("Echoes the message back"));
    assert!(prompt.contains("string to echo"));
}

#[test]
fn prompt_no_tools() {
    let prompt = build_system_prompt(&[]);
    assert!(!prompt.contains("## Available tools"));
    assert!(prompt.contains("You are a Lua program generator"));
}

#[test]
fn prompt_without_tools_is_preamble_and_instructions() {
    let prompt = build_system_prompt(&[]);
    assert_eq!(prompt, format!("{}{}", SYSTEM_PREAMBLE, OUTPUT_INSTRUCTIONS));
}

#[test]
fn prompt_tool_section_exact_text() {
    let tools = vec![
        ToolDescription {
            name: "add".into(),
            description: "Adds.".into(),
            args: vec![("a".into(), "first".into()), ("b".into(), "second".into())],
            returns: vec![],
        },
        ToolDescription { name: "now".into(), description: "Time.".into(), args: vec![], returns: vec![("t".into(), "secs".into())] },
    ];
    let prompt = build_system_prompt(&tools);
    let expected = format!(
        "{}\n## Available tools\n\nCall tools with: `tool.call(\"name\", {{arg1 = val1, ...}})`\nTool calls return a table with the result fields.\n\n### `add`\nAdds.\n**Args:**\n- `a` — first\n- `b` — second\n\n### `now`\nTime.\n**Returns:**\n- `t` — secs\n\n{}",
        SYSTEM_PREAMBLE, OUTPUT_INSTRUCTIONS
    );
    assert_eq!(prompt, expected);
}

#[test]
fn prompt_starts_and_ends_with_fixed_text() {
    let tools = vec![ToolDescription { name: "x".into(), description: "y".into(), args: vec![], returns: vec![] }];
    let prompt = build_system_prompt(&tools);
    assert!(prompt.starts_with(SYSTEM_PREAMBLE));
    assert!(prompt.ends_with(OUTPUT_INSTRUCTIONS));
    assert!(prompt.contains("Respond with ONLY the Lua program."));
}
