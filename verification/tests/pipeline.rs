use luai_orchestrator::pipeline::{
    format_error_for_retry, format_output, format_vm_error, PipelineError, PipelineResult, ToolCallRecord,
    ToolCallStatus, VmError, VmOutput,
};

// ── format_vm_error ──────────────────────────────────────────────

#[test]
fn format_error_gas() {
    let msg = format_vm_error(&VmError::GasExhausted);
    assert!(msg.contains("Gas limit exceeded"));
}

#[test]
fn format_error_memory() {
    let msg = format_vm_error(&VmError::MemoryExhausted);
    assert!(msg.contains("Memory limit exceeded"));
}

#[test]
fn format_error_depth() {
    let msg = format_vm_error(&VmError::CallDepthExceeded);
    assert!(msg.contains("Call depth exceeded"));
}

#[test]
fn format_error_type() {
    let msg = format_vm_error(&VmError::TypeError("bad type".into()));
    assert!(msg.contains("Type error: bad type"));
}

#[test]
fn format_error_tool() {
    let msg = format_vm_error(&VmError::ToolError("tool broke".into()));
    assert!(msg.contains("Tool error: tool broke"));
}

#[test]
fn format_error_output() {
    let msg = format_vm_error(&VmError::OutputExceeded);
    assert!(msg.contains("Output size exceeded"));
}

#[test]
fn format_error_with_line() {
    let inner = VmError::TypeError("oops".into());
    let msg = format_vm_error(&VmError::WithLine(42, Box::new(inner)));
    assert!(msg.contains("line 42"));
    assert!(msg.contains("Type error: oops"));
}

#[test]
fn format_error_exact_texts() {
    assert_eq!(format_vm_error(&VmError::GasExhausted), "Gas limit exceeded — program too expensive");
    assert_eq!(format_vm_error(&VmError::CallDepthExceeded), "Call depth exceeded — too much recursion");
    assert_eq!(format_vm_error(&VmError::RuntimeError("boom".into())), "Runtime error: boom");
    let nested = VmError::WithLine(7, Box::new(VmError::WithLine(1234567890, Box::new(VmError::OutputExceeded))));
    assert_eq!(format_vm_error(&nested), "Error at line 7: Error at line 1234567890: Output size exceeded");
    assert_eq!(
        format_vm_error(&VmError::WithLine(0, Box::new(VmError::MemoryExhausted))),
        "Error at line 0: Memory limit exceeded"
    );
}

#[test]
fn pipeline_error_messages() {
    assert_eq!(PipelineError::Parse("p".into()).message(), "Parse error: p");
    assert_eq!(PipelineError::Compile("c".into()).message(), "Compile error: c");
    assert_eq!(PipelineError::Verify("v".into()).message(), "Verify error: v");
    let e = PipelineError::runtime(VmError::ToolError("x".into()));
    assert_eq!(e.message(), "Runtime error: Tool error: x");
    assert!(matches!(e, PipelineError::Runtime(_, VmError::ToolError(_))));
}

// ── format_error_for_retry ───────────────────────────────────────

#[test]
fn retry_context_includes_source_and_error() {
    let err = PipelineError::Parse("unexpected token".into());
    let ctx = format_error_for_retry("return ???", &err);
    assert!(ctx.contains("return ???"));
    assert!(ctx.contains("Parse error"));
    assert!(ctx.contains("unexpected token"));
    assert!(ctx.contains("Please fix the program"));
}

#[test]
fn retry_context_exact_text() {
    let err = PipelineError::Verify("bad jump".into());
    let ctx = format_error_for_retry("x", &err);
    assert_eq!(
        ctx,
        "Your previous Lua program failed.\n\n## Previous program\n```lua\nx\n```\n\n## Error\nVerify error: bad jump\n\nPlease fix the program. Respond with ONLY the corrected Lua program."
    );
}

// ── format_output ────────────────────────────────────────────────

fn output(return_value: &str, logs: Vec<String>, transcript: Vec<ToolCallRecord>) -> VmOutput {
    VmOutput { return_value: return_value.to_string(), logs, transcript, gas_used: 17, memory_used: 256 }
}

#[test]
fn format_output_simple() {
    let result = PipelineResult { source: "return 42".into(), output: output("42", vec![], vec![]), attempts: 1 };
    let formatted = format_output(&result);
    assert!(formatted.contains("luai execution report"));
    assert!(formatted.contains("Attempts: 1"));
    assert!(formatted.contains("return 42"));
    assert!(formatted.contains("42")); // return value
    assert!(formatted.contains("Gas:"));
    assert!(formatted.contains("Memory:"));
    assert!(formatted.contains("Tools:  0 call(s)"));
    // No logs or transcript sections for this simple program
    assert!(!formatted.contains("── Logs"));
    assert!(!formatted.contains("── Transcript"));
}

#[test]
fn format_output_with_logs_and_transcript() {
    let source = "log(\"debug info\")\nlocal r = tool.call(\"echo\", {message = \"hi\"})\nreturn 0";
    let record = ToolCallRecord {
        seq: 0,
        tool_name: "echo".into(),
        args_canonical: b"{\"message\":\"hi\"}".to_vec(),
        status: ToolCallStatus::Succeeded,
        response_bytes: 16,
    };
    let result = PipelineResult {
        source: source.into(),
        output: output("0", vec!["debug info".to_string()], vec![record]),
        attempts: 2,
    };
    let formatted = format_output(&result);
    assert!(formatted.contains("Attempts: 2"));
    assert!(formatted.contains("── Logs"));
    assert!(formatted.contains("debug info"));
    assert!(formatted.contains("── Transcript"));
    assert!(formatted.contains("echo"));
    assert!(formatted.contains("Tools:  1 call(s)"));
}

#[test]
fn format_output_exact_report() {
    let records = vec![
        ToolCallRecord { seq: 3, tool_name: "add".into(), args_canonical: vec![b'{', 0xfe, b'}'], status: ToolCallStatus::Failed, response_bytes: 0 },
    ];
    let result = PipelineResult {
        source: "s".into(),
        output: VmOutput { return_value: "nil".into(), logs: vec!["a".into(), "b".into()], transcript: records, gas_used: 0, memory_used: 10 },
        attempts: 12,
    };
    let expected = "═══ luai execution report ═══\n\nAttempts: 12\n\n── Generated program ──────────────────────────\ns\n\n── Result ─────────────────────────────────────\nnil\n\n── Logs ───────────────────────────────────────\n  a\n  b\n\n── Transcript ─────────────────────────────────\n  [3] add args={\u{fffd}} → error\n\n── Resource usage ─────────────────────────────\n  Gas:    0 / 10,000,000\n  Memory: 10 bytes\n  Tools:  1 call(s)\n";
    assert_eq!(format_output(&result), expected);
}

#[test]
fn format_output_ok_status_shows_bytes() {
    let records = vec![ToolCallRecord { seq: 1, tool_name: "t".into(), args_canonical: vec![], status: ToolCallStatus::Succeeded, response_bytes: 1000 }];
    let result = PipelineResult { source: String::new(), output: output("x", vec![], records), attempts: 1 };
    assert!(format_output(&result).contains("  [1] t args= → ok (1000 bytes)\n"));
}

#[test]
fn format_output_renders_extreme_numbers() {
    let o = VmOutput { return_value: "r".into(), logs: vec![], transcript: vec![], gas_used: u64::MAX, memory_used: 0 };
    let result = PipelineResult { source: "s".into(), output: o, attempts: 0 };
    let formatted = format_output(&result);
    assert!(formatted.contains("Attempts: 0\n"));
    assert!(formatted.contains("  Gas:    18446744073709551615 / 10,000,000\n"));
    assert!(formatted.contains("  Memory: 0 bytes\n"));
}
