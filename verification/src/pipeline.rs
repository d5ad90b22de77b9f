//! The pipeline's reporting: what an error of the compile, verify and run
//! stages says, what the model is told when it must try again, and the
//! report printed after a successful run.
use vstd::prelude::*;
use crate::text::{lemma_within, occurs_in, decimal, decode_utf8_lossy, push_decimal, push_str, utf8_lossy};

verus! {

/// Why the VM stopped a program.
///
/// Values raised by the program are held as they are displayed.
#[derive(Debug)]
pub enum VmError {
    GasExhausted,
    MemoryExhausted,
    CallDepthExceeded,
    TypeError(String),
    RuntimeError(String),
    ToolError(String),
    OutputExceeded,
    WithLine(u32, Box<VmError>),
}

/// The human-readable text of a VM error, as the model is shown it.
pub open spec fn vm_error_text(e: VmError) -> Seq<char>
    decreases e,
{
    match e {
        VmError::GasExhausted => "Gas limit exceeded — program too expensive"@,
        VmError::MemoryExhausted => "Memory limit exceeded"@,
        VmError::CallDepthExceeded => "Call depth exceeded — too much recursion"@,
        VmError::TypeError(m) => "Type error: "@ + m@,
        VmError::RuntimeError(v) => "Runtime error: "@ + v@,
        VmError::ToolError(m) => "Tool error: "@ + m@,
        VmError::OutputExceeded => "Output size exceeded"@,
        VmError::WithLine(line, inner) => "Error at line "@ + decimal(line as nat) + ": "@
            + vm_error_text(*inner),
    }
}

/// Appends the text of `err` to `out`.
fn push_vm_error(out: &mut String, err: &VmError)
    ensures
        final(out)@ == old(out)@ + vm_error_text(*err),
    decreases err,
{
    match err {
        VmError::GasExhausted => push_str(out, "Gas limit exceeded — program too expensive"),
        VmError::MemoryExhausted => push_str(out, "Memory limit exceeded"),
        VmError::CallDepthExceeded => push_str(out, "Call depth exceeded — too much recursion"),
        VmError::TypeError(m) => {
            push_str(out, "Type error: ");
            push_str(out, m.as_str());
        },
        VmError::RuntimeError(v) => {
            push_str(out, "Runtime error: ");
            push_str(out, v.as_str());
        },
        VmError::ToolError(m) => {
            push_str(out, "Tool error: ");
            push_str(out, m.as_str());
        },
        VmError::OutputExceeded => push_str(out, "Output size exceeded"),
        VmError::WithLine(line, inner) => {
            push_str(out, "Error at line ");
            push_decimal(out, *line as u64);
            push_str(out, ": ");
            push_vm_error(out, inner);
        },
    }
    assert(out@ =~= old(out)@ + vm_error_text(*err));
}

/// Formats a VM error into a human-readable string for the model's feedback.
pub fn format_vm_error(err: &VmError) -> (r: String)
    ensures
        r@ == vm_error_text(*err),
{
    let mut r = String::new();
    push_vm_error(&mut r, err);
    r
}

/// Errors from the compile, verify and execute pipeline.
#[derive(Debug)]
pub enum PipelineError {
    Parse(String),
    Compile(String),
    Verify(String),
    Runtime(String, VmError),
}

/// The text a pipeline error is reported with.
pub open spec fn pipeline_error_text(e: PipelineError) -> Seq<char> {
    match e {
        PipelineError::Parse(m) => "Parse error: "@ + m@,
        PipelineError::Compile(m) => "Compile error: "@ + m@,
        PipelineError::Verify(m) => "Verify error: "@ + m@,
        PipelineError::Runtime(m, _) => "Runtime error: "@ + m@,
    }
}

impl PipelineError {
    /// The text this error is reported with.
    pub fn message(&self) -> (r: String)
        ensures
            r@ == pipeline_error_text(*self),
    {
        let mut r = String::new();
        match self {
            PipelineError::Parse(m) => {
                push_str(&mut r, "Parse error: ");
                push_str(&mut r, m.as_str());
            },
            PipelineError::Compile(m) => {
                push_str(&mut r, "Compile error: ");
                push_str(&mut r, m.as_str());
            },
            PipelineError::Verify(m) => {
                push_str(&mut r, "Verify error: ");
                push_str(&mut r, m.as_str());
            },
            PipelineError::Runtime(m, _) => {
                push_str(&mut r, "Runtime error: ");
                push_str(&mut r, m.as_str());
            },
        }
        r
    }

    /// The runtime error for the VM error `err`: its message is the formatted
    /// VM error.
    pub fn runtime(err: VmError) -> (r: PipelineError)
        ensures
            r matches PipelineError::Runtime(m, e) && m@ == vm_error_text(err) && e == err,
    {
        let m = format_vm_error(&err);
        PipelineError::Runtime(m, err)
    }
}

/// What the model is told after its program `source` failed with `err`.
pub open spec fn retry_context(source: Seq<char>, err: PipelineError) -> Seq<char> {
    "Your previous Lua program failed.\n\n"@ + "## Previous program\n```lua\n"@ + source
        + "\n```\n\n"@ + "## Error\n"@ + pipeline_error_text(err)
        + "\n\nPlease fix the program. Respond with ONLY the corrected Lua program."@
}

/// Formats a pipeline error into the context given to the model for a retry.
pub fn format_error_for_retry(source: &str, err: &PipelineError) -> (r: String)
    ensures
        r@ == retry_context(source@, *err),
{
    let mut ctx = String::new();
    push_str(&mut ctx, "Your previous Lua program failed.\n\n");
    push_str(&mut ctx, "## Previous program\n```lua\n");
    push_str(&mut ctx, source);
    push_str(&mut ctx, "\n```\n\n");
    push_str(&mut ctx, "## Error\n");
    let m = err.message();
    push_str(&mut ctx, m.as_str());
    push_str(&mut ctx, "\n\nPlease fix the program. Respond with ONLY the corrected Lua program.");
    ctx
}

/// What the model is told for a retry always shows it the failed program
/// and the error it failed with.
pub proof fn lemma_retry_context_shows_program_and_error(source: Seq<char>, err: PipelineError)
    ensures
        occurs_in(source, retry_context(source, err)),
        occurs_in(pipeline_error_text(err), retry_context(source, err)),
{
    let a = "Your previous Lua program failed.\n\n"@ + "## Previous program\n```lua\n"@;
    let b = "\n```\n\n"@ + "## Error\n"@;
    let e = pipeline_error_text(err);
    let c = "\n\nPlease fix the program. Respond with ONLY the corrected Lua program."@;
    let ctx = retry_context(source, err);
    assert(ctx =~= a + source + b + e + c);
    assert(ctx.subrange(a.len() as int, (a.len() + source.len()) as int) =~= source);
    let o: int = (a.len() + source.len() + b.len()) as int;
    assert(ctx.subrange(o, o + e.len()) =~= e);
}

/// Whether a tool call succeeded.
#[derive(Debug, Clone, Copy, PartialEq, Eq)]
pub enum ToolCallStatus {
    Succeeded,
    Failed,
}

/// One tool call made by a program, as the VM's transcript records it.
#[derive(Debug, Clone)]
pub struct ToolCallRecord {
    pub seq: u64,
    pub tool_name: String,
    pub args_canonical: Vec<u8>,
    pub status: ToolCallStatus,
    pub response_bytes: u64,
}

/// What a finished run produced; the return value is held as it is displayed.
#[derive(Debug, Clone)]
pub struct VmOutput {
    pub return_value: String,
    pub logs: Vec<String>,
    pub transcript: Vec<ToolCallRecord>,
    pub gas_used: u64,
    pub memory_used: u64,
}

/// Result of a successful pipeline execution.
#[derive(Debug, Clone)]
pub struct PipelineResult {
    pub source: String,
    pub output: VmOutput,
    pub attempts: usize,
}

/// The gas budget shown in the report.
pub const GAS_BUDGET_TEXT: &'static str = "10,000,000";

/// The report's line for one log message.
pub open spec fn log_line(msg: Seq<char>) -> Seq<char> {
    "  "@ + msg + "\n"@
}

/// The report's lines for `logs`, in order.
pub open spec fn log_lines(logs: Seq<String>) -> Seq<char>
    decreases logs.len(),
{
    if logs.len() == 0 {
        Seq::empty()
    } else {
        log_lines(logs.drop_last()) + log_line(logs.last()@)
    }
}

/// How the report shows the outcome of a tool call.
pub open spec fn status_text(r: ToolCallRecord) -> Seq<char> {
    match r.status {
        ToolCallStatus::Succeeded => "ok ("@ + decimal(r.response_bytes as nat) + " bytes)"@,
        ToolCallStatus::Failed => "error"@,
    }
}

/// The report's line for one tool call.
pub open spec fn record_line(r: ToolCallRecord) -> Seq<char> {
    "  ["@ + decimal(r.seq as nat) + "] "@ + r.tool_name@ + " args="@ + utf8_lossy(r.args_canonical@)
        + " → "@ + status_text(r) + "\n"@
}

/// The report's lines for `records`, in order.
pub open spec fn record_lines(records: Seq<ToolCallRecord>) -> Seq<char>
    decreases records.len(),
{
    if records.len() == 0 {
        Seq::empty()
    } else {
        record_lines(records.drop_last()) + record_line(records.last())
    }
}

/// The logs section: present only where there are log messages.
pub open spec fn logs_section(logs: Seq<String>) -> Seq<char> {
    if logs.len() == 0 {
        Seq::empty()
    } else {
        "── Logs ───────────────────────────────────────\n"@ + log_lines(logs) + "\n"@
    }
}

/// The transcript section: present only where tools were called.
pub open spec fn transcript_section(records: Seq<ToolCallRecord>) -> Seq<char> {
    if records.len() == 0 {
        Seq::empty()
    } else {
        "── Transcript ─────────────────────────────────\n"@ + record_lines(records) + "\n"@
    }
}

/// The resource usage section.
pub open spec fn usage_section(o: VmOutput) -> Seq<char> {
    "── Resource usage ─────────────────────────────\n"@ + "  Gas:    "@ + decimal(o.gas_used as nat) + " / "@ + GAS_BUDGET_TEXT@ + "\n"@
        + "  Memory: "@ + decimal(o.memory_used as nat) + " bytes\n"@
        + "  Tools:  "@ + decimal(o.transcript@.len()) + " call(s)\n"@
}

/// The execution report for `r`.
pub open spec fn report(r: PipelineResult) -> Seq<char> {
    "═══ luai execution report ═══\n\n"@ + "Attempts: "@ + decimal(r.attempts as nat) + "\n\n"@
        + "── Generated program ──────────────────────────\n"@ + r.source@ + "\n\n"@
        + "── Result ─────────────────────────────────────\n"@ + r.output.return_value@ + "\n\n"@
        + logs_section(r.output.logs@)
        + transcript_section(r.output.transcript@)
        + usage_section(r.output)
}

/// Appends the report's line for the tool call `r` to `out`.
fn push_record_line(out: &mut String, r: &ToolCallRecord)
    ensures
        final(out)@ == old(out)@ + record_line(*r),
{
    push_str(out, "  [");
    push_decimal(out, r.seq);
    push_str(out, "] ");
    push_str(out, r.tool_name.as_str());
    push_str(out, " args=");
    let args = decode_utf8_lossy(r.args_canonical.as_slice());
    push_str(out, args.as_str());
    push_str(out, " → ");
    let ghost before_status = out@;
    match r.status {
        ToolCallStatus::Succeeded => {
            push_str(out, "ok (");
            push_decimal(out, r.response_bytes);
            push_str(out, " bytes)");
        },
        ToolCallStatus::Failed => push_str(out, "error"),
    }
    assert(out@ =~= before_status + status_text(*r));
    push_str(out, "\n");
    assert(out@ =~= old(out)@ + record_line(*r));
}

/// The report's opening: title, attempts, program and result.
pub open spec fn report_head(r: PipelineResult) -> Seq<char> {
    "═══ luai execution report ═══\n\n"@ + "Attempts: "@ + decimal(r.attempts as nat) + "\n\n"@
        + "── Generated program ──────────────────────────\n"@ + r.source@ + "\n\n"@
        + "── Result ─────────────────────────────────────\n"@ + r.output.return_value@ + "\n\n"@
}

fn push_head(out: &mut String, result: &PipelineResult)
    ensures
        final(out)@ == old(out)@ + report_head(*result),
{
    push_str(out, "═══ luai execution report ═══\n\n");
    push_str(out, "Attempts: ");
    push_decimal(out, result.attempts as u64);
    push_str(out, "\n\n");
    push_str(out, "── Generated program ──────────────────────────\n");
    push_str(out, result.source.as_str());
    push_str(out, "\n\n");
    push_str(out, "── Result ─────────────────────────────────────\n");
    push_str(out, result.output.return_value.as_str());
    push_str(out, "\n\n");
    assert(out@ =~= old(out)@ + report_head(*result));
}

fn push_logs_section(out: &mut String, logs: &Vec<String>)
    ensures
        final(out)@ == old(out)@ + logs_section(logs@),
{
    if logs.len() > 0 {
        push_str(out, "── Logs ───────────────────────────────────────\n");
        let ghost start = out@;
        let n = logs.len();
        let mut i: usize = 0;
        while i < n
            invariant
                n == logs@.len(),
                i <= n,
                out@ == start + log_lines(logs@.subrange(0, i as int)),
            decreases n - i,
        {
            push_str(out, "  ");
            push_str(out, logs[i].as_str());
            push_str(out, "\n");
            assert(logs@.subrange(0, i + 1).drop_last() =~= logs@.subrange(0, i as int));
            i = i + 1;
        }
        assert(logs@.subrange(0, n as int) =~= logs@);
        push_str(out, "\n");
    }
    assert(out@ =~= old(out)@ + logs_section(logs@));
}

fn push_transcript_section(out: &mut String, records: &Vec<ToolCallRecord>)
    ensures
        final(out)@ == old(out)@ + transcript_section(records@),
{
    if records.len() > 0 {
        push_str(out, "── Transcript ─────────────────────────────────\n");
        let ghost start = out@;
        let n = records.len();
        let mut i: usize = 0;
        while i < n
            invariant
                n == records@.len(),
                i <= n,
                out@ == start + record_lines(records@.subrange(0, i as int)),
            decreases n - i,
        {
            push_record_line(out, &records[i]);
            assert(records@.subrange(0, i + 1).drop_last() =~= records@.subrange(0, i as int));
            i = i + 1;
        }
        assert(records@.subrange(0, n as int) =~= records@);
        push_str(out, "\n");
    }
    assert(out@ =~= old(out)@ + transcript_section(records@));
}

fn push_usage_section(out: &mut String, o: &VmOutput)
    ensures
        final(out)@ == old(out)@ + usage_section(*o),
{
    push_str(out, "── Resource usage ─────────────────────────────\n");
    push_str(out, "  Gas:    ");
    push_decimal(out, o.gas_used);
    push_str(out, " / ");
    push_str(out, GAS_BUDGET_TEXT);
    push_str(out, "\n");
    push_str(out, "  Memory: ");
    push_decimal(out, o.memory_used);
    push_str(out, " bytes\n");
    push_str(out, "  Tools:  ");
    push_decimal(out, o.transcript.len() as u64);
    push_str(out, " call(s)\n");
    assert(out@ =~= old(out)@ + usage_section(*o));
}

/// Formats the execution output for display.
pub fn format_output(result: &PipelineResult) -> (r: String)
    ensures
        r@ == report(*result),
{
    let mut out = String::new();
    push_head(&mut out, result);
    push_logs_section(&mut out, &result.output.logs);
    push_transcript_section(&mut out, &result.output.transcript);
    push_usage_section(&mut out, &result.output);
    assert(out@ =~= report(*result));
    out
}

} // verus!

verus! {

/// The lines of two runs of records are the lines of the first run, then
/// those of the second.
proof fn lemma_record_lines_concat(a: Seq<ToolCallRecord>, b: Seq<ToolCallRecord>)
    ensures
        record_lines(a + b) == record_lines(a) + record_lines(b),
    decreases b.len(),
{
    if b.len() == 0 {
        assert(a + b =~= a);
        assert(record_lines(a) + record_lines(b) =~= record_lines(a));
    } else {
        assert((a + b).drop_last() =~= a + b.drop_last());
        lemma_record_lines_concat(a, b.drop_last());
        assert(record_lines(a + b) =~= record_lines(a) + record_lines(b));
    }
}

/// The lines of one record.
proof fn lemma_record_lines_single(r: ToolCallRecord)
    ensures
        record_lines(seq![r]) == record_line(r),
{
    assert(seq![r].drop_last() =~= Seq::<ToolCallRecord>::empty());
    assert(record_lines(seq![r].drop_last()) =~= Seq::<char>::empty());
    assert(record_lines(seq![r]) =~= record_line(r));
}

/// Where the lines of records `i < j` stand within the lines of `records`.
proof fn lemma_record_line_offsets(records: Seq<ToolCallRecord>, i: int, j: int) -> (ab: (int, int))
    requires
        0 <= i < j < records.len(),
    ensures
        0 <= ab.0,
        ab.0 + record_line(records[i]).len() <= ab.1,
        ab.1 + record_line(records[j]).len() <= record_lines(records).len(),
        record_lines(records).subrange(ab.0, ab.0 + record_line(records[i]).len()) == record_line(records[i]),
        record_lines(records).subrange(ab.1, ab.1 + record_line(records[j]).len()) == record_line(records[j]),
{
    let pre = records.subrange(0, i);
    let mid = records.subrange(i + 1, j);
    let post = records.subrange(j + 1, records.len() as int);
    let ri = records[i];
    let rj = records[j];
    assert(records =~= pre + seq![ri] + mid + seq![rj] + post);
    lemma_record_lines_concat(pre + seq![ri] + mid + seq![rj], post);
    lemma_record_lines_concat(pre + seq![ri] + mid, seq![rj]);
    lemma_record_lines_concat(pre + seq![ri], mid);
    lemma_record_lines_concat(pre, seq![ri]);
    lemma_record_lines_single(ri);
    lemma_record_lines_single(rj);
    let li = record_line(ri);
    let lj = record_line(rj);
    let all = record_lines(records);
    assert(all =~= record_lines(pre) + li + record_lines(mid) + lj + record_lines(post));
    let a = record_lines(pre).len() as int;
    let b = a + li.len() + record_lines(mid).len();
    assert(all.subrange(a, a + li.len()) =~= li);
    assert(all.subrange(b, b + lj.len()) =~= lj);
    (a, b)
}

/// Where the lines of the transcript begin within the report.
proof fn lemma_transcript_in_report(r: PipelineResult) -> (start: int)
    requires
        r.output.transcript@.len() > 0,
    ensures
        0 <= start,
        start + record_lines(r.output.transcript@).len() <= report(r).len(),
        report(r).subrange(start, start + record_lines(r.output.transcript@).len()) == record_lines(
            r.output.transcript@,
        ),
{
    let banner = "── Transcript ─────────────────────────────────\n"@;
    let lines = record_lines(r.output.transcript@);
    let before = "═══ luai execution report ═══\n\n"@ + "Attempts: "@ + decimal(r.attempts as nat) + "\n\n"@
        + "── Generated program ──────────────────────────\n"@ + r.source@ + "\n\n"@
        + "── Result ─────────────────────────────────────\n"@ + r.output.return_value@ + "\n\n"@
        + logs_section(r.output.logs@) + banner;
    let rep = report(r);
    assert(rep =~= before + lines + "\n"@ + usage_section(r.output));
    let start = before.len() as int;
    assert(rep.subrange(start, start + lines.len()) =~= lines);
    start
}

/// The report shows every tool call on a line of its own, in the order the
/// calls were made: "  [seq] tool args=<args> → ok (<n> bytes)" for a call
/// that succeeded and "... → error" for one that failed.
pub proof fn lemma_report_lists_calls_in_order(r: PipelineResult, i: int, j: int)
    requires
        0 <= i < j < r.output.transcript@.len(),
    ensures
        ({
            let line = |c: ToolCallRecord|
                "  ["@ + decimal(c.seq as nat) + "] "@ + c.tool_name@ + " args="@ + utf8_lossy(c.args_canonical@)
                    + " → "@ + (match c.status {
                    ToolCallStatus::Succeeded => "ok ("@ + decimal(c.response_bytes as nat) + " bytes)"@,
                    ToolCallStatus::Failed => "error"@,
                }) + "\n"@;
            let li = line(r.output.transcript@[i]);
            let lj = line(r.output.transcript@[j]);
            exists|a: int, b: int|
                0 <= a && a + li.len() <= b && b + lj.len() <= report(r).len() && #[trigger] report(r).subrange(
                    a,
                    a + li.len(),
                ) == li && #[trigger] report(r).subrange(b, b + lj.len()) == lj
        }),
{
    let records = r.output.transcript@;
    let start = lemma_transcript_in_report(r);
    let (a, b) = lemma_record_line_offsets(records, i, j);
    let lines = record_lines(records);
    let li = record_line(records[i]);
    let lj = record_line(records[j]);
    lemma_within(report(r), lines, start, a, a + li.len());
    lemma_within(report(r), lines, start, b, b + lj.len());
    assert(report(r).subrange(start + a, start + a + li.len()) == li);
    assert(report(r).subrange(start + b, start + b + lj.len()) == lj);
    let line = |c: ToolCallRecord|
        "  ["@ + decimal(c.seq as nat) + "] "@ + c.tool_name@ + " args="@ + utf8_lossy(c.args_canonical@)
            + " → "@ + (match c.status {
            ToolCallStatus::Succeeded => "ok ("@ + decimal(c.response_bytes as nat) + " bytes)"@,
            ToolCallStatus::Failed => "error"@,
        }) + "\n"@;
    assert(li == line(records[i]));
    assert(lj == line(records[j]));
    let wa = start + a;
    let wb = start + b;
    assert(0 <= wa && wa + li.len() <= wb && wb + lj.len() <= report(r).len() && report(r).subrange(wa, wa + li.len()) == li
        && report(r).subrange(wb, wb + lj.len()) == lj);
}

/// The report shows every tool call: the line of call `i` occurs in it.
pub proof fn lemma_report_lists_every_call(r: PipelineResult, i: int)
    requires
        0 <= i < r.output.transcript@.len(),
    ensures
        occurs_in(
            "  ["@ + decimal(r.output.transcript@[i].seq as nat) + "] "@ + r.output.transcript@[i].tool_name@
                + " args="@ + utf8_lossy(r.output.transcript@[i].args_canonical@) + " → "@ + (match r.output.transcript@[i].status {
                ToolCallStatus::Succeeded => "ok ("@ + decimal(r.output.transcript@[i].response_bytes as nat) + " bytes)"@,
                ToolCallStatus::Failed => "error"@,
            }) + "\n"@,
            report(r),
        ),
{
    let records = r.output.transcript@;
    let start = lemma_transcript_in_report(r);
    let pre = records.subrange(0, i);
    let post = records.subrange(i + 1, records.len() as int);
    let ri = records[i];
    assert(records =~= pre + seq![ri] + post);
    lemma_record_lines_concat(pre + seq![ri], post);
    lemma_record_lines_concat(pre, seq![ri]);
    lemma_record_lines_single(ri);
    let lines = record_lines(records);
    let li = record_line(ri);
    assert(lines =~= record_lines(pre) + li + record_lines(post));
    let a = record_lines(pre).len() as int;
    assert(lines.subrange(a, a + li.len()) =~= li);
    lemma_within(report(r), lines, start, a, a + li.len());
    assert(report(r).subrange(start + a, start + a + li.len()) == li);
}

} // verus!
