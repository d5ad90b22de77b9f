//! The system prompt that tells the model which Lua subset, library and
//! tools it may use, and how to shape its answer.
use vstd::prelude::*;
use crate::text::{lemma_within, occurs_in, push_str};

verus! {

/// What a tool offered to generated programs does, takes and returns.
#[derive(Debug, Clone)]
pub struct ToolDescription {
    pub name: String,
    pub description: String,
    pub args: Vec<(String, String)>,
    pub returns: Vec<(String, String)>,
}

/// The fixed opening of the system prompt: the language subset, the
/// standard library and the constraints programs must respect.
pub const SYSTEM_PREAMBLE: &'static str = r#"You are a Lua program generator. You write Lua programs that execute in a sandboxed, deterministic VM.

## Language subset
- **Types:** nil, boolean, integer (signed 64-bit), string, table, function
- **No floats** — all arithmetic is integer-only. Division is floor division (`//`).
- **Variables:** `local` declarations, globals
- **Control flow:** `if`/`elseif`/`else`/`end`, `while`/`end`, numeric `for i = start, stop [, step] do`, generic `for k, v in pairs_sorted(t) do` and `for i, v in ipairs(t) do`
- **Functions:** `function(args) ... end`, closures with upvalues, `return`
- **Tables:** `{}` literals, `t.field`, `t[key]`, `#t` for array length
- **Operators:** `+`, `-`, `*`, `//` (floor div), `%` (mod), `==`, `~=`, `<`, `<=`, `>`, `>=`, `not`, `and`, `or`, `..` (concat), `#` (length)
- **Strings:** double-quoted or single-quoted, escape sequences
- **Comments:** `--` single line

## Standard library
- `string.len(s)`, `string.sub(s, i [, j])`, `string.find(s, pattern)`, `string.upper(s)`, `string.lower(s)`, `string.rep(s, n)`, `string.byte(s [, i])`, `string.char(...)`, `string.format(fmt, ...)`
- `math.abs(x)`, `math.min(...)`, `math.max(...)`, `math.scale_div(num, denom, scale)`
- `table.insert(t [, i], v)`, `table.remove(t [, i])`, `table.concat(t [, sep])`, `table.move(src, a, b, t)`, `table.sort(t [, comp])`
- `json.encode(v)` — serialize to JSON string; `json.decode(s)` — parse JSON string
- `type(v)`, `tostring(v)`, `tonumber(s)`, `select(i, ...)`, `unpack(t)`, `pcall(f, ...)`, `error(msg)`, `log(msg)`, `print(msg)`
- `pairs_sorted(t)` — iterate table keys in deterministic order; `ipairs(t)` — iterate array portion

## Tool calls
- Call external tools with: `tool.call("tool_name", {arg1 = val1, arg2 = val2})`
- Tool calls return a result table
- Use `pcall` to handle tool errors: `local ok, err = pcall(function() tool.call(...) end)`

## Important constraints
- No floating-point numbers. Use integers only. For money, use cents. For percentages, use basis points.
- No `require`, `io`, `os`, `debug`, `load`, `dofile`, or `setmetatable`
- No coroutines or metatables
- All programs are single-shot: receive input, do work, return a result
- The input is available as the first parameter to the top-level chunk
"#;

/// The fixed closing of the system prompt: how the answer must be shaped.
pub const OUTPUT_INSTRUCTIONS: &'static str = r#"
## Output format
- Respond with ONLY the Lua program. No markdown fences, no explanation, no commentary.
- The program must end with a `return` statement that returns the result.
- Use `log()` for debug output that should appear in logs.
"#;

/// The first line of the tools section.
pub const TOOLS_HEADING: &'static str = "\n## Available tools\n\n";

/// How generated programs call a tool.
pub const TOOLS_CALL_HINT: &'static str = "Call tools with: `tool.call(\"name\", {arg1 = val1, ...})`\n";

/// What a tool call gives back.
pub const TOOLS_RESULT_HINT: &'static str = "Tool calls return a table with the result fields.\n\n";

/// The line describing one argument or result field.
pub open spec fn field_line(name: Seq<char>, desc: Seq<char>) -> Seq<char> {
    "- `"@ + name + "` — "@ + desc + "\n"@
}

/// The lines describing `fields`, in order.
pub open spec fn field_lines(fields: Seq<(String, String)>) -> Seq<char>
    decreases fields.len(),
{
    if fields.len() == 0 {
        Seq::empty()
    } else {
        field_lines(fields.drop_last()) + field_line(fields.last().0@, fields.last().1@)
    }
}

/// A titled list of fields, or nothing where there are no fields.
pub open spec fn field_block(title: Seq<char>, fields: Seq<(String, String)>) -> Seq<char> {
    if fields.len() == 0 {
        Seq::empty()
    } else {
        title + field_lines(fields)
    }
}

/// The heading line that introduces the tool called `name`.
pub open spec fn tool_heading(name: Seq<char>) -> Seq<char> {
    "### `"@ + name + "`\n"@
}

/// The part of the prompt that describes one tool.
pub open spec fn tool_section(t: ToolDescription) -> Seq<char> {
    tool_heading(t.name@) + t.description@ + "\n"@
        + field_block("**Args:**\n"@, t.args@)
        + field_block("**Returns:**\n"@, t.returns@)
        + "\n"@
}

/// The sections of `tools`, in order.
pub open spec fn tool_sections(tools: Seq<ToolDescription>) -> Seq<char>
    decreases tools.len(),
{
    if tools.len() == 0 {
        Seq::empty()
    } else {
        tool_sections(tools.drop_last()) + tool_section(tools.last())
    }
}

/// The system prompt for `tools`: the preamble, then (only where there are
/// tools) the tools section, then the output instructions.
pub open spec fn system_prompt(tools: Seq<ToolDescription>) -> Seq<char> {
    SYSTEM_PREAMBLE@ + (if tools.len() == 0 {
        Seq::empty()
    } else {
        TOOLS_HEADING@ + TOOLS_CALL_HINT@ + TOOLS_RESULT_HINT@ + tool_sections(tools)
    }) + OUTPUT_INSTRUCTIONS@
}

/// Appends the lines describing `fields` to `out`.
fn push_field_lines(out: &mut String, fields: &Vec<(String, String)>)
    ensures
        final(out)@ == old(out)@ + field_lines(fields@),
{
    let n = fields.len();
    let mut i: usize = 0;
    while i < n
        invariant
            n == fields@.len(),
            i <= n,
            out@ == old(out)@ + field_lines(fields@.subrange(0, i as int)),
        decreases n - i,
    {
        let ghost before = out@;
        push_str(out, "- `");
        push_str(out, fields[i].0.as_str());
        push_str(out, "` — ");
        push_str(out, fields[i].1.as_str());
        push_str(out, "\n");
        assert(fields@.subrange(0, i + 1).drop_last() =~= fields@.subrange(0, i as int));
        assert(out@ =~= before + field_line(fields@[i as int].0@, fields@[i as int].1@));
        i = i + 1;
    }
    assert(fields@.subrange(0, n as int) =~= fields@);
}

/// Appends the section describing `tool` to `out`.
fn push_tool_section(out: &mut String, tool: &ToolDescription)
    ensures
        final(out)@ == old(out)@ + tool_section(*tool),
{
    push_str(out, "### `");
    push_str(out, tool.name.as_str());
    push_str(out, "`\n");
    push_str(out, tool.description.as_str());
    push_str(out, "\n");
    let ghost after_description = out@;
    if tool.args.len() > 0 {
        push_str(out, "**Args:**\n");
        push_field_lines(out, &tool.args);
    }
    assert(out@ =~= after_description + field_block("**Args:**\n"@, tool.args@));
    let ghost after_args = out@;
    if tool.returns.len() > 0 {
        push_str(out, "**Returns:**\n");
        push_field_lines(out, &tool.returns);
    }
    assert(out@ =~= after_args + field_block("**Returns:**\n"@, tool.returns@));
    push_str(out, "\n");
    assert(out@ =~= old(out)@ + tool_section(*tool));
}

/// Builds the system prompt for Lua program generation: it tells the model
/// what language subset is available, what tools exist, and how to
/// structure its output.
pub fn build_system_prompt(tool_descriptions: &[ToolDescription]) -> (r: String)
    ensures
        r@ == system_prompt(tool_descriptions@),
{
    let mut prompt = String::new();
    push_str(&mut prompt, SYSTEM_PREAMBLE);
    let n = tool_descriptions.len();
    if n > 0 {
        push_str(&mut prompt, TOOLS_HEADING);
        push_str(&mut prompt, TOOLS_CALL_HINT);
        push_str(&mut prompt, TOOLS_RESULT_HINT);
        let ghost start = prompt@;
        let mut i: usize = 0;
        while i < n
            invariant
                n == tool_descriptions@.len(),
                i <= n,
                prompt@ == start + tool_sections(tool_descriptions@.subrange(0, i as int)),
            decreases n - i,
        {
            push_tool_section(&mut prompt, &tool_descriptions[i]);
            assert(tool_descriptions@.subrange(0, i + 1).drop_last() =~= tool_descriptions@.subrange(0, i as int));
            i = i + 1;
        }
        assert(tool_descriptions@.subrange(0, n as int) =~= tool_descriptions@);
    }
    push_str(&mut prompt, OUTPUT_INSTRUCTIONS);
    prompt
}

} // verus!

verus! {

/// Where the section of the `k`-th tool stands within the sections.
pub proof fn lemma_section_offset(tools: Seq<ToolDescription>, k: int) -> (o: int)
    requires
        0 <= k < tools.len(),
    ensures
        0 <= o,
        o + tool_section(tools[k]).len() <= tool_sections(tools).len(),
        tool_sections(tools).subrange(o, o + tool_section(tools[k]).len()) == tool_section(tools[k]),
    decreases tools.len(),
{
    let before = tool_sections(tools.drop_last());
    let last = tool_section(tools.last());
    assert(tool_sections(tools) == before + last);
    if k == tools.len() - 1 {
        let o = before.len() as int;
        assert((before + last).subrange(o, o + last.len()) =~= last);
        o
    } else {
        let o = lemma_section_offset(tools.drop_last(), k);
        assert(tools.drop_last()[k] == tools[k]);
        let sec = tool_section(tools[k]);
        assert((before + last).subrange(o, o + sec.len()) =~= before.subrange(o, o + sec.len()));
        o
    }
}

/// The prompt begins with the preamble and ends with the output
/// instructions, and without tools it is exactly those two.
pub proof fn lemma_prompt_frame(tools: Seq<ToolDescription>)
    ensures
        system_prompt(tools).subrange(0, SYSTEM_PREAMBLE@.len() as int) == SYSTEM_PREAMBLE@,
        system_prompt(tools).subrange(
            system_prompt(tools).len() - OUTPUT_INSTRUCTIONS@.len(),
            system_prompt(tools).len() as int,
        ) == OUTPUT_INSTRUCTIONS@,
        tools.len() == 0 ==> system_prompt(tools) == SYSTEM_PREAMBLE@ + OUTPUT_INSTRUCTIONS@,
{
    let middle = if tools.len() == 0 {
        Seq::<char>::empty()
    } else {
        TOOLS_HEADING@ + TOOLS_CALL_HINT@ + TOOLS_RESULT_HINT@ + tool_sections(tools)
    };
    let p = system_prompt(tools);
    assert(p == SYSTEM_PREAMBLE@ + middle + OUTPUT_INSTRUCTIONS@);
    assert(p.subrange(0, SYSTEM_PREAMBLE@.len() as int) =~= SYSTEM_PREAMBLE@);
    assert(p.subrange(p.len() - OUTPUT_INSTRUCTIONS@.len(), p.len() as int) =~= OUTPUT_INSTRUCTIONS@);
    if tools.len() == 0 {
        assert(SYSTEM_PREAMBLE@ + middle =~= SYSTEM_PREAMBLE@);
    }
}

/// The prompt names every tool it is given, under a heading of its own, and
/// carries the tool's description.
pub proof fn lemma_prompt_describes_every_tool(tools: Seq<ToolDescription>, k: int)
    requires
        0 <= k < tools.len(),
    ensures
        occurs_in(tool_heading(tools[k].name@), system_prompt(tools)),
        occurs_in(tools[k].description@, system_prompt(tools)),
{
    let t = tools[k];
    let base = lemma_section_in_prompt(tools, k);
    let p = system_prompt(tools);
    let sec = tool_section(t);
    let h = tool_heading(t.name@);
    let d = t.description@;
    assert(sec.subrange(0, h.len() as int) =~= h);
    assert(sec.subrange(h.len() as int, (h.len() + d.len()) as int) =~= d);
    lemma_within(p, sec, base, 0, h.len() as int);
    lemma_within(p, sec, base, h.len() as int, (h.len() + d.len()) as int);
    assert(p.subrange(base, base + h.len()) == h);
    assert(p.subrange(base + h.len(), base + h.len() + d.len()) == d);
}

} // verus!

verus! {

/// The lines of two runs of fields are the lines of the first run, then
/// those of the second.
proof fn lemma_field_lines_concat(a: Seq<(String, String)>, b: Seq<(String, String)>)
    ensures
        field_lines(a + b) == field_lines(a) + field_lines(b),
    decreases b.len(),
{
    if b.len() == 0 {
        assert(a + b =~= a);
        assert(field_lines(a) + field_lines(b) =~= field_lines(a));
    } else {
        assert((a + b).drop_last() =~= a + b.drop_last());
        lemma_field_lines_concat(a, b.drop_last());
        assert(field_lines(a + b) =~= field_lines(a) + field_lines(b));
    }
}

/// Where the line of field `j` stands within the lines of `fields`.
proof fn lemma_field_line_offset(fields: Seq<(String, String)>, j: int) -> (o: int)
    requires
        0 <= j < fields.len(),
    ensures
        0 <= o,
        o + field_line(fields[j].0@, fields[j].1@).len() <= field_lines(fields).len(),
        field_lines(fields).subrange(o, o + field_line(fields[j].0@, fields[j].1@).len())
            == field_line(fields[j].0@, fields[j].1@),
        j == 0 ==> o == 0,
{
    let pre = fields.subrange(0, j);
    let mid = fields.subrange(j, j + 1);
    let post = fields.subrange(j + 1, fields.len() as int);
    assert(fields =~= pre + mid + post);
    lemma_field_lines_concat(pre + mid, post);
    lemma_field_lines_concat(pre, mid);
    assert(mid.drop_last() =~= Seq::<(String, String)>::empty());
    let line = field_line(fields[j].0@, fields[j].1@);
    assert(mid.drop_last().len() == 0);
    assert(field_lines(mid.drop_last()) =~= Seq::<char>::empty());
    assert(mid.last() == fields[j]);
    assert(field_lines(mid) =~= line);
    let o = field_lines(pre).len() as int;
    assert(field_lines(fields) =~= field_lines(pre) + line + field_lines(post));
    assert(field_lines(fields).subrange(o, o + line.len()) =~= line);
    if j == 0 {
        assert(pre =~= Seq::<(String, String)>::empty());
    }
    o
}

/// Where the section of tool `k` begins within the prompt.
proof fn lemma_section_in_prompt(tools: Seq<ToolDescription>, k: int) -> (base: int)
    requires
        0 <= k < tools.len(),
    ensures
        0 <= base,
        base + tool_section(tools[k]).len() <= system_prompt(tools).len(),
        system_prompt(tools).subrange(base, base + tool_section(tools[k]).len()) == tool_section(tools[k]),
{
    let o = lemma_section_offset(tools, k);
    let sec = tool_section(tools[k]);
    let head = SYSTEM_PREAMBLE@ + TOOLS_HEADING@ + TOOLS_CALL_HINT@ + TOOLS_RESULT_HINT@;
    let sections = tool_sections(tools);
    let p = system_prompt(tools);
    assert(p =~= head + sections + OUTPUT_INSTRUCTIONS@);
    let base = head.len() + o;
    assert(p.subrange(base, base + sec.len()) =~= sections.subrange(o, o + sec.len()));
    base
}

/// A run of fields under `title`, written as the prompt shows it, occurs in
/// any text `p` wherever its block occurs: the title followed by the first
/// field's line, and every field's line.
proof fn lemma_block_lines_occur(p: Seq<char>, start: int, title: Seq<char>, fields: Seq<(String, String)>, j: int)
    requires
        0 <= j < fields.len(),
        0 <= start,
        start + field_block(title, fields).len() <= p.len(),
        p.subrange(start, start + field_block(title, fields).len()) == field_block(title, fields),
    ensures
        occurs_in("- `"@ + fields[j].0@ + "` — "@ + fields[j].1@ + "\n"@, p),
        occurs_in(title + "- `"@ + fields[0].0@ + "` — "@ + fields[0].1@ + "\n"@, p),
{
    let block = field_block(title, fields);
    let lines = field_lines(fields);
    assert(block == title + lines);
    let oj = lemma_field_line_offset(fields, j);
    let lj = field_line(fields[j].0@, fields[j].1@);
    lemma_within(p, block, start, title.len() + oj, title.len() + oj + lj.len());
    assert(block.subrange(title.len() + oj, title.len() + oj + lj.len()) =~= lines.subrange(oj, oj + lj.len()));
    assert(lj =~= "- `"@ + fields[j].0@ + "` — "@ + fields[j].1@ + "\n"@);
    assert(p.subrange(start + title.len() + oj, start + title.len() + oj + lj.len()) == lj);
    let o0 = lemma_field_line_offset(fields, 0);
    let l0 = field_line(fields[0].0@, fields[0].1@);
    let first = title + l0;
    assert(lines.subrange(0, l0.len() as int) == l0);
    assert(block.subrange(0, first.len() as int) =~= first);
    lemma_within(p, block, start, 0, first.len() as int);
    assert(first =~= title + "- `"@ + fields[0].0@ + "` — "@ + fields[0].1@ + "\n"@);
    assert(p.subrange(start, start + first.len()) == first);
}

/// The prompt shows every argument and every result of every tool, each on
/// a line "- `name` — description", with the arguments under "**Args:**" and
/// the results under "**Returns:**", whether or not the tool has the other kind.
pub proof fn lemma_prompt_lists_every_field(tools: Seq<ToolDescription>, k: int, j: int)
    requires
        0 <= k < tools.len(),
    ensures
        0 <= j < tools[k].args@.len() ==> occurs_in(
            "- `"@ + tools[k].args@[j].0@ + "` — "@ + tools[k].args@[j].1@ + "\n"@,
            system_prompt(tools),
        ),
        0 <= j < tools[k].returns@.len() ==> occurs_in(
            "- `"@ + tools[k].returns@[j].0@ + "` — "@ + tools[k].returns@[j].1@ + "\n"@,
            system_prompt(tools),
        ),
        tools[k].args@.len() > 0 ==> occurs_in(
            "**Args:**\n"@ + "- `"@ + tools[k].args@[0].0@ + "` — "@ + tools[k].args@[0].1@ + "\n"@,
            system_prompt(tools),
        ),
        tools[k].returns@.len() > 0 ==> occurs_in(
            "**Returns:**\n"@ + "- `"@ + tools[k].returns@[0].0@ + "` — "@ + tools[k].returns@[0].1@ + "\n"@,
            system_prompt(tools),
        ),
{
    let t = tools[k];
    let base = lemma_section_in_prompt(tools, k);
    let p = system_prompt(tools);
    let sec = tool_section(t);
    let lead = tool_heading(t.name@) + t.description@ + "\n"@;
    let args_block = field_block("**Args:**\n"@, t.args@);
    let ret_block = field_block("**Returns:**\n"@, t.returns@);
    assert(sec =~= lead + args_block + ret_block + "\n"@);
    let sa = base + lead.len();
    let l1: int = lead.len() as int;
    let l2: int = l1 + args_block.len();
    let l3: int = l2 + ret_block.len();
    assert(sec.subrange(l1, l2) =~= args_block);
    assert(sec.subrange(l2, l3) =~= ret_block);
    lemma_within(p, sec, base, l1, l2);
    lemma_within(p, sec, base, l2, l3);
    let sr = sa + args_block.len();
    if 0 <= j < t.args@.len() {
        lemma_block_lines_occur(p, sa, "**Args:**\n"@, t.args@, j);
    }
    if t.args@.len() > 0 {
        lemma_block_lines_occur(p, sa, "**Args:**\n"@, t.args@, 0);
    }
    if 0 <= j < t.returns@.len() {
        lemma_block_lines_occur(p, sr, "**Returns:**\n"@, t.returns@, j);
    }
    if t.returns@.len() > 0 {
        lemma_block_lines_occur(p, sr, "**Returns:**\n"@, t.returns@, 0);
    }
}

} // verus!
