//! The tools that generated programs may call: the stub host used while
//! developing the orchestrator, the host used by the prover, and the
//! descriptions of the stub tools offered to the model.
use vstd::prelude::*;
use crate::lua::{str_key_model, KeyModel, LuaKey, LuaString, LuaTable, LuaValue, ValueModel};
use crate::prompt::ToolDescription;
use crate::text::{push_str, str_equal, to_uppercase, decode_utf8_lossy, unicode_uppercase, utf8_lossy};

verus! {

/// The timestamp `time_now` reports.
pub const FIXED_TIMESTAMP: i64 = 1709654400;

/// The value a table holds under `k`, `nil` where it holds none.
pub open spec fn lookup(t: Map<KeyModel, ValueModel>, k: KeyModel) -> ValueModel {
    if t.contains_key(k) {
        t[k]
    } else {
        ValueModel::Nil
    }
}

/// The table holding only `v` under `k` (empty where `v` is `nil`).
pub open spec fn single(k: KeyModel, v: ValueModel) -> Map<KeyModel, ValueModel> {
    if v is Nil {
        Map::empty()
    } else {
        Map::empty().insert(k, v)
    }
}

/// The error for a call of an unknown tool.
pub open spec fn unknown_tool(name: Seq<char>) -> Seq<char> {
    "unknown tool '"@ + name + "'"@
}

/// The tools the stub host serves.
pub open spec fn stub_serves(name: Seq<char>) -> bool {
    name == "echo"@ || name == "add"@ || name == "upper"@ || name == "time_now"@
}

/// Whether `add` can compute the sum of its arguments without overflow
/// (it can for any call that is not an `add` of two integers).
pub open spec fn stub_sum_fits(name: Seq<char>, args: Map<KeyModel, ValueModel>) -> bool {
    name == "add"@ ==> match (lookup(args, str_key_model("a"@)), lookup(args, str_key_model("b"@))) {
        (ValueModel::Integer(a), ValueModel::Integer(b)) => i64::MIN <= a + b <= i64::MAX,
        _ => true,
    }
}

/// What the stub host answers to a call of tool `name` with `args`.
pub open spec fn stub_response(name: Seq<char>, args: Map<KeyModel, ValueModel>) -> Result<
    Map<KeyModel, ValueModel>,
    Seq<char>,
> {
    if name == "echo"@ {
        Ok(single(str_key_model("message"@), lookup(args, str_key_model("message"@))))
    } else if name == "add"@ {
        match lookup(args, str_key_model("a"@)) {
            ValueModel::Integer(a) => match lookup(args, str_key_model("b"@)) {
                ValueModel::Integer(b) => Ok(
                    single(str_key_model("result"@), ValueModel::Integer((a + b) as i64)),
                ),
                _ => Err("add: expected integer arg 'b'"@),
            },
            _ => Err("add: expected integer arg 'a'"@),
        }
    } else if name == "upper"@ {
        match lookup(args, str_key_model("text"@)) {
            ValueModel::Str(s) => Ok(
                single(
                    str_key_model("result"@),
                    ValueModel::Str(vstd::utf8::encode_utf8(unicode_uppercase(utf8_lossy(s)))),
                ),
            ),
            _ => Err("upper: expected string arg 'text'"@),
        }
    } else if name == "time_now"@ {
        Ok(single(str_key_model("timestamp"@), ValueModel::Integer(FIXED_TIMESTAMP)))
    } else {
        Err(unknown_tool(name))
    }
}

/// A stub host with basic tools (`echo`, `add`, `upper`, `time_now`) for
/// testing generated programs without live services.
pub struct StubHost;

/// A string holding `s`.
fn owned(s: &str) -> (r: String)
    ensures
        r@ == s@,
{
    s.to_owned()
}

/// The error for a call of the unknown tool `name`.
fn unknown_tool_error(name: &str) -> (r: String)
    ensures
        r@ == unknown_tool(name@),
{
    let mut m = String::new();
    push_str(&mut m, "unknown tool '");
    push_str(&mut m, name);
    push_str(&mut m, "'");
    m
}

/// The response table holding only `v` under the string key `key`.
fn single_table(key: &str, v: LuaValue) -> (r: LuaTable)
    ensures
        r@ == single(str_key_model(key@), v@),
{
    let mut t = LuaTable::new();
    t.rawset(LuaKey::from_str(key), v);
    proof {
        if v@ is Nil {
            assert(Map::<KeyModel, ValueModel>::empty().remove(str_key_model(key@)) =~= Map::empty());
        }
    }
    t
}

/// The value `args` holds under the string key `key`, `nil` where none.
fn arg(args: &LuaTable, key: &str) -> (r: LuaValue)
    ensures
        r@ == lookup(args@, str_key_model(key@)),
{
    match args.get(&LuaKey::from_str(key)) {
        Some(v) => v.duplicate(),
        None => LuaValue::Nil,
    }
}

impl StubHost {
    /// Answers the call of tool `name` with arguments `args`: the response
    /// table, or an error message.
    pub fn call_tool(&mut self, name: &str, args: &LuaTable) -> (r: Result<LuaTable, String>)
        requires
            stub_sum_fits(name@, args@),
        ensures
            match (r, stub_response(name@, args@)) {
                (Ok(t), Ok(m)) => t@ == m,
                (Err(e), Err(m)) => e@ == m,
                _ => false,
            },
    {
        if str_equal(name, "echo") {
            let msg = arg(args, "message");
            Ok(single_table("message", msg))
        } else if str_equal(name, "add") {
            let a = match arg(args, "a") {
                LuaValue::Integer(n) => n,
                _ => return Err(owned("add: expected integer arg 'a'")),
            };
            let b = match arg(args, "b") {
                LuaValue::Integer(n) => n,
                _ => return Err(owned("add: expected integer arg 'b'")),
            };
            Ok(single_table("result", LuaValue::Integer(a + b)))
        } else if str_equal(name, "upper") {
            let text = match arg(args, "text") {
                LuaValue::String(s) => {
                    let decoded = decode_utf8_lossy(s.as_bytes());
                    to_uppercase(decoded.as_str())
                },
                _ => return Err(owned("upper: expected string arg 'text'")),
            };
            Ok(single_table("result", LuaValue::String(LuaString::from_str(text.as_str()))))
        } else if str_equal(name, "time_now") {
            Ok(single_table("timestamp", LuaValue::Integer(FIXED_TIMESTAMP)))
        } else {
            Err(unknown_tool_error(name))
        }
    }
}

/// The number the prover host's `random` tool returns.
pub const PROVER_RANDOM_RESULT: i64 = 42;

/// What the prover host answers to a call of tool `name`; it ignores the
/// arguments.
pub open spec fn prover_response(name: Seq<char>) -> Result<Map<KeyModel, ValueModel>, Seq<char>> {
    if name == "random"@ {
        Ok(single(str_key_model("result"@), ValueModel::Integer(PROVER_RANDOM_RESULT)))
    } else if name == "fail"@ {
        Err("this tool always fails"@)
    } else {
        Err(unknown_tool(name))
    }
}

/// The host used by the prover: a `random` tool that currently always
/// returns 42, and a `fail` tool that always fails.
pub struct ProverHost;

impl ProverHost {
    /// Answers the call of tool `name`; the arguments are not read.
    pub fn call_tool(&mut self, name: &str, args: &LuaTable) -> (r: Result<LuaTable, String>)
        ensures
            match (r, prover_response(name@)) {
                (Ok(t), Ok(m)) => t@ == m,
                (Err(e), Err(m)) => e@ == m,
                _ => false,
            },
    {
        if str_equal(name, "random") {
            Ok(single_table("result", LuaValue::Integer(PROVER_RANDOM_RESULT)))
        } else if str_equal(name, "fail") {
            Err(owned("this tool always fails"))
        } else {
            Err(unknown_tool_error(name))
        }
    }
}

/// Whether `fields` hold the names and descriptions `expected`, in order.
pub open spec fn fields_are(fields: Seq<(String, String)>, expected: Seq<(Seq<char>, Seq<char>)>) -> bool {
    &&& fields.len() == expected.len()
    &&& forall|j: int| 0 <= j < fields.len() ==> (#[trigger] fields[j].0@, fields[j].1@) == expected[j]
}

/// Whether `t` describes the tool `name` as `description`, taking `args` and
/// returning `results`.
pub open spec fn describes(
    t: ToolDescription,
    name: Seq<char>,
    description: Seq<char>,
    args: Seq<(Seq<char>, Seq<char>)>,
    results: Seq<(Seq<char>, Seq<char>)>,
) -> bool {
    &&& t.name@ == name
    &&& t.description@ == description
    &&& fields_are(t.args@, args)
    &&& fields_are(t.returns@, results)
}

/// The names of the stub tools, in the order they are described.
pub open spec fn stub_tool_names() -> Seq<Seq<char>> {
    seq!["echo"@, "add"@, "upper"@, "time_now"@]
}

/// The stub tools' descriptions, for the prompt.
pub open spec fn stub_descriptions_are(d: Seq<ToolDescription>) -> bool {
    &&& d.len() == 4
    &&& describes(
        d[0],
        "echo"@,
        "Echoes the message back. Useful for testing."@,
        seq![("message"@, "string — the message to echo"@)],
        seq![("message"@, "string — the echoed message"@)],
    )
    &&& describes(
        d[1],
        "add"@,
        "Adds two integers."@,
        seq![("a"@, "integer — first number"@), ("b"@, "integer — second number"@)],
        seq![("result"@, "integer — the sum"@)],
    )
    &&& describes(
        d[2],
        "upper"@,
        "Converts a string to uppercase."@,
        seq![("text"@, "string — text to convert"@)],
        seq![("result"@, "string — the uppercased text"@)],
    )
    &&& describes(
        d[3],
        "time_now"@,
        "Returns the current Unix timestamp."@,
        seq![],
        seq![("timestamp"@, "integer — Unix timestamp in seconds"@)],
    )
}

/// A field of a tool description.
fn field(name: &str, description: &str) -> (r: (String, String))
    ensures
        r.0@ == name@,
        r.1@ == description@,
{
    (owned(name), owned(description))
}

/// Tool descriptions for the stub host (used in prompt generation).
pub fn stub_tool_descriptions() -> (r: Vec<ToolDescription>)
    ensures
        stub_descriptions_are(r@),
        forall|i: int| 0 <= i < r@.len() ==> #[trigger] r@[i].name@ == stub_tool_names()[i],
{
    let echo = ToolDescription {
        name: owned("echo"),
        description: owned("Echoes the message back. Useful for testing."),
        args: vec![field("message", "string — the message to echo")],
        returns: vec![field("message", "string — the echoed message")],
    };
    let add = ToolDescription {
        name: owned("add"),
        description: owned("Adds two integers."),
        args: vec![field("a", "integer — first number"), field("b", "integer — second number")],
        returns: vec![field("result", "integer — the sum")],
    };
    let upper = ToolDescription {
        name: owned("upper"),
        description: owned("Converts a string to uppercase."),
        args: vec![field("text", "string — text to convert")],
        returns: vec![field("result", "string — the uppercased text")],
    };
    let time_now = ToolDescription {
        name: owned("time_now"),
        description: owned("Returns the current Unix timestamp."),
        args: Vec::new(),
        returns: vec![field("timestamp", "integer — Unix timestamp in seconds")],
    };
    let r = vec![echo, add, upper, time_now];
    r
}

} // verus!

verus! {

/// Every tool the stub descriptions offer is one the stub host serves.
pub proof fn lemma_described_tools_are_served(i: int)
    requires
        0 <= i < stub_tool_names().len(),
    ensures
        stub_serves(stub_tool_names()[i]),
{
}

/// A tool the stub host serves is never answered with the unknown-tool error.
pub proof fn lemma_served_tools_are_known(name: Seq<char>, args: Map<KeyModel, ValueModel>)
    requires
        stub_serves(name),
    ensures
        stub_response(name, args) != Err::<Map<KeyModel, ValueModel>, Seq<char>>(unknown_tool(name)),
{
    reveal_strlit("echo");
    reveal_strlit("add");
    reveal_strlit("upper");
    reveal_strlit("time_now");
    reveal_strlit("unknown tool '");
    reveal_strlit("'");
    reveal_strlit("add: expected integer arg 'a'");
    reveal_strlit("add: expected integer arg 'b'");
    reveal_strlit("upper: expected string arg 'text'");
    assert("echo"@.len() == 4);
    assert("add"@.len() == 3);
    assert("upper"@.len() == 5);
    assert("time_now"@.len() == 8);
    assert("unknown tool '"@.len() == 14);
    assert("'"@.len() == 1);
    assert("add: expected integer arg 'a'"@.len() == 29);
    assert("add: expected integer arg 'b'"@.len() == 29);
    assert("upper: expected string arg 'text'"@.len() == 33);
}

/// `time_now` reports the same fixed timestamp whatever it is given.
pub proof fn lemma_time_now_is_fixed(args: Map<KeyModel, ValueModel>)
    ensures
        stub_response("time_now"@, args) == Ok::<Map<KeyModel, ValueModel>, Seq<char>>(
            Map::empty().insert(str_key_model("timestamp"@), ValueModel::Integer(FIXED_TIMESTAMP)),
        ),
{
    reveal_strlit("echo");
    reveal_strlit("add");
    reveal_strlit("upper");
    reveal_strlit("time_now");
    assert("echo"@.len() == 4);
    assert("add"@.len() == 3);
    assert("upper"@.len() == 5);
    assert("time_now"@.len() == 8);
}

/// `echo` hands back the message it is given, and nothing where it is
/// given none.
pub proof fn lemma_echo_returns_message(args: Map<KeyModel, ValueModel>)
    ensures
        stub_response("echo"@, args) == Ok::<Map<KeyModel, ValueModel>, Seq<char>>(
            if args.contains_key(str_key_model("message"@)) && !(args[str_key_model("message"@)] is Nil) {
                Map::empty().insert(str_key_model("message"@), args[str_key_model("message"@)])
            } else {
                Map::empty()
            },
        ),
{
}

/// `add` of two integers answers their sum; without an integer `a` or `b`
/// it names the missing argument.
pub proof fn lemma_add_sums(args: Map<KeyModel, ValueModel>)
    ensures
        match (lookup(args, str_key_model("a"@)), lookup(args, str_key_model("b"@))) {
            (ValueModel::Integer(a), ValueModel::Integer(b)) => stub_response("add"@, args) == Ok::<
                Map<KeyModel, ValueModel>,
                Seq<char>,
            >(Map::empty().insert(str_key_model("result"@), ValueModel::Integer((a + b) as i64))),
            (ValueModel::Integer(_), _) => stub_response("add"@, args) == Err::<
                Map<KeyModel, ValueModel>,
                Seq<char>,
            >("add: expected integer arg 'b'"@),
            _ => stub_response("add"@, args) == Err::<Map<KeyModel, ValueModel>, Seq<char>>(
                "add: expected integer arg 'a'"@,
            ),
        },
{
    reveal_strlit("echo");
    reveal_strlit("add");
    assert("echo"@.len() == 4);
    assert("add"@.len() == 3);
}

/// The prover host's `random` always answers 42 and `fail` always fails.
pub proof fn lemma_prover_tools_are_fixed()
    ensures
        prover_response("random"@) == Ok::<Map<KeyModel, ValueModel>, Seq<char>>(
            Map::empty().insert(str_key_model("result"@), ValueModel::Integer(PROVER_RANDOM_RESULT)),
        ),
        prover_response("fail"@) == Err::<Map<KeyModel, ValueModel>, Seq<char>>("this tool always fails"@),
{
    reveal_strlit("random");
    reveal_strlit("fail");
    assert("random"@.len() == 6);
    assert("fail"@.len() == 4);
}

} // verus!

verus! {

/// Different names give different string keys.
pub proof fn lemma_str_key_model_injective(s: Seq<char>, t: Seq<char>)
    ensures
        str_key_model(s) == str_key_model(t) ==> s == t,
{
    vstd::utf8::encode_utf8_decode_utf8(s);
    vstd::utf8::encode_utf8_decode_utf8(t);
}

/// Whether two argument tables hold the same values under every key but `k`.
pub open spec fn agree_except(a1: Map<KeyModel, ValueModel>, a2: Map<KeyModel, ValueModel>, k: KeyModel) -> bool {
    forall|k2: KeyModel| k2 != k ==> #[trigger] lookup(a1, k2) == lookup(a2, k2)
}

/// Whether two argument tables hold the same values under the keys `fields` name.
pub open spec fn agree_on(
    a1: Map<KeyModel, ValueModel>,
    a2: Map<KeyModel, ValueModel>,
    fields: Seq<(String, String)>,
) -> bool {
    forall|j: int|
        0 <= j < fields.len() ==> lookup(a1, #[trigger] str_key_model(fields[j].0@)) == lookup(
            a2,
            str_key_model(fields[j].0@),
        )
}

/// Whether the stub host's answer to `name` depends on the argument `k`.
pub open spec fn reads_arg(name: Seq<char>, k: KeyModel) -> bool {
    exists|a1: Map<KeyModel, ValueModel>, a2: Map<KeyModel, ValueModel>|
        #[trigger] agree_except(a1, a2, k) && stub_response(name, a1) != stub_response(name, a2)
}

/// Whether `r` is a successful answer that sets `k`.
pub open spec fn sets_key(r: Result<Map<KeyModel, ValueModel>, Seq<char>>, k: KeyModel) -> bool {
    r matches Ok(m) && m.contains_key(k)
}

/// Whether some successful answer of the stub host to `name` sets `k`.
pub open spec fn may_set(name: Seq<char>, k: KeyModel) -> bool {
    exists|args: Map<KeyModel, ValueModel>| #[trigger] sets_key(stub_response(name, args), k)
}

/// Whether the stub host's handling of the tool `t` describes reads exactly
/// the described arguments and sets exactly the described results.
pub open spec fn matches_host(t: ToolDescription) -> bool {
    &&& forall|a1: Map<KeyModel, ValueModel>, a2: Map<KeyModel, ValueModel>|
        #[trigger] agree_on(a1, a2, t.args@) ==> stub_response(t.name@, a1) == stub_response(t.name@, a2)
    &&& forall|j: int| 0 <= j < t.args@.len() ==> reads_arg(t.name@, #[trigger] str_key_model(t.args@[j].0@))
    &&& forall|args: Map<KeyModel, ValueModel>, k: KeyModel|
        #[trigger] sets_key(stub_response(t.name@, args), k) ==> exists|j: int|
            0 <= j < t.returns@.len() && k == #[trigger] str_key_model(t.returns@[j].0@)
    &&& forall|j: int| 0 <= j < t.returns@.len() ==> may_set(t.name@, #[trigger] str_key_model(t.returns@[j].0@))
}

proof fn lemma_tool_names_distinct()
    ensures
        "echo"@ != "add"@,
        "echo"@ != "upper"@,
        "echo"@ != "time_now"@,
        "add"@ != "upper"@,
        "add"@ != "time_now"@,
        "upper"@ != "time_now"@,
        "a"@ != "b"@,
{
    reveal_strlit("echo");
    reveal_strlit("add");
    reveal_strlit("upper");
    reveal_strlit("time_now");
    reveal_strlit("a");
    reveal_strlit("b");
    assert("echo"@.len() == 4);
    assert("add"@.len() == 3);
    assert("upper"@.len() == 5);
    assert("time_now"@.len() == 8);
    assert("a"@[0] == 'a');
    assert("b"@[0] == 'b');
}

proof fn lemma_echo_matches_host(d: Seq<ToolDescription>)
    requires
        stub_descriptions_are(d),
    ensures
        matches_host(d[0]),
{
    let t = d[0];
    assert(t.args@[0].0@ == "message"@);
    assert(t.returns@[0].0@ == "message"@);
    let km = str_key_model("message"@);
    assert forall|a1: Map<KeyModel, ValueModel>, a2: Map<KeyModel, ValueModel>|
        #[trigger] agree_on(a1, a2, t.args@) implies stub_response(t.name@, a1) == stub_response(t.name@, a2) by {
        assert(lookup(a1, str_key_model(t.args@[0].0@)) == lookup(a2, str_key_model(t.args@[0].0@)));
    }
    let e = Map::<KeyModel, ValueModel>::empty();
    let w = e.insert(km, ValueModel::Integer(0));
    assert(agree_except(e, w, km));
    assert(sets_key(stub_response("echo"@, w), km));
    assert(stub_response("echo"@, e) != stub_response("echo"@, w)) by {
        assert(!Map::<KeyModel, ValueModel>::empty().contains_key(km));
    }
    assert(reads_arg("echo"@, km));
    assert(may_set("echo"@, km));
    assert forall|args: Map<KeyModel, ValueModel>, k: KeyModel|
        #[trigger] sets_key(stub_response(t.name@, args), k) implies exists|j: int|
            0 <= j < t.returns@.len() && k == #[trigger] str_key_model(t.returns@[j].0@) by {
        assert(k == str_key_model(t.returns@[0].0@));
    }
}

proof fn lemma_add_matches_host(d: Seq<ToolDescription>)
    requires
        stub_descriptions_are(d),
    ensures
        matches_host(d[1]),
{
    let t = d[1];
    lemma_tool_names_distinct();
    lemma_str_key_model_injective("a"@, "b"@);
    assert(t.name@ == "add"@);
    assert(t.args@[0].0@ == "a"@);
    assert(t.args@[1].0@ == "b"@);
    assert(t.returns@[0].0@ == "result"@);
    let ka = str_key_model("a"@);
    let kb = str_key_model("b"@);
    let kr = str_key_model("result"@);
    assert forall|a1: Map<KeyModel, ValueModel>, a2: Map<KeyModel, ValueModel>|
        #[trigger] agree_on(a1, a2, t.args@) implies stub_response(t.name@, a1) == stub_response(t.name@, a2) by {
        assert(lookup(a1, str_key_model(t.args@[0].0@)) == lookup(a2, str_key_model(t.args@[0].0@)));
        assert(lookup(a1, str_key_model(t.args@[1].0@)) == lookup(a2, str_key_model(t.args@[1].0@)));
    }
    let zero = ValueModel::Integer(0);
    let only_a = Map::<KeyModel, ValueModel>::empty().insert(ka, zero);
    let only_b = Map::<KeyModel, ValueModel>::empty().insert(kb, zero);
    let both = only_a.insert(kb, zero);
    assert(both =~= only_b.insert(ka, zero));
    assert(lookup(only_b, ka) == ValueModel::Nil);
    assert(lookup(only_a, kb) == ValueModel::Nil);
    assert(agree_except(only_b, both, ka));
    assert(agree_except(only_a, both, kb));
    assert(stub_response("add"@, both) is Ok);
    assert(stub_response("add"@, only_b) is Err);
    assert(stub_response("add"@, only_a) is Err);
    assert(reads_arg("add"@, ka));
    assert(reads_arg("add"@, kb));
    assert(sets_key(stub_response("add"@, both), kr));
    assert(may_set("add"@, kr));
    assert forall|j: int| 0 <= j < t.args@.len() implies reads_arg(t.name@, #[trigger] str_key_model(t.args@[j].0@)) by {
        if j == 0 {
        } else {
            assert(j == 1);
        }
    }
    assert forall|args: Map<KeyModel, ValueModel>, k: KeyModel|
        #[trigger] sets_key(stub_response(t.name@, args), k) implies exists|j: int|
            0 <= j < t.returns@.len() && k == #[trigger] str_key_model(t.returns@[j].0@) by {
        assert(k == str_key_model(t.returns@[0].0@));
    }
}

proof fn lemma_upper_matches_host(d: Seq<ToolDescription>)
    requires
        stub_descriptions_are(d),
    ensures
        matches_host(d[2]),
{
    let t = d[2];
    lemma_tool_names_distinct();
    assert(t.name@ == "upper"@);
    assert(t.args@[0].0@ == "text"@);
    assert(t.returns@[0].0@ == "result"@);
    let kt = str_key_model("text"@);
    let kr = str_key_model("result"@);
    assert forall|a1: Map<KeyModel, ValueModel>, a2: Map<KeyModel, ValueModel>|
        #[trigger] agree_on(a1, a2, t.args@) implies stub_response(t.name@, a1) == stub_response(t.name@, a2) by {
        assert(lookup(a1, str_key_model(t.args@[0].0@)) == lookup(a2, str_key_model(t.args@[0].0@)));
    }
    let e = Map::<KeyModel, ValueModel>::empty();
    let w = e.insert(kt, ValueModel::Str(Seq::empty()));
    assert(agree_except(e, w, kt));
    assert(stub_response("upper"@, e) is Err);
    assert(sets_key(stub_response("upper"@, w), kr));
    assert(reads_arg("upper"@, kt));
    assert(may_set("upper"@, kr));
    assert forall|args: Map<KeyModel, ValueModel>, k: KeyModel|
        #[trigger] sets_key(stub_response(t.name@, args), k) implies exists|j: int|
            0 <= j < t.returns@.len() && k == #[trigger] str_key_model(t.returns@[j].0@) by {
        assert(k == str_key_model(t.returns@[0].0@));
    }
}

proof fn lemma_time_now_matches_host(d: Seq<ToolDescription>)
    requires
        stub_descriptions_are(d),
    ensures
        matches_host(d[3]),
{
    let t = d[3];
    lemma_tool_names_distinct();
    assert(t.name@ == "time_now"@);
    assert(t.returns@[0].0@ == "timestamp"@);
    let ks = str_key_model("timestamp"@);
    let e = Map::<KeyModel, ValueModel>::empty();
    assert(sets_key(stub_response("time_now"@, e), ks));
    assert(may_set("time_now"@, ks));
    assert forall|args: Map<KeyModel, ValueModel>, k: KeyModel|
        #[trigger] sets_key(stub_response(t.name@, args), k) implies exists|j: int|
            0 <= j < t.returns@.len() && k == #[trigger] str_key_model(t.returns@[j].0@) by {
        assert(k == str_key_model(t.returns@[0].0@));
    }
}

/// The stub tools' descriptions match the stub host: their names are
/// pairwise distinct and are exactly the tools the host knows (every other
/// name is answered with the unknown-tool error); for each tool, the host's
/// answer depends on exactly the described arguments, and a successful
/// answer sets only, and can set each of, the described results.
pub proof fn lemma_descriptions_match_host(d: Seq<ToolDescription>)
    requires
        stub_descriptions_are(d),
    ensures
        forall|i: int, j: int| 0 <= i < j < d.len() ==> #[trigger] d[i].name@ != #[trigger] d[j].name@,
        forall|n: Seq<char>| #[trigger] stub_serves(n) <==> exists|i: int| 0 <= i < d.len() && #[trigger] d[i].name@ == n,
        forall|n: Seq<char>, args: Map<KeyModel, ValueModel>|
            #[trigger] stub_response(n, args) == Err::<Map<KeyModel, ValueModel>, Seq<char>>(unknown_tool(n))
                <==> !stub_serves(n),
        forall|i: int| 0 <= i < d.len() ==> matches_host(#[trigger] d[i]),
{
    lemma_tool_names_distinct();
    assert(d[0].name@ == "echo"@);
    assert(d[1].name@ == "add"@);
    assert(d[2].name@ == "upper"@);
    assert(d[3].name@ == "time_now"@);
    assert forall|n: Seq<char>| #[trigger] stub_serves(n) implies exists|i: int| 0 <= i < d.len() && #[trigger] d[i].name@ == n by {
        if n == "echo"@ {
            assert(d[0].name@ == n);
        } else if n == "add"@ {
            assert(d[1].name@ == n);
        } else if n == "upper"@ {
            assert(d[2].name@ == n);
        } else {
            assert(d[3].name@ == n);
        }
    }
    assert forall|n: Seq<char>, args: Map<KeyModel, ValueModel>|
        #[trigger] stub_response(n, args) == Err::<Map<KeyModel, ValueModel>, Seq<char>>(unknown_tool(n))
            <==> !stub_serves(n) by {
        if stub_serves(n) {
            lemma_served_tools_are_known(n, args);
        }
    }
    lemma_echo_matches_host(d);
    lemma_add_matches_host(d);
    lemma_upper_matches_host(d);
    lemma_time_now_matches_host(d);
    assert forall|i: int| 0 <= i < d.len() implies matches_host(#[trigger] d[i]) by {
        if i == 0 {
        } else if i == 1 {
        } else if i == 2 {
        } else {
            assert(i == 3);
        }
    }
}

} // verus!

verus! {

/// `upper` converts the whole text it is given and nothing else: its
/// result is std's upper-case mapping of all of the decoded text, leading
/// and trailing characters included, encoded as UTF-8.
pub proof fn lemma_upper_converts_whole_text(args: Map<KeyModel, ValueModel>, text: Seq<u8>)
    requires
        args.contains_key(str_key_model("text"@)),
        args[str_key_model("text"@)] == ValueModel::Str(text),
    ensures
        stub_response("upper"@, args) == Ok::<Map<KeyModel, ValueModel>, Seq<char>>(
            Map::empty().insert(
                str_key_model("result"@),
                ValueModel::Str(vstd::utf8::encode_utf8(unicode_uppercase(utf8_lossy(text)))),
            ),
        ),
{
    lemma_tool_names_distinct();
}

} // verus!
