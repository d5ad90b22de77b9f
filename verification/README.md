# luai_orchestrator

The verified core of an LLM-driven pipeline for the luai Lua VM: a model is
asked for a Lua program, the program is compiled, verified and run, and when
it fails the model is told what failed and asked again.

- `src/` is the library, verified with Verus: the system prompt, the
  clean-up of the model's answer, the retry decisions, the error texts and
  the execution report, the stub and prover tool hosts over a model of Lua
  tables, and the source-line lookup used for runtime errors.
- `app/` is the program around it: the command line, the HTTP client for
  the messages API, and the calls into the luai crate (parser, compiler,
  bytecode verifier, VM, zkVM prover), with the conversions between luai's
  values and the library's.
- `tests/` runs the library on concrete values.
