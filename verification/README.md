# smlang_macros

The verified core of a procedural macro that turns a state machine DSL into
Rust code:

```text
statemachine! {
    name: Door,
    transitions: {
        *Closed + Open [unlocked && !jammed] / swing = Opened,
        Opened + Close / shut = Closed,
    }
}
```

- `src/tokens.rs`: token trees as plain values, and parse errors.
- `src/transition.rs`: guards, actions, input and output states, and the
  grammar of a line of the `transitions` block.
- `src/state_machine.rs`: the definition as written and its parser.
- `src/parsed.rs`: the checked definition that code generation reads.
- `src/codegen.rs`: the plan of the generated code (type names, enum
  variants, declarations of guards and actions, hooks, the dispatch of
  `process_event`).
- `src/codegen_laws.rs`, `src/parse_laws.rs`: properties proved of every plan
  and every parse.
- `src/verdicts.rs`: what syn said of the texts of a definition, gathered
  before parsing; the parser reads only these verdicts.
- `src/outside.rs`: the calls into `string_morph`, `syn` and std.
- `app/lib.rs`: the macro side: token conversion and writing out the plan with
  `quote`.
