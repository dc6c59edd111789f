# dpilot

A guided deployment tool: declarative YAML recipes describe the questions to
ask (text, number, password, confirm, select) and the shell steps to run,
with Jinja templates filled in from the answers.

Layout:

- `src/` — the verified library (Verus):
  - `text.rs` — character-level text operations with their specifications
    (prefixes, suffix trimming, whitespace, ASCII case, decimal numbers,
    line splitting, the order of strings);
  - `recipe.rs` — the recipe model, its defaults and the platform rules;
  - `context.rs` — the collected answers, a map from input id to value;
  - `template.rs` — rendering of step commands with minijinja;
  - `prompt.rs` — what each prompt asks and accepts, and the summary;
  - `registry.rs`, `embedded.rs` — listing, ordering and resolving recipes,
    and the built-in recipes;
  - `executor.rs` — which steps run, dry-run previews, step outcomes;
  - `cli.rs` — the commands and their decisions;
  - `laws.rs` — properties that relate several operations.
- `tests/` — tests of the library.
- `app/` — the command-line program: argument parsing, prompts, network and
  file access, YAML parsing and process execution.
