# grindbot

Grindbot supervises autonomous implementer agents: it watches a GitHub repository for
issues by allowlisted authors, starts a Polytoken agent session in a fresh jj workspace for
each eligible issue, and merges the finished work (rebase onto the base branch, bookmark,
push, comment), resolving merge conflicts with a one-shot agent when needed.

## Layout

- `src/` — the library, verified with Verus. Every decision of the supervisor lives here,
  with a contract:
  - `config` — the configuration, its defaults and its validation;
  - `kernel` — the supervisor's state snapshot, the planner that turns it into actions, the
    eligibility rules, and the planner's laws (`kernel::laws`);
  - `state_file` — the persistent record of running and completed work, feedback requests and
    conflict-retry counters;
  - `merge_flow` — merging an implementation and resolving conflicts, as a state machine
    that names one outside command at a time;
  - `supervisor` — how observed sessions and workspaces become the planner's state, startup
    cleanup decisions, and action descriptions;
  - `workspace`, `prompt` — the files and texts an implementer session is given;
  - `status`, `doctor`, `handoff`, `merge_lock` — the other commands' logic;
  - `io` — the values exchanged with GitHub, jj, Polytoken and the filesystem, and the
    parsing of what those tools print;
  - `text` — character-sequence functions (lines, words, trimming, decimal numbers,
    replacement) with exact specifications.
- `app/` — the `grindbot` command line: argument parsing, the daemon loop, and the calls to
  `gh`, `jj`, the Polytoken daemon and the filesystem that the library's decisions name.
- `tests/` — tests of the library on concrete values.

## Commands

```
grindbot supervise [--config grindbot.toml] [--dry-run]
grindbot status [--config grindbot.toml]
grindbot doctor [--config grindbot.toml]
grindbot handoff done --commit <rev> --plan-review <text> --implementation-review <text> \
    --test NAME=RESULT ... --acceptance CRITERION=VERIFICATION ... [--summary <text>] [--issue <n>]
grindbot handoff needs-feedback (--message <text> | --message-file <path>)
```
