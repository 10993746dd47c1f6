# Cockatiel

A chat engine that modules connect to. Adapters bring messages in from chat platforms;
pre-process, in-process and post-process modules work on them in turn; displays show them.
The engine lets modules in, keeps them apart, routes what they send, answers their queries
and keeps the timeline.

## Layout

- `src/` is the library: the engine's rules, written in Verus. Every function states in
  `ensures` what it returns or changes; where the clock or chance decides, what holds of
  every outcome. What holds of several functions together stands in
  public proof functions whose names begin with `law_`.
- `app/` is the program around it: sockets, files, databases and terminals. It performs what
  the library asks for and hands back what came of it. `main` takes the name of the program
  to run: `engine`, `tui`, `view`, `help`, `timeline` or `users`.
- `tests/` runs the library on concrete values, with the outside crates linked.

## The library

| Part | Modules |
| --- | --- |
| The way of a message | `pipeline`, `orchestrator`, `writes`, `command_registry`, `chat_commands`, `handlers` |
| Modules | `connection`, `auth`, `trust`, `prompts`, `liveness`, `module_manager`, `module_registry`, `module_list`, `module_client` |
| Queries | `queries`, `user_queries`, `user_db_client`, `sql` |
| What is kept | `database`, `timeline_database`, `user_database`, `user_store`, `conduct`, `config`, `credentials`, `env_file`, `engine_state`, `tls` |
| Terminals | `tui`, `user_view`, `panes`, `keymap`, `help` |
| Ground | `proto`, `json`, `text`, `strmap`, `random`, `clock` |

Work that alternates with the outside is a state machine: `PipelineOrchestrator::step` takes
the next piece of work of a task and says which action has to be performed before it is asked
again. The queries about users work the same way, one request to the user database at a time.

## What is taken on trust

Calls into outside crates stand in small wrappers with a contract that is not proved: signing
and reading tokens (`auth`), reading and writing JSON (`json`), ids (`random`), the clock
(`clock`, `user_store`), certificates (`tls`), lower case (`text`) and bytes as text
(`database`). Each says in its doc comment which function it calls and what is claimed of it.
