# lspctl

A command line client for language servers. It asks servers for definitions,
references, symbols and diagnostics, turns the edits that they propose into
previews, and applies previews as transactions that can be rolled back.

`src/` is the core, verified with Verus. It decides; it does not touch the
filesystem, the network or other processes. Where a decision needs one of these,
the core is a machine that is stepped: it names an action, the caller carries it
out and hands back what it came to. `app/` is the caller.

| Part | Modules |
| --- | --- |
| Values | `text`, `json`, `path`, `uri`, `os_text`, `order`, `sorted`, `ranking`, `digest`, `timing`, `failure` |
| Configuration and trust | `configuration`, `config_*`, `settings`, `trust`, `trust_commands`, `trust_run`, `commands`, `invocation` |
| Queries | `query_*`, `capabilities`, `compose`, `documents`, `position`, `glob` |
| Sessions | `owner`, `owner_*`, `dispatch_run` |
| Planning edits | `edit_syntax`, `edits`, `manifest`, `plan`, `plan_*`, `planner`, `inspection`, `resource_digests` |
| Previews and applications | `proposals`, `preview_run`, `apply_run`, `application`, `application_laws`, `checks`, `staging`, `stage_run`, `commit_run`, `rollback`, `rollback_run` |
| Recovery and reports | `recovery`, `recovery_reports`, `reports`, `mutation_reports` |
| State | `records`, `record_copies`, `store`, `state`, `state_ops`, `state_prune`, `state_laws`, `chains` |

A stepped machine has a view with three functions: `sound` says what holds between
steps, `expects` which events may follow, and `next` what follows an event. Its
`step` is proved to do what `next` says.

Functions named `law_*` state what holds of several functions, or of every
sequence of steps.
