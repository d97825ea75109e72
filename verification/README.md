# Bouclier Bleu

The userland of a modular endpoint defence for Linux: kernel programs hook the security-relevant
system calls, the daemon loads and configures them, turns what they report into alerts, and takes
commands over a local socket.

The logic is a Verus library whose behaviour is stated in contracts and proved:

| Module | What it is about |
| --- | --- |
| `reader`, `encoding`, `text` | Extraction of numbers and sanitized text from raw kernel records |
| `heuristics` | The records and reports of each heuristic, rename entropy, strikes, remediation |
| `catalog`, `module` | The heuristics as data, the modules that run them, their registry |
| `fs_utils`, `hardware_key`, `watchlist`, `notices` | What a watchlist covers, how large it is, how it is filled, what is told of that |
| `siem`, `json`, `fields`, `log_safety` | The SIEM stream and the operator's log |
| `secure_dir`, `config`, `startup` | Directories only root may enter, the configuration, the host |
| `engine`, `pipeline`, `actor`, `ipc` | Loaded programs, telemetry routing, commands, connections |
| `skeleton` | Names of kernel programs |
| `xtask` | The test pipeline |

Where the outside world is involved, the library decides and its caller acts: a function or a small
state machine takes what happened and says what to do next. The programs under `app/` perform the
actions: the daemon, the command-line client and the test pipeline.

Public proof functions whose names begin with `law_` state what holds of the library as a whole.
