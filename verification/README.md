# CloudFolder

CloudFolder brings a directory of a Linux server to Windows as an ordinary path. A service per
mount keeps `rclone` and WinFsp running, and the command line `cf` runs programs on the server
in the directory that stands for the current one.

The rules of both programs are a library in `src/`, written and proved in Verus. It decides and
computes on plain values: what a configuration must satisfy, what the supervisor of a mount does
next, which remote directory stands for a local one, what is handed to `ssh` and `rclone`, what
their replies mean. `app/` performs what the library decides: files, processes, sockets, the
Windows service manager.

| Modules | About |
| --- | --- |
| `config`, `sockaddr`, `setup`, `rclone` | a mount's configuration and how rclone is run for it |
| `supervisor`, `watch`, `cleanup`, `service` | the life of a mount and of its service, as state machines |
| `change_feed`, `json` | changes on the server and what they make the local view forget |
| `logger`, `clock` | the service log and the time |
| `mounts`, `encoding`, `winpath` | mount records, their files, and Windows paths |
| `remote`, `environment`, `shell`, `ssh` | what is run on the server, and how it gets there unchanged |
| `jobs`, `forward`, `agent`, `arguments`, `cli` | the commands of `cf` |
| `text` | text as a sequence of characters |

Properties that span functions are public proof functions whose names begin with `law_`: that
waits grow exponentially and stay bounded, that user data at a mount point is never touched, that
a shell on the server reads back just the arguments that were given, that a subdirectory stands
for the subdirectory of the same name, and others.

What is believed without proof stands in items marked `external_body` or declared with
`assume_specification`, each with a comment that says what is claimed: calls into `serde_json` and
`chrono`, and a few functions of the standard library.

`cf agent` keeps its guidance in the instruction files of the coding agents that `agents.json`
beside the programs lists (an array of objects with `label`, `directory` and `file`), and of Codex.
