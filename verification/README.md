# imagent

A bridge between a chat platform (Feishu) and a command line agent, verified with Verus.

The library under `src/` holds everything that is decided: what an event means, who may click
which button and for how long, what a card shows, how a text is split, where a message goes and
what is tried next where the platform refuses. Each function has a contract, and Verus proves
it. What the functions keep between them is stated as public proof functions named `law_…`.

`app/` is ordinary Rust around the library. It holds the connection, the HTTP requests, the
files on disk and the child processes; it performs what the library asks for and hands back what
came of it.

`tests/` runs the library on concrete events, cards and replies.

## Layout

| module | what it decides |
| --- | --- |
| `digits`, `text`, `json`, `clock`, `table` | numbers, texts, documents, the time, tables by name |
| `model`, `errors`, `conv`, `dedup` | messages and cards as data, errors, names of conversations, keys of events |
| `events`, `message`, `forward`, `card_action`, `notices` | what an event of the platform means |
| `markdown`, `status`, `parts`, `task_card`, `ask_card`, `command_card` | what a card shows |
| `clicks` | what a click on the buttons of these cards comes to |
| `requests`, `replies`, `media`, `fetching` | requests of the platform's interface, their replies, names of files, fetching files |
| `retry`, `routing`, `session`, `asks`, `drain` | waits, destinations, memory, open questions, effects of an event |
| `card_flow`, `flows` | sending and changing cards and texts, step by step |
| `gemini` | starting the agent and reading what it prints |

## Trust

The contracts of a few wrappers are believed: `serde_json` (reading and printing documents),
`regex` (masking mail addresses), `base64`, `rand`, `chrono` and the system clock. Each says in
its comment what is claimed of the function that it calls.
