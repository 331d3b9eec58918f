# agent_loop

The pieces of a tool-calling agent loop for OpenAI-compatible endpoints, as a verified
library with a small program around it.

- `src/` is the library. Every function in it carries a contract that Verus proves, from
  what the doc comments of a few declarations say is believed of `serde_json` and `std`. It
  reaches nothing outside itself: what reads files, starts processes, talks to servers or
  computes with floating-point numbers is handed in as functions, and the contracts say
  what is done with whatever those give back. A function that is handed in is only asked to
  accept what it may be called with, so what is never asked of it is never done: no search is
  sent without a key, no request where none may be sent, and no tool is run on arguments that
  are no JSON.
- `app/` is the program: it hands in the real files, the shell, the web, threads and
  floating-point arithmetic, and runs one prompt from the command line.
- `tests/` runs the library on concrete values.

| Module | What it holds |
|--------|---------------|
| `chat` | messages, requests, responses, the client's side of an exchange |
| `wire` | the JSON that goes over the wire |
| `tools` | tools for files, the shell, the web and arithmetic; the registry, which can be changed while the agent runs |
| `calc` | arithmetic expressions: grammar, stack code, evaluation |
| `executor` | running tool calls one after the other or side by side |
| `hooks` | callbacks for `pretooluse`, `posttooluse`, `userpromptsubmit`, `stop`, `subagentstart`, `subagentstop`, and the log of what fired |
| `agent` | the loop, step by step and as a whole |
| `trace` | the record of a run and its transcript |
| `json`, `text` | JSON values and strings |

What holds of the library as a whole stands as proof functions next to what they speak of:

- `agent/laws.rs`: the history and the transcript only grow, each call is answered in order
  under its id, each trace holds the request that was sent and the raw body that came back,
  what the log says of a run;
- `calc/laws.rs`: an expression that is written out is read back and evaluated as meant, a
  printed number among them;
- `calc/joined.rs`: texts that have values can be bracketed, negated and joined by operators,
  and a divisor of zero is refused;
- `calc/texts.rs`: a text that has a value holds only what the grammar knows, with its
  brackets closed, and is read to its end;
- `wire/laws.rs`, `json.rs`: requests and responses are in the one form in which JSON values
  are kept and printed;
- `executor.rs`: calls that are run side by side get the answers that they get one after the
  other;
- `tools.rs`, `tools/file_tools.rs`: registering and unregistering, reading back what was
  written;
- `chat.rs`, `hooks.rs`, `wire.rs`, `trace.rs`, `text.rs`.

The program reads these variables, from the environment or from a `.env` file; those that
are set in the environment win.

| Variable | Purpose | Default |
|----------|---------|---------|
| `OPENAI_BASE_URL` | base URL of the endpoint | `https://api.openai.com/v1` |
| `OPENAI_API_KEY` | key for the endpoint | none |
| `AGENT_LOOP_MODEL` | model name | `gpt-4o-mini` |
| `TAVILY_API_KEY` | key for the `web_search` tool | none |
