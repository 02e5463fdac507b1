# warp_ai

The AI credentials, providers and agent harnesses of the Warp client, verified with Verus.

The library under `src/` computes on plain values and says what is left to do; the crate under
`app/` does it: it talks to servers, the secure storage, the preferences, timers and child
processes, and hands back what came of it.

| Module | What it is about |
| --- | --- |
| `keys`, `tokens`, `credentials` | what the user has entered or connected |
| `manager` | the manager of all that, its events and its writes to the secure storage |
| `request` | what of it a request carries |
| `endpoint`, `models` | what the URL of an endpoint says, and the models that it lists |
| `oauth`, `chatgpt` | connecting a ChatGPT subscription and keeping its tokens fresh |
| `direct`, `chat` | which requests go to a provider directly, and what is sent |
| `stream`, `tools`, `events` | how the answer streams in, and the events that it turns into |
| `harness`, `availability` | the agent harnesses, their models and their secrets |
| `json`, `text`, `order`, `time`, `ids`, `unicode` | what the others are built on |

What is taken on trust stands in `json` (reading JSON), `unicode` (the Unicode tables), `time`
(the clocks) and `ids` (random identifiers). Public proof functions whose names start with `law_`
state what holds of several functions together.
