# typesafe-llm-router

A session router for LLM calls: System One **Choice** picks the next model
from an allowlist enriched with per-model cost and cache economics, a
**ModelProvider** runs the chosen model, and the turn is recorded with a
**Score** job that a worker runs later, off the hot path.

The library under `src/` is written in Verus; every function carries a
contract that Verus checks.

| Module | What it holds |
| --- | --- |
| `catalog` | Cost/cache profiles per model, allowlist enrichment |
| `pack` | The System One routing request: state JSON plus the `route_to` and `primary_reason` Choices |
| `router` | Reading the Choice answers into a `RouterDecision`; `Router::route` |
| `typesafe` | System One request/response bodies, the client trait, the offline stub client, HTTP client configuration |
| `model_provider` | Provider model cards, execution requests, the stub, Databricks AI Gateway and Cursor agent providers |
| `score`, `score_queue` | Outcome records, Score packing/reading, the hot path and the Score worker |
| `json`, `keyed_map`, `text` | A JSON document model, a sorted string-keyed map, text rendering and comparison |

Prices are integers in micro-USD per million tokens; probabilities,
confidences and scores are millionths.

`app/` is the command-line program (file-backed queue and store, HTTP
clients, the Cursor helper process, serde forms of the library's values).
`tests/` exercises the library through its public API.
