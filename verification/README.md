# LivePaper

LivePaper turns research papers into a knowledge base that researchers can
question. A paper is ingested (its PDF read, its knowledge extracted by a
language model, its text embedded); a question is answered from the vector
store and the knowledge graph; and when the answer has a gap, the question is
emailed to experts and authors, whose responses flow back into the knowledge
base.

## Layout

- `src/` — the library, verified with Verus. Every public function states
  its result in `ensures` over spec functions and views.
  - `text`, `numeral`, `json` — characters, decimal numbers, JSON values.
  - `models`, `requests`, `errors`, `config` — the domain types, request
    checks, errors and their HTTP answers, settings.
  - `extraction`, `pdf`, `retrieval`, `graph` — reading the model's
    extraction, cleaning and chunking PDF text, vector metadata and the
    knowledge-base context, graph lookups.
  - `gap`, `router`, `chat`, `ingestion`, `responses` — the agents, each a state machine
    whose `step` takes what the last request returned and says what to
    request next; their laws (invariants kept by every step, what a finished
    run reports) are proof functions beside them.
  - `email`, `langfuse`, `auth`, `tools` — email contents, tracing
    authorization, identity tokens, tool results.
- `tests/` — tests of the library on concrete values.
- `app/` — the HTTP service around the library: configuration, the stores
  (PostgreSQL, Neo4j, Pinecone), the model, embedding, email and tracing
  services, and the drivers that run the agents' state machines.

Calls into outside crates (`serde_json`, `base64`, `jsonwebtoken`, `uuid`,
and a few `std` character functions) stand behind small trusted wrappers
whose contracts are documented where they are declared. Text extraction with
`pdf-extract` happens in `app/`, since that crate can panic on malformed
documents; the library cleans and chunks the text it hands back.
