# policy_local

The policy advisor API that a sandbox serves to the agents inside it, at
`http://policy.local`. An agent whose request was denied reads the current
policy and the recent denials, and proposes a narrow rule for a developer to
approve or reject.

- `GET /v1/policy/current`: the current policy as YAML.
- `GET /v1/denials?last=10`: the most recent network and HTTP denials, newest
  first.
- `POST /v1/proposals`: submit a proposal.

## Layout

- `src/` is the library. What it decides and computes is stated in contracts and
  proved with Verus.
  - `request`, `reply`, `wire`: HTTP requests and responses.
  - `routes`, `context`: which request is for what, and what the sandbox knows.
  - `logs`, `denials`: log files and the denials in them.
  - `proposal`, `chunks`, `submit`: from a proposal to what is submitted.
  - `json`, `text`, `split`: documents and text.
  - `outside`: what is taken on trust from `serde_json` and from std.
  - `laws`: what holds of the API as a whole.
- `app/` reads and sends bytes, lists and reads log files, decodes the bodies of
  proposals and calls the gateway.
- `tests/` runs the library.
