# yzz-llm-proxy

An OpenAI-compatible proxy: coding agents and other clients talk to one
`/v1/chat/completions` endpoint, and the proxy talks to Kiro and DashScope.

- `src/` is the library, written in Verus: how a chat request becomes a provider request, how
  Kiro's stream becomes an OpenAI answer, how tokens are found, judged and renewed, and which
  models are listed and served. The contract of every function is proved, except for the small
  wrappers around calls into other crates and the standard library: each of these says in its
  doc comment what is taken on trust of the call.
- `app/` is the program around it: configuration file, kiro-cli's database, HTTP client and
  server.
- `tests/` runs the library on concrete values.

## Configuration

On the first run the program creates `~/.config/yzz-llm-proxy/config.toml`:

```toml
[server]
listen = "127.0.0.1:8127"

[[accounts]]
provider = "kiro"
```

For Kiro, kiro-cli has to be installed and logged in; the proxy reads its database.

For DashScope an API key is enough:

```toml
[[accounts]]
provider = "dashscope"
base_url = "https://..."
api_key = "..."
```

A request for `dashscope/<model-id>` is sent to DashScope in Anthropic's form. What DashScope
answers is not yet turned into an OpenAI answer: the client gets the status 501. The environment
variable `YZZ_LLM_PROXY_CLIENT` names the coding agent as whose command line the proxy presents
itself to DashScope.

## Endpoints

- `POST /v1/chat/completions`: chat completions, streaming and non-streaming
- `GET /v1/models`: the models that Kiro names, as `kiro/<model-id>`
