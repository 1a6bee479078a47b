# monkey

A self-hosted bot that triages GitHub issues. It receives webhooks, runs a
coding agent in a git worktree of the issue, and writes the result back to
GitHub through a service that alone holds the token.

The logic is a library that is verified with Verus: every function states in
its contract what it returns, and every contract is proved. The program around
it does what cannot be proved: it serves HTTP, runs git and the agent, and keeps
the tables in SQLite.

## The library (`src/`)

| Module | What it decides |
|--------|-----------------|
| `hmac_auth` | signatures of webhooks and of calls between the two services |
| `webhook` | which deliveries are let in, and which of them are stored |
| `db` | the queue of events, the record of calls, the schedule of closings |
| `dispatch` | which events call for work, and what the agent is asked to do |
| `worker` | which events are worked on at once, in which steps, and with what |
| `sandbox` | where checkouts live, and the commands that prepare and remove them |
| `adapters` | the session with the agent: its messages, its states, its outcome |
| `gh_writeback` | pull request or comment, the title, an existing pull request |
| `host_tools` | the client's calls to the proxy, their signatures and their log |
| `gh_proxy` | which requests the proxy lets in, what it asks of GitHub, what it answers |
| `autoclose` | when answered questions are closed, and who can object |
| `config`, `cli` | settings from the environment, targets on the command line |
| `text`, `decimal`, `json` | strings, numbers and JSON values with exact statements |
| `foreign` | the calls into other crates, with what is believed of each |

Properties that span several functions are public proof functions whose names
begin with `law_`.

What is not proved is gathered in `foreign`: each function there calls another
crate or a part of the standard library, and its doc comment says what is
claimed of the call.

## The program (`app/`)

`monkey serve` runs the webhook, the worker and the closing of questions;
`monkey gh-proxy` runs the service that holds the token; `monkey triage`,
`monkey status` and `monkey cleanup` look at and tidy up what they left.
