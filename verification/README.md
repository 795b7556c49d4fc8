# openclaw_probe

The rules of an agent that looks after the OpenClaw gateways of a host: when an instance
counts as down, when it is restarted, what its token usage costs, what goes into a backup
and how a restore or an upgrade proceeds, and what the agent answers over HTTP. The rules
are written in Verus; functions state what they return, and the statements are proved. Only
what goes by the clock, by chance or by the name of the host is left open.

- `src/` is the library. Its public `law_*` proof functions state what holds of several
  functions together.
- `tests/` runs the library on concrete values.
- `app/` is the service around the library: files, commands, the database, HTTP.

## Modules

| Module | Subject |
|--------|---------|
| `config` | the configuration, and when its file is loaded again |
| `probe`, `restart`, `scheduler` | health probes, actions on gateways, automatic restarts |
| `collector`, `cron` | what the files of an instance tell of it |
| `token_scanner`, `tokens` | token usage in session files, prices, reports |
| `tasks`, `work`, `backup`, `restore`, `upgrade`, `maintenance` | operations in the background |
| `install`, `release`, `versions` | the installed version and the latest one |
| `system_metrics` | what system commands tell of the machine |
| `agent`, `instances`, `events`, `requests`, `auth`, `database` | requests, answers, rows |
| `json`, `text`, `paths`, `numbers`, `clock`, `order`, `seqs`, `store` | the plain values that the rest works on |

## Values

- JSON is the type `Json`; numbers with a fraction are held as decimal text.
- Times are seconds and nanoseconds, response times hundredths of a millisecond, costs
  whole millionths of a dollar.

## Prices

A list of prices can stand beside `config.json` as `pricing.json`: an object with an entry
for each model, `{"input": 2500, "output": 10000, "cache_read": 1250, "cache_write": 2500}`,
in thousandths of a dollar for a million tokens. Its models come before those that the
library knows, and take the place of those with the same name.
