# zos-server

The rules of the ZOS node software, written in Verus and proved against
their contracts: the peer-to-peer plugin verbs and their messages, the
block-scoped port market, the public gateway (its endpoints, service
registry, request handling, rate limits and referrals),
Unix account tiers and vouching, the development review workflow, the
bootstrap eigenmatrix, the Telegram bouncer bot, the retro game services,
the prompt marketplace and the community resource economy, and the
character Markov models and repository timeline tools.

Layout:

- `src/` is the verified library. Each module states what its functions
  return and how they change their state; the few calls into `chrono`,
  `serde_json` and std that Verus cannot read are wrapped, and each wrapper
  says what it assumes of the call.
- `tests/` runs the library on concrete values.
- `app/` is the command-line front end: it reads files, runs `git`, `cargo`
  and other commands, parses JSON and TOML, and holds the parts that compute
  with floating-point numbers (rankings, prices, swap quotes, commission
  amounts, dashboard scores).
