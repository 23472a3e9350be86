# Kimi subscription router

One client speaks the agent protocol to one router, and the router spreads its sessions over several
Kimi subscriptions. A session stays with the account that made it. When that account has no quota
left, the session is closed there, resumed on another account, and the prompt is sent again.

`src/` is the verified library. It reads and writes nothing itself:

- `text`, `table`, `json`, `clock`: texts, ordered tables, JSON trees, moments and dates.
- `protocol`: the messages, and what is read out of them.
- `model`: what the router does, step by step, as functions on what it knows.
- `router`: the router, which does what `model` says.
- `laws`: what holds of the router over several steps and in every state.
- `state`, `router_status`: who owns which session, on disk and as others see it.
- `control`, `private_fs`: the control interface, its token, and guarded files.
- `accounts`, `kimi_user`, `gui`, `icon`: accounts as the user sees and changes them.

`app/` holds the programs around the library: processes, files, the network and the window. Whoever
keeps accounts, credentials and quotas stands behind the traits of `app/host.rs`.

`tests/` runs the library from outside.
