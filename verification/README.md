# hushwarren

The rules of a DNS sinkhole daemon, verified with Verus, and the daemon around them.

`src/` is the library: it decides how a query is answered, when the machine's DNS configuration
may be changed and how it is restored, when the daemon stands by for a VPN or a captive portal,
how block lists are fetched and compiled, what the query log keeps, and what the control API
answers.  Verus proves the contracts of these functions.  Where a function calls into another
crate or into the standard library, the call stands in a small wrapper (or has its contract
assumed): what such a contract claims is believed, and its doc comment says what that is.  A few
of them claim nothing, because chance or the clock decides.

Besides reading the clocks and drawing random bytes, the library performs no input or output:
where the outside world is involved, a function takes what was read and says what has to be done
next.

`app/` is `hushd`: it reads and writes files, runs the system's tools, speaks to the network, and
asks the library what to do.

| Module | What it holds |
|---|---|
| `app` | the order in which the daemon starts |
| `dns` | how a query is answered |
| `sentinel` | takeover, crash-loop breaker, network watcher, guard state |
| `platform` | the machine's DNS configuration on macOS and Windows |
| `lists` | block lists: fetching, caching, refreshing |
| `api` | the control API: authentication, routes, bodies |
| `profiles`, `config`, `state_dir` | settings |
| `rollup`, `querylog`, `metrics` | what is remembered of queries |
| `odoh`, `padding`, `message` | private lookups upstream |
| `inbound_tls`, `mdns` | encrypted queries, names of hosts |
| `net`, `text`, `table`, `clock` | addresses, text, tables, time |
