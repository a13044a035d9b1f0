# graph_state

The lifecycle of a workspace call graph: when it is built, what a build is admitted for, what a
publication charges, who notices that disk has moved on, and what an answer may say about how
current it is.

`src/` is the library. It touches no disk, no clock and no thread. The state that the graph's owners
share is plain data whose every transition has a contract, and an owner whose work alternates with
the outside world (the executor, the watcher, a boot, a claim, a probe, a publication's pass) is a
value that asks for one thing at a time and is told how it went. Properties that span several steps
are the `law_` functions, stated over every conversation with an owner.

`app/` is the running graph: the threads, the locks and the services of the daemon around it.

`tests/` run the library on concrete values.

What is believed and not proved stands in three places, each behind a wrapper of one call:

- `src/universe.rs`: `blake3::hash`, `String::from_utf8_lossy`, `str::replace` of a character, and an
  `FxHashMap` that is created and inserted into;
- `src/code_mask.rs`: `char::is_alphanumeric` and `char::is_whitespace`;
- `src/summary.rs`: the `Debug` form of a `str`.
