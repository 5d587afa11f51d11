# freezeit_daemon

The control logic of the freezeit daemon, which freezes Android apps in the
background through the cgroup v2 and binder freezers, proved against its
contracts by Verus. A few calls into std are trusted rather than proved:
the kind and text of an `std::io::Error`, the clock, UTF-8 decoding and
`String::push`; each stands behind a wrapper or an `assume_specification`
whose doc comment says what it claims.

- `src/` is the verified library:
  - `domain`: apps, policies, processes, capabilities and operations;
  - `app`: foreground classification, the freezer backend's decisions, the
    control pass and its state, the freeze scheduler, the operation log,
    the package inventory, the compatibility baseline and the startup facts;
  - `config`: the daemon's paths and the legacy policy files;
  - `protocol`: the frames exchanged with the Xposed hook and the manager's
    app records;
  - `sys`: binder and cgroup freezer facts, signals, hook health and the
    hook's answers;
  - `text`: character-level rendering, trimming, splitting, parsing and
    ordering, stated over sequences of characters.
- `tests/` runs the library on concrete inputs.
- `app/` is the program around it: files, `/proc` and `/sys`, commands,
  signals and the hook's socket.

## Collections keyed by package name

The frozen apps and pending freezes of the control pass, the package
inventory and the freeze scheduler are keyed by a package name together
with a uid or user id. vstd specifies `BTreeMap` and `BTreeSet` only for
keys whose `Ord` obeys its model (`vstd::laws_cmp::obeys_cmp`), which vstd
establishes for integers and tuples of them but not for `String`; keyed by
`(String, u32)`, such a map's contents could not be stated. These
collections are therefore vectors with no key twice, which is the invariant
of each type (`AppInventory`, `FreezeScheduler`, `RuntimeControlState::wf`),
and their views are the `Map`s and `Set`s that the contracts speak of. Where
only integers are collected, as with the uids of a control pass
(`sys::socket::control_uids`), the vector is kept in increasing order.
