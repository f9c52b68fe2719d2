# herdr-tilt

A keyboard-driven Tilt dashboard for Herdr. It opens beside the current pane,
shows every Tilt service with a four-color status circle, and starts or stops
Tilt without tying the Tilt process to the dashboard pane.

The decisions of the dashboard are a library whose behaviour is stated in
contracts and proved by Verus. The program around it reads and writes files,
runs processes and draws on the terminal.

## Layout

- `src/text.rs`, `src/order.rs`, `src/paths.rs`, `src/digest.rs`, `src/json.rs`:
  strings, order and sorting, paths, digests, JSON.
- `src/logs.rs`: the scrollback, bounded reading of records, log streams.
- `src/tilt/`: what Tilt reports, the services and groups that are made of it,
  the actions of services and how they are carried out.
- `src/project.rs`, `src/panel.rs`, `src/session.rs`: which project the dashboard
  is for, the pane it is shown in, and the sessions that outlive it.
- `src/style.rs`, `src/tui/`: styled lines, the state of the dashboard, its keys
  and what it shows.
- `app/`: the program.
- `tests/`: tests of the library.

## Contracts and laws

Every function states what it returns or changes over mathematical models: a
`String` is a `Seq<char>`, a scrollback is a `LogBufferView`, a screen is a
`ScreenView`. Proof functions whose names begin with `law_` state what holds of
several functions together.

A few functions call other crates and are not proved: they are marked
`external_body`, and their comments name the function that is called and say what
is claimed of it.
