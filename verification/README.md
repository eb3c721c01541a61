# LinkSwitch

Chooses between Ethernet and Wi-Fi on Windows without unplugging the cable: the interface that
should lose is parked at a high metric, and Windows routes over the other one.

## Layout

- `src/` is the verified library: which adapter is which, who holds the best default route, what
  metric parks a link, the journal that makes every change reversible, the scheduled tasks, the
  command line, the installer, the status report and what the window shows.
- `app/` is the program around it: the Windows calls, files, the window and the tray.
- `tests/` run the library on concrete values.

## How a change is made

Work that touches the machine is a *run*. `action()` says what to do next, the program does it, and
`step()` takes what came back. Every run is described by two functions on its view, what it asks and
what it becomes, so that statements about whole runs can be proved:

- the journal is written before a metric or a binding is changed, holds what every one of them was,
  and is closed afterwards;
- what a metric was before the first change is never lost, and is what an uninstall puts back;
- Wi-Fi is connected before Ethernet is left;
- a switch that fails half-way is put back, and so is one that a crash cut short;
- a run that is refused changes nothing of its own.

These statements are the public proof functions of `src/apply/laws.rs` and `src/install.rs`; those
about a single module stand at its end.
