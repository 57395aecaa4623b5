# forgetop_tui

The verified core of a terminal dashboard over code forges: pull requests, work items,
pipelines and notifications from several connections at once.

`src/` holds the logic, each function with a contract that Verus proves: the lists, their
filters, sorts and groupings, the keyboard and mouse routing, the pipeline drill-in and its
log pane, the diff helpers, saved views, notifications, the app's state and how keys and a
finished reload change it, and what the status line says when the browser is asked to open
something. Public proof functions state the laws that hold across calls.

`app/` is the thin part around it that talks to the outside: desktop notifications, the
browser, the clock, and the loop that feeds the log pane.

`tests/` runs the library on concrete values.
