# mcp_servers

Five small Model Context Protocol servers and their verified core:

- `emacs`: evaluates Emacs Lisp through `emacsclient`;
- `gcal`: lists upcoming events of private iCalendar feeds;
- `notify`: shows desktop notifications;
- `pdf`: opens PDFs in the sioyek reader at a page or a text;
- `smhi`: answers with the SMHI point forecast for a position.

`src/` is the library, verified with Verus: the command lines that are run,
how their output is read, Emacs Lisp string literals, the reading of
iCalendar feeds into events, the window, order and text of the event
listing, the checks of coordinates and the forecast text, with
single-precision readings handled exactly through their bit patterns. Some
results rest on outside crates through trusted items whose contracts are
believed, not proved: parsing iCalendar (`icalendar`), time-zone offsets
(`chrono-tz`), the expansion of recurrence rules (`rrule`) and the rendering
of dates (`chrono`).

`app/` is the program around it: one binary whose first argument (`emacs`,
`gcal`, `notify`, `pdf` or `smhi`) picks the server, and which performs the
I/O (processes, files, HTTP, D-Bus) and the MCP plumbing.
