# TLToolBox

A toolbox for the Windows desktop. It closes unwanted windows, keeps the system awake,
reduces the clipboard to plain text, finds and releases ports, and keeps icons where they
were put.

`src/` is the library, written in Verus: what the modules decide, how they are switched,
how the configuration is read and written, and what the user is told, with contracts that
are proved. `app/` is the program around it: files, threads, the calls into Windows, and a
console. `tests/` runs the library.

The library makes no call into the system. A call appears in it as what came back (a code, a
buffer, an event), and the library says what follows and what is to be done next. Outside
crates are called for the event bus, for announcements and for the text of a time stamp; the
functions that make these calls say what is taken on trust.
