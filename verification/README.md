# lpadmin

A verified library for administering CUPS printers and classes, in the
manner of `lpadmin`, and a thin program around it.

- `src/` (verified with Verus):
  - `text`: trimming, prefixes, character search and ASCII case, each tied
    to a definition over `Seq<char>`.
  - `access_control`: `-u allow:...|deny:...`, the principal lists, and the
    comma-separated form in which they go to the scheduler.
  - `options`: `-o NAME=VALUE` and the collection of options into settings.
  - `ipp`: the administrative IPP requests as plain values, the check of
    destination and class names, and the decisions taken on what the
    scheduler reports about class members and printer types.
  - `cli`: the command line and the plan of steps it asks for.
- `app/`: command-line parsing with `clap`, and the steps carried out
  against the scheduler with `cups_rs`.
- `tests/`: tests of the library on concrete values.
