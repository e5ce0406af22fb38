# borneo

A small build tool for Kotlin projects. What it decides is a verified library; what
it reads, writes and runs is an ordinary program around it.

- `src/` is the library, verified with Verus.
  - `status`: the messages of a build, and the handle through which they are sent.
  - `progress`, `json`, `display`: what the two displays show of these messages.
  - `version`, `archive`, `kotlin`: how a Kotlin compiler is recognised, unpacked,
    found and called.
  - `run`: the steps of one run of the tool, and its exit code.
  - `location`, `text`: places in the file system, words and lines.
- `tests/` runs the library on given values.
- `app/` is the program: the command line, the terminal, the network and the disk.

The library calls `zip` to read archives and `serde_json` to write JSON. What it takes
on trust of them, and of a few functions of the standard library, is stated at each
function that makes such a call.
