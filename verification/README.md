# YarGui

Editing core of a viewer for `.rif` register files, written in Verus, with a small graphical
program around it.

- `src/` is the library. It holds the source of a register file as plain values, applies edits to
  it, keeps track of the lines that each edit touches, and writes them back to the text of the
  file. Outside `bridge`, Verus proves every function against its contract.
- `app/` is the program: windows, files, and the calls into `yarig`, which parses and compiles
  `.rif` files.
- `tests/` edits and saves files that a small loader of its own reads, and compares what the library
  prints and reads with `yarig`.

## Modules

| Module | What it holds |
| --- | --- |
| `text`, `number`, `lines`, `search`, `names` | strings, numbers, lines, lookups, free names |
| `model` | a register file as plain values |
| `syntax`, `printed`, `counter`, `condition`, `bridge` | how values are printed and read; `bridge` makes the calls into `yarig` |
| `edits` | the edits that wait to be saved, by line |
| `vals`, `action`, `field_update`, `reg_update`, `stage_*`, `rename`, `apply` | what an edit does to the source |
| `compiled`, `field_editor`, `enum_editor`, `reg_editor`, `intr_desc_editor` | buffers of the editors |
| `viewer`, `session`, `views`, `labels` | the state of the viewer and what it shows |
| `plan`, `save_*`, `file_io` | writing the edits into the text of a file |
| `laws`, `kept`, `held`, `planned`, `written` | what edits and saving leave alone, and what reaches the file |

## Trust

`bridge` names what `yarig` prints and reads. The contracts of the library speak of these names;
what they stand for on given values is shown by the tests. Nothing else is taken on trust but
`String::push`, in `text`.
