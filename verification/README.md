# Snipd

A screenshot tool for Windows that never loses a capture, with its logic verified
by [Verus](https://github.com/verus-lang/verus).

- `src/` is the verified library: how files are named, how a capture is saved, what
  the library of captures shows, how displays and windows are picked, how a
  recording keeps time.
- `tests/` runs the library on concrete values.
- `app/` is the program around it: the windows, the files, and the calls into the
  system.

## What is proved

| Module | What holds |
| --- | --- |
| `naming` | A name is always found, it is usable on Windows, and it was free when it was looked at. Numbers only grow. |
| `capture` | The file is written before anything else happens. What fails after that is a warning beside the capture, never a failure in its place. |
| `capture::pixels` | A PNG capture reads back as the very pixels. A mask changes alpha and no colour. |
| `capture::win` | Rectangles meet in exactly the pixels they share. A frame is cut to the part of it that was asked for. |
| `history` | Every image in the folder is listed, newest first, whatever the index says. A key leads to nothing but a capture that is in the save folder now. Nothing outside the save folder is changed. |
| `keys` | A key ignores casing, and changes with the file. |
| `config` | Settings that cannot be used are repaired, and repaired settings stay as they are. A configuration that cannot be read is put aside, and the start goes on with the defaults. |
| `record` | Frames keep to their schedule, and every frame is either written or counted as dropped. With the silence that is filled in, the sound is as long as the time that has passed. |
| `clipboard` | A copy fails only if every attempt does. |
| `shortcuts` | What was held before is given up first. No combination is handed out to be registered while it is held, and every one is held or told of in the end. |
| `commands` | Renaming takes no name away. Pictures are served by key, and only those of captures. |

## What is trusted

Calls into `chrono`, `image` and `base64`, and a few of the standard library, stand
behind functions whose contracts are believed rather than proved. Each says so in its
comment.
