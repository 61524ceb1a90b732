# maple_utils

A helper for keeping keyboard input on one game window: other windows are
made to refuse activation ("focus targets"), chosen windows may be exempted,
a guard brings the game window back to the foreground, and Windows Filter
Keys presets can be saved, applied and undone.

`src/` is the verified library. It holds the state the helper keeps and every
decision it makes, each with a contract proved by Verus:

- `text` — white space, trimming, ASCII case folding and UTF-16 encoding over
  the character view of strings.
- `filter` — Filter Keys presets, their ranges, defaults and the system record.
- `presets` — named presets: trimmed, at most 32 characters, looked up without
  regard to ASCII case; saving, loading and deleting, with the laws that relate them.
- `settings` — the saved settings, their defaults and how a file read from disk
  is completed.
- `focus` — focus targets, the styles they record and how they are put back.
- `state` — the runtime state and its operations; each keeps a window at most
  once among the targets, at most once among the exemptions, and never in both.
- `snapshot` — what the user interface is shown.
- `windows`, `window_list` — window records, rectangles, titles, style and key
  bits, and the title order of the window list.
- `picker` — the window picker's mouse events, hover outline and decisions.
- `seqs` — generic sequence facts.

Operations that depend on the system take what it reported as arguments (a
probe of a window, whether a write succeeded) and state the result for each
value of them.

`app/` is the Tauri program: the Windows API calls, the settings file, the
commands of the user interface and the threads of the picker and the guard.
