# AltShift, verified

Fixes text typed with the wrong keyboard layout: the keystrokes of a word are
remembered as physical keys, rendered under every installed layout, and the
word is rewritten only when the guards allow it and another reading scores
clearly better.

`src/` is the library, verified with Verus:

| module | |
|---|---|
| `key`, `layout` | physical keys, the US and Russian tables, stroke ↔ text conversions and their round-trip laws |
| `buffer` | the capped keystroke buffer |
| `guards` | what is never corrected (fail closed) |
| `decide` | everything in a decision before scoring: guards, rendering, candidate layouts |
| `lang` | frequency lists, training words, trigrams, the word table of a model |
| `accuracy` | the bookkeeping of the accuracy harness |
| `platform`, `platform_windows`, `platform_macos` | the backend contract, and each backend's decisions and state |
| `ui` | settings and diagnostics |
| `text`, `keyed` | character and string primitives, a string-keyed map |

`app/` holds what the library cannot: floating-point scoring and the
threshold decision, the Win32 calls, settings on disk, and the accuracy and
latency reports. `tests/` exercises the library.
