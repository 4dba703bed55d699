# KeyFlow

A non-paste password input assistant: a global hotkey makes KeyFlow click
into the field under the mouse, fetch a password (clipboard, Bitwarden CLI,
or static encrypted text) and type it character by character, or paste it.

`src/` is the library, verified with Verus:

- `hotkey/` — parsing hotkey strings (`keys`), the key and modifier tables
  of X11, Windows and macOS, the X11 keyboard-map and lock-modifier logic
  (`linux`), and the dispatch of key presses to registered hotkeys
  (`dispatch`);
- `config/` — configuration values and lookups;
- `provider/` — password providers: clipboard, Bitwarden (as a sequence of
  commands to run and answers to interpret), static text, and a per-item
  cache;
- `crypto` — `enc:v1:` encryption with Argon2id and AES-256-GCM;
- `daemon` — the sequence of one hotkey trigger, as a state machine;
- `input` — the input engine interface;
- `cli/` — what the commands compute and print;
- `service` — the Windows service's decisions;
- `text` — string handling shared by the rest.

`app/` is the program around it: argument parsing, the configuration file,
the X11 connection, keyboard and mouse simulation, running the `bw` CLI, and
the daemon loop.
