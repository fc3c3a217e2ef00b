# Scribe

Dictation for the GNOME desktop: press a shortcut, speak, press it again, and
the words are typed into the window you were working in. Speech recognition
runs on this machine.

The project is in two parts.

- `src/` is the `scribe` library, written in Verus. It holds every rule the
  program follows, each with a contract that Verus proves: the settings and
  the decisions about the file they live in, the spelled-number rewriting, the
  vocabulary rules, the text pipeline, the cleanup pass's request and its guard
  against a reply that answered instead of tidying, when a speech model counts
  as installed, the download plan, the portal session that types, the tray
  menu, the shortcut's settings, and how a dictation moves from one step to the
  next.
- `app/` is the GTK program around it: windows, the microphone, D-Bus, HTTP,
  the config file on disk and the speech runtime. It asks the library what to
  do and carries it out.

```
src/
  text.rs           strings as sequences of characters: trimming, searching
  model/            settings, numbers, vocabulary, the config file's decisions
  ui/               the rules of the desktop-facing parts
app/                the GTK application
tests/              the library's tests
```

Laws that span several functions are public proof functions named `law_…`,
next to the functions they are about.
