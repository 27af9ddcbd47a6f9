# freshrss_filter

An LLM-powered filter for FreshRSS: it reviews unread items, has a chat-completions
model classify each as an ad / not worth reading, records every review so an item is
never reviewed twice, and marks filtered items read, labels them, or only reports them
in a dry run.

The decisions are a Verus-verified library under `src/`:

- `config` — the configuration, its defaults, and how a loaded configuration is
  completed (empty settings filled in, delete mode trimmed, lower-cased and checked).
- `greader` — whether GReader credentials are configured, which authorization they
  give, and the edit-tag request fields.
- `classifier` — the chat-completions endpoint, how a reply is checked, and which
  classification a parsed reply gives (the most confident verdict, ordered as
  `f32::total_cmp` orders confidences).
- `fences`, `text`, `digest` — stripping code fences, trimming and truncating text,
  decimal numerals, and the MD5 review hash.
- `processor` — the handling of one item as a step function from phase and report to
  next phase and command, with its laws (a dry run never writes; FreshRSS is changed
  only after a filtered review was recorded and the threshold was reached), and the
  tally of a run.
- `schedule` — the time to the next run of the cron schedule.

`app/` holds the program around it: command line, configuration sources, HTTP calls
to FreshRSS and the model, the SQLite review table, the scheduler and the progress
display. Floating-point values (confidences, threshold, temperature) are handled
there; the library carries them as `f32` bit patterns.
