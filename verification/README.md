# autoflow

The safety core of AutoFlow's Windows input service, written in Verus: the
rules that decide which keyboard and mouse events start, stop or are recorded
into a macro, and the ledgers of injected input: cleanup tries to release
everything a ledger holds, forgets an input only when its release succeeded,
and reports every input that is still held.

`src/` is verified:

- `keys`, `text`, `launch`: key names and virtual-key codes, text helpers,
  launch command lines.
- `ledger`, `trigger`, `hold`, `hold_lifecycle`, `snapshot`, `native`,
  `expansion`, `remap`, `mouse`: what a hook event means: the physical key
  ledger, the release gate of a pending trigger, the Hold lifecycle and its
  cancellation watermark, native hotkey planning and dispatch, remaps, launch
  hotkeys, text expansion and mouse messages.
- `keyboard`: the routing of a keyboard event: own injected input, key
  transitions, the emergency key, Hold auto-repeat, the recording shortcut,
  recording, key-ups, the global switch that pauses every rule, and the
  logical pressed set.
- `recorder`: how captured input becomes macro steps.
- `input_safety`, `cleanup_lane`, `health`: the injected-input ledger and its
  bounded cleanup, the priority cleanup lane, the emergency monitor, the
  emergency cleanup pass over every ledger and the readiness of the safety
  channels.
- `runtime`, `admission`, `playback`, `playback_state`, `status`,
  `diagnostics`, `config`, `config_change`: the run controller, the order of
  start checks, the playback record shown to the user, the safety diagnostics
  log, and what a configuration update changes.

`app/` holds the process around it: the diagnostics writer thread, the
cleanup worker thread and the JSON forms of the status types.
