# system_monitor

The verified core of a COSMIC panel applet that shows CPU, memory, network,
disk and GPU usage.

- `src/` is the library, verified with Verus:
  - `config` — the settings (modules shown, text and icon style, sampling
    profiles and intervals), the keys of the stored configuration, and what
    loading and reloading it leads to;
  - `applet` — the decisions of the update loop: applying a settings change,
    the timers to run, the panels to show, the history sizes at start, and
    whether toggling or closing a window opens, closes or keeps the settings
    popup;
  - `sensors` — choosing the sensors the CPU temperature is averaged over, and
    the totals of traffic counters and disk space;
  - `format`, `double`, `text` — byte counts and percentages written exactly as
    double-precision arithmetic gives them, computed in integers;
  - `tooltip`, `panel` — the texts, tooltips and bars of each view.
- `app/` is the applet around it: the COSMIC application, the widgets, the
  stored configuration with its serde derives, and the reads from `sysinfo`.
- `tests/` runs the library on concrete values, and compares its byte counts
  and percentages with the floating-point computation they stand for.
