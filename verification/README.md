# balance_monitor

A Windows tray application that watches the balance of a DeepSeek account,
with its rules verified by Verus.

- `src/` is the verified library: the texts of the interface (`i18n`), string
  helpers (`text`), amounts and their comparison by the bits of their binary64
  value (`money`), the per-currency balance book (`book`), the settings and
  their validation (`config`), the monitor's state machine and what the tray,
  pop-ups and alerts show (`monitor`), and the icon geometry (`icon`).
- `app/` is the program around it: windows, tray and menus
  (native-windows-gui), the HTTP query (reqwest), the settings file (serde),
  the registry (winreg), the log, and the float work (parsing and rendering
  amounts, font layout).
- `tests/` runs the library on concrete values.
