# mercury

The backend of a home sensor network: sensor units report temperature and
humidity, the server logs them in a MySQL database, shows the latest values,
the history and the weather, and sends Pushover notifications when a reading
crosses a configured limit.

`src/` is the verified library:

- `decimal` — integers as decimal text and back, as `to_string` and
  `str::parse::<i32>` do, with the round trip proved;
- `text` — the order of strings, and removal of a pattern (`str::replace`);
- `sensors` — the sensor map of the settings and the ordered, filtered list
  of sensors to show;
- `notify` — the notification state machine: which constraints a reading
  raises or clears, the set of notified constraints, and the messages;
- `yaml`, `settings` — the YAML settings file read into the settings;
- `clock` — ages of readings and times in the local zone (chrono, chrono-tz);
- `readings` — log rows laid out for the latest-values table and the history;
- `weather` — the weather condition of a weatherbit report.

`app/` is the program around it: the actix-web server, the database access
(diesel), the HTTP calls (Pushover, Dark Sky), and the floating-point parts
(the comparison of a reading with its limit, daily means, the decimal fix of
the sensor units' values).
