# niumaren

The logic of a weekend duty notification service, verified with Verus: people on a duty
list take turns for Saturdays and Sundays, each person on duty is mailed two days ahead
(on Thursday for Saturday, on Friday for Sunday), and Chinese public holidays, looked up
from a cached list or from the timor.tech holiday API, are skipped.

- `src/text.rs`: characters of strings, substring replacement, decimal numbers, trimming.
- `src/date.rs`: dates as day numbers within chrono's range, days of the week.
- `src/email.rs`: mail templates and their variables, SMTP settings, composing a mail.
- `src/holiday.rs`: the holiday list and the steps of a holiday check.
- `src/scheduler.rs`: the rotation, the notice schedule and the steps of one notice.
- `src/commands.rs`: checks on what a user enters.
- `src/models.rs`: the records that are stored.
- `app/`: the program around the library: the SQLite store, SMTP sending, the HTTP
  request to the holiday API, and the hourly loop that drives the library's steps.
