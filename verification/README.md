# umami-alerts

Daily and weekly analytics reports for [Umami](https://umami.is/) websites,
mailed to each website's recipients.

The library under `src/` is verified with Verus:

- `config` — the configuration model, its defaults and its validation;
- `env` — building the configuration from environment variables
  (`SMTP_*`, `APP_*`, `APP_WEBSITE_<n>_*`);
- `countries` — country names by country code;
- `time` — the time range a report covers, in a website's time zone;
- `api` — the Umami API requests a report needs and how responses are judged;
- `report` — report subjects and the metrics a report lists;
- `text` — trimming, splitting and decimal numbers;
- `error` — the application's errors and their text.

`app/` is the program around it: command line, reading files and the
environment, HTTP with `reqwest`, templates with `handlebars`, mail with
`lettre`, and the figures the API reports as floating-point numbers.

The program expects `templates/email.html` and `templates/countries.json`
in its working directory.
