# notsu

Renders the SVG cards of a GitHub profile README (hero terminal, "now"
panel, activity pulse, companies, side projects, contact buttons) from a
profile and live GitHub statistics.

- `src/` is the library, verified with Verus: calendar arithmetic, the
  statistics drawn from a GraphQL reply (streaks, heat levels, top
  languages), text escaping and wrapping, number formatting, and every card
  renderer, each with a contract over spec functions.
- `app/` is the command-line program around it: argument parsing, the HTTP
  request to GitHub, JSON decoding, reading the fonts and logos, and writing
  the SVG files.
- `tests/` checks the library on concrete values.
