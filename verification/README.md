# nori

A Discord helper bot for the SOFI card game: it analyses drops (wishlist counts of the dropped
cards), keeps wishlist counts up to date from the game's listings, runs drop and grab reminders,
and offers per-user and per-server configuration screens.

- `src/` is the verified library: the message router and filters, the parsers of the game's
  messages, the card and series indexes, the configuration logic, the reminder table and its
  saved form, and the text of every reply. Each public function carries a contract, and the
  laws that tie functions together are proof functions named `law_*`.
- `app/` is the bot around it: the gateway events, the database, image download and text
  recognition, and the background workers.
- `tests/` runs the library on concrete messages and settings.
