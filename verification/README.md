# Navidrome ListenBrainz Sync

Two-way sync between Navidrome favorites (hearts) and ListenBrainz loves, and a one-way copy of
CritiqueBrainz ratings into Navidrome.

- ListenBrainz love: heart the matching track in Navidrome
- Navidrome heart: love the recording on ListenBrainz
- CritiqueBrainz rating: rate the matching artist, album or song in Navidrome, and heart it from a
  configured threshold on

Only additions are propagated. Un-hearting and un-loving are ignored.

## Layout

- `src/` is the library, verified with Verus. A pass is a state machine: it asks for one action
  after the other and takes the answers.
  - `text`, `encoding`, `mbid`, `json`: strings, percent-encoding, MusicBrainz ids, JSON bodies
  - `settings`, `settled`: the configuration, and the keys that record what was applied
  - `http`, `listenbrainz`, `critiquebrainz`, `subsonic`: requests, responses and selections
  - `protocol`: actions, answers, notes
  - `inbound`, `outbound`, `user`: the ListenBrainz half of a user
  - `ratings`, `critique`: the CritiqueBrainz half of a user
  - `pass`: all linked users in turn
  - `laws`: what holds whatever the host answers
- `tests/` runs the library, most of it against a host kept in memory.
- `app/` is the plugin: it performs the actions through the Navidrome plugin kit, decodes JSON and
  writes the log.

## What is proved

- A pass works only for assigned users, and asks only for what the settings allow.
- A dry run writes nothing and records nothing.
- Every request keeps the configured gap; a token goes to ListenBrainz alone.
- Hearts, loves and rating changes together stay within `max_per_run` for each linked user.
- Every love with a local match is starred as far as the limit has room; one without a match takes
  up none of it.
- Once a service is rate limited or fails for now, or a response that was read exhausts its
  rate-limit window, the pass makes no further request; only a rate limit at a token check still
  lets the CritiqueBrainz half of that user run. A read that is refused otherwise, or whose body is
  no text, counts as failed, whatever it says of its window.
- What is recorded is left alone; what has no local match, or failed, stays outstanding.
- Every pass comes to an end.

## Configuration

| key | default | description |
| --- | --- | --- |
| `user_links` | | required, `[{navidrome_username, listenbrainz_token, critiquebrainz_username}]` |
| `sync_inbound` | `true` | heart tracks loved on ListenBrainz |
| `sync_outbound` | `true` | love tracks hearted in Navidrome |
| `sync_schedule` | `*/30 * * * *` | cron for the sync pass |
| `dry_run` | `true` | log only, write nothing |
| `batch_size` | `100` | matcher batch size |
| `request_delay_ms` | `1000` | delay between calls (min 1000) |
| `max_per_run` | `500` | max changes per user per pass |
| `cb_sync_artists`, `cb_sync_albums`, `cb_sync_recordings` | | `{sync_rating, favorite_at}` |
