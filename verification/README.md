# Iris

Iris is a media server: it searches torrent indexers, fetches what was picked,
streams files while they download, prepares them for clients that cannot play
them as they are, follows series, and keeps track of what was watched.

The decisions behind all of that are verified with
[Verus](https://github.com/verus-lang/verus). Each function states in its
contract what it returns. Where the answer rests on chance, on the clock or on
the machine, the function that asks states what holds whatever came back, and a
function beside it, which takes the answer, states the rest. The properties that
span several functions are public proof functions.

## Layout

- `src/` is the library. It holds no I/O: functions take what the database, the
  torrent engine or a provider answered, and return what to do or to reply.
  Exchanges of several steps, such as fetching an episode, are state machines
  from an event to the next action.
- `app/` is the server around it: HTTP routes, background loops, and the traits
  behind which the database, the torrent engine and the media tools stand.
  Arithmetic on positions and durations in floating point is done here.
- `tests/` runs the library on concrete values, together with the crates it
  calls.

## What is proved, for example

- `jwt`: a token that was issued reads back as what it was issued for, or is
  refused as expired, and an access token never passes for a refresh token.
- `streaming`: a served range lies within the file, a written range reads back,
  and a complete file is served in full.
- `grab`, `grab_flow`: a request for one language is not answered in another,
  and a release that a search shows without seeders is not picked from it.
- `ranking`: the order of releases is a strict weak order, in which a sane
  release comes before a dodgy one.
- `remux`: a client that names its decoders is never sent a picture over 1080p
  as it is, and exactly one audio rendition plays first.

What is believed of the outside crates (`argon2`, `base64`, `chrono`, `figment`,
`jsonwebtoken`, `rand`, `sha2`, `uuid`) is stated at the functions that call
them.
