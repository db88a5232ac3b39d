# nobilis

The logic of a chat daemon's Discord side, with its accounts and its audio, as a Verus library:
what is read out of the service's messages, what is asked of the service, what is remembered
between the two, and what happens when a connection ends.

- `src/text.rs`, `src/json.rs`, `src/text_map.rs`, `src/bytes.rs`: texts, JSON values, maps keyed by
  text and base64, each with a mathematical view.
- `src/accounts/`: what is kept of each account, how accounts are listed, and the store of them.
- `src/audio.rs`, `src/backend/audio.rs`: sound devices, routing, resampling and the bounded queues
  between a call and a sound card.
- `src/backend/discord/`: the service itself. Messages (`messages`, `mentions`, `attachments`),
  servers and their channels (`guilds`, `channels`, `guild_actions`, `standing`, `icons`), people
  (`people`, `members`), direct conversations and writing (`conversations`, `commands`, `history`),
  voice and streams (`calls`, `golive`, `dave`), signing in (`login`), requests (`http`) and the
  gateway session (`actions`, `dispatches`, `gateway`).
- `src/build_stamp.rs`: the stamp that a build carries.
- `tests/`: the library on concrete values.
- `app/`: sockets, files, processes and devices around the library.

Every public function of `src/` has a contract over the views of its arguments. Laws that relate
several functions are public proof functions named `law_...`. Calls into other crates stand behind
functions marked `external_body`, whose doc comments say what is taken from the crate without proof.

The library is made for builds without debug assertions and overflow checks, as release builds are.
With them `tls_codec` and `openmls`, which `davey` rests on, assert on proposals, commits and welcomes
that they otherwise refuse, some of it only seen once a welcome is decrypted or against the group's
own tree, and the counters of `davey` come to an end where they otherwise start over.
