# rk9

A Discord bot that times its users' gooning sessions and prejacs, keeps them
in SQLite, and posts statistics about them.

- `src/` is the verified library: how durations are written out
  (`duration`, `text`), how a typed prompt is compared with the expected one
  by Levenshtein distance (`edit_distance`), how logged sessions are sorted
  and grouped (`db`), the `/stats` embeds (`stats`), and the texts and
  decisions of the commands (`commands`).
- `app/` is the bot itself: the Discord commands (poise), the SQLite queries
  (rusqlite) and the settings file (`rk9.toml`).
- `tests/` runs the library on concrete values.

Running:

```shell
$ cat >rk9.toml <<EOF2
discord_token = "<your bot token>"
database_path = "./rk9.sqlite"
accent_colour = 0xb4c4f9
EOF2
```
