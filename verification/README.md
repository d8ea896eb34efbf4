# lede

lede generates a git commit message from the staged changes:

```
git commit -m "$(lede generate)"
```

The finished message is the only thing on stdout. Diagnostics go to stderr and
failures exit nonzero, so a failed run aborts the commit.

## Layout

- `src/` is the library, written in Verus. Every decision of the program is
  made here, and every function has a contract that is proved.
  - `text`, `chars`: characters, words and lines, as mathematics and as code
  - `message`: a reply held to the 50/72 rule
  - `git`, `process`: the staged change, read from what git wrote
  - `config`, `loading`, `paths`: the configuration and its files
  - `auth`, `api`: credentials, and the one HTTP call
  - `cli`, `app`: the command, and the steps of a run
  - `*_laws`: what holds of all of these together
- `app/` is the program: it reads the command line, performs the steps that the
  library names, and hands back what it found.
- `tests/` runs the library on concrete values.

## What is trusted

The proofs rest on a few declarations about code outside the library, each with
a comment that says what it claims: `String::push`, `String::from_utf8_lossy`,
the `{:?}` form of a text, the functions of `PathBuf` in `paths`, and
`toml::from_str`.
