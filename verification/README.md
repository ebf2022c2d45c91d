# cuchabot

A Discord bot that follows osu! players, answers chat messages and runs a
few commands. The crate splits it in two:

- `src/` is a library verified with Verus:
  - `bst`: a binary search tree of shared values keyed by `u64`, with its
    contents (`Map<u64, T>`) and its shape (`KeyTree`) as models;
  - `stack`: a counted linked stack, and phrase reversal through it;
  - `osu_data`, `activity`: the session bookkeeping of the followed
    players and the decisions taken on each poll;
  - `score`, `embed`, `events`, `commands`: decisions on scores and the
    text of replies, embeds and commands;
  - `scraping`: reading the weekly Mythic+ affixes out of a page;
  - `config`, `text`: number parsing and small text helpers.
- `app/` is the program around it: the Discord, osu!, Ollama and ChatGPT
  clients, the polling loop, and everything that handles floating-point pp.
- `tests/` exercises the library on concrete values.
