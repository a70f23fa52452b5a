# CrazyTime server

The logic of a server for CrazyTime, a card game of counting clock times: the deck
and the pool of cards, the judging of each action of a round, matches and their
rounds, the rules that change the count, the players of a lobby, the lobby's
reactions to its players, and the coordinator that routes clients to lobbies.

- `src/` is the library, written and proved with Verus. Every function states in
  its contract what it returns and what it changes; the decisions of a lobby and of
  the coordinator come back as lists of things to send, schedule and start.
- `tests/` runs the library on concrete games.
- `app/` is the server around it: the websocket endpoint, the tasks that carry out
  what the lobbies and the coordinator decide, timers, and JSON.
