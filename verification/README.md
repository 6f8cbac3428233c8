# mega

Verified pieces of a git-compatible monorepo engine, written in Verus.

- `src/text.rs`: Unicode whitespace, trimming, splitting, text comparison.
- `src/command.rs`: the console commands of a p2p node (`kad ...`, `mega ...`),
  decided from the input line.
- `src/peer.rs`: peer ids (parsed with `libp2p-identity`) and `p2p://` addresses.
- `src/target.rs`: the search for the commit that a branch name or hash names.
- `src/object.rs`: blob object framing and its SHA-1 id.
- `src/node.rs`: rows of the `node` table and their order.
- `src/auth.rs`: basic-auth credentials from typed input.

`app/` holds the terminal, file, DHT and database glue around these.
