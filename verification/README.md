# startsmall

Snapshots a Google Sheet into a git repository, serves it as a web page, and announces the
snapshots on Nostr. The part that decides and computes is a verified library; what is left is a
thin program that does the input and output.

- `src/` is the library, verified with Verus. Strings are modelled by the sequences of their
  characters; each public function states what it returns over spec functions on such sequences.
- `tests/` runs the library on concrete values.
- `app/` is the program: the command line, the web server, git, HTTP and the relays.

## What is verified

- A sheet is taken apart at its first row of headings, and no row is lost, doubled or moved
  (`sheet`).
- The page shows every row, the data rows under their numbers, and no cell can add markup of its own
  (`html`, `link`, `page`).
- A sync is a state machine (`sync`): the driver does one action at a time and hands back what
  came of it. Whatever comes, a run ends after twenty events at the latest. Nothing is committed
  before both files are written and staged. Nothing is published before the commit, or without a
  key. An error ends the run and is what it reports, but for a missing signature or `HEAD`, which
  the run can do without (`sync_laws`).
- `POST /sync` is run for requests from the machine itself and for those that present the token;
  others are answered with 403, and with 503 while sixteen requests are being handled (`auth`,
  `http`).

## What is taken on trust

The contracts of the functions marked `external_body`, each with a comment that says what is
claimed: the record reader of `csv`, the digest of `sha2`, the comparison of `subtle`, the
address and key parsers of `nostr-sdk`, `str::to_lowercase` and `String::push` of the standard
library.
