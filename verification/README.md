# Papers

Papers creates and updates the items of scientific publications, and of their authors, on
Wikidata. It asks Crossref, ORCID, PubMed, PubMed Central, Europe PMC, Semantic Scholar, arXiv,
OpenAlex and DataCite.

- `src/` is the library: what the records of these sources say of a publication, which authors are
  the same person, which statements an item gets, and the decisions of the bot that works off
  batches of commands. It is written in Verus, and every function is proved to meet its contract.
  The laws that hold of several functions together stand in `author_laws.rs`, `paper_laws.rs`,
  `title_laws.rs` and beside the functions that they speak of.
- `app/` is the program around the library: requests to the sources, to Wikidata and to the
  database.
- `tests/` runs the library on examples.

## Commands

The program reads `bot.ini`, or the file given with `--config`, whose `[user]` section holds
either a `token` or a `user` and a `pass` for Wikidata.

- `papers` reads identifiers of publications (such as DOIs) from the standard input, one per line,
  and creates or updates their items.
- `ans` reads IDs of authors' items and replaces the name strings of their coauthors by items.
- `authors` reads ORCID identifiers or IDs of items and adds what is known of the authors to their
  items. It needs the database.
- `bot` works off the batches of commands in the database, for which the configuration holds a
  `[client]` section with `user` and `password`.
