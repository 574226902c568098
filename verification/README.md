# search_demo

A text and image search service over a record database. Texts, images and
items (groups of texts and images) are stored with their embedding vectors;
a search runs full-text searches with the terms of the query and
nearest-neighbour searches with its embedding, ranks the hits and fetches
the records (or the items that contain them).

- `src/` is the verified library: record identifiers, the query text sent to
  the database, the ranking of hits, the tokenizer, the requests sent to the
  models, and the answers of the service, each with its contract.
- `app/` is the service around it: the HTTP routes, the database and object
  storage connections, the embedding models and the model services.
- `tests/` runs the library on concrete values.
