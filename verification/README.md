# verifiable_api

A provider of Ethereum chain data that takes its data from an untrusted API and believes none of it
without proof. The library holds the decisions: what is asked, in which order, what a reply has to
look like, and what has to be proved before anything is returned. Verus proves that they do what
their contracts say.

A request is answered in steps. A method of `VerifiableApiExecutionProvider` returns its first
question; each question is a value whose fields are what is to be asked, with a method that takes
the reply and returns the next question or the answer. Trie proofs, and logs against a filter, are
checked by functions that the caller hands in: the contracts say what each of them is called with,
and what follows from its verdict, whatever that is.

- `src/primitives.rs`, `src/types.rs`, `src/error.rs`: hashes and block names, replies, errors.
- `src/keyed_map.rs`: a map keyed by hashes or addresses, with an order.
- `src/sequences.rs`: first occurrences, and what one sequence lacks of another.
- `src/rlp.rs`: the encoding of a log, by `alloy`.
- `src/log_checks.rs`: whether logs and receipts belong together.
- `src/block_lookup.rs`, `src/accounts.rs`, `src/transactions.rs`, `src/receipts.rs`,
  `src/get_logs.rs`: the requests.
- `src/provider.rs`: the provider, and the first question of each request.
- `src/laws.rs`: what the requests promise as a whole.
- `app/`: the asynchronous side, which asks and hands the replies to the library.
