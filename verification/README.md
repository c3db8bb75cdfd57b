# wordchicken

A word-association game. The player types a target sentence, then builds an
answer ("keywords: foo, bar, ...") by picking one of four random words at each
turn, trying not to bring the answer's sentence embedding too close to the
target's. A round lasts at most ten turns.

- `src/` is the verified library (Verus): checking target sentences, reading
  the player's answers, the rounds of the console game and the screens and
  turns of the graphical game, the random choices, the answer text, the word
  list read from CSV, and the bookkeeping of results.
- `app/` is the console program around it: terminal I/O, the embedding model
  (candle, a BERT model from the Hugging Face hub), cosine similarity on
  floating-point vectors, and the bincode file of saved embeddings. Run with
  `make-embeddings` to compute that file from `words.csv`.
- `tests/` exercises the library on concrete values.
