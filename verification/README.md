# book_batch_rust

A batch program that collects newly published books from book-site APIs,
screens them, stores them, and links them to series. The rules of the
program live in a library verified with Verus; a thin program around it does
the input and output.

## Layout

- `src/` — the verified library.
  - `lib.rs`: the command line (`Argument`, `JobName`) and the job parameters
    it gives.
  - `batch.rs`, `batch/`: the job framework (reader, filter chain, processor
    chain, writer, chunked runs), the book jobs' filters, paging and write
    plans, and the series-linking decisions.
  - `item.rs`, `item/`: the book, series and publisher model, the sites'
    original data (`raw`), the filter rules over it (`rule`), and the rows
    the stores give (`repo`).
  - `book.rs`, `book/`, `procedure.rs`: the first book model and job
    framework.
  - `external.rs`, `external/`: the first site API clients: requests and the
    search addresses they make.
  - `prompt.rs`, `prompt/`: the requests of the title-normalizing service.
  - `config.rs`, `config/`: settings, database addresses and the logging plan.
  - `text.rs`, `dict.rs`, `date.rs`: text, ordered maps and dates as plain
    values.
- `app/` — the program: command line, environment, logging, connections and
  the HTTP side of the API clients.
- `tests/` — tests of the library.
