# allowance_tracker

An allowance tracker for children: each child has a balance made of
transactions (money added, money spent, weekly allowances), an optional
weekly allowance, a savings goal, and a data directory that can be moved.
The data lives in CSV and YAML files, one directory per child, each
versioned with git, and is served over a small REST interface.

## Layout

- `src/` is the library, written in Verus. Its functions carry contracts
  that Verus proves, except the few small wrappers around chrono, dirs and
  std, whose contracts are trusted and say in their doc comments what they
  claim of the outside function. Paths are joined as text in Unix syntax
  (`/`); what is on disk is looked up by `app/` and handed to the library:
  - `text`: trimming, splitting, decimal reading and writing, searching.
  - `calendar`, `dates`: month lengths, weekdays, month navigation, the
    month grid, and calendar dates through chrono (next day, weekday,
    `YYYY-MM-DD`).
  - `allowance`: allowance weekdays, which allowance days are still owed,
    and the future allowances shown ahead of time.
  - `goal`: goal states and rules, and the projected day a goal is
    reached from weekly allowances.
  - `transactions`, `ordering`, `timestamps`: pages of transactions
    (cursor, limit, newest first), deletions, and the unique timestamp a
    new transaction is stored under.
  - `table`, `money`, `parental`, `child`: the rules of the transaction
    table, the money forms, the parental-control question and the child
    records.
  - `storage`, `api`, `mappers`: paths of the data directory, moving a
    child's directory, git commit messages, the request and response
    shapes, and conversions.
- `tests/` runs the library with the real outside crates.
- `app/` is the server around the library: file and git I/O, the money
  arithmetic on `f64` amounts, and the axum routes.
