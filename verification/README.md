# erasmus_validator

A server that collects Erasmus destinations: users upload CSV files of
destinations, each record naming an institution by its Erasmus code
(`E  MADRID03`), and the server checks every code against a SQLite database
of universities, inside one transaction that stands only if every record
checks out.

- `src/` is the verified library (Verus):
  - `text.rs`: white space and trimming, decimal numbers (reading a `u32`,
    writing one with two digits at least), searching, line breaks;
  - `erasmus_code.rs`: reading and writing Erasmus codes, with the proofs that
    a written code reads back as itself and that reading is a normalisation;
  - `database/model.rs`: countries, regions and their city names;
  - `database/generic.rs`: lookup errors and what a lookup's rows decide;
  - `csv_loader.rs`: the records of a CSV file, the code of each, and whether
    a load stands;
  - `api.rs`, `api/extractors.rs`: upload parameters and the choice of body
    format by content type;
  - `get_lat_lon.rs`: the address of a place search and the pacing that keeps
    searches one second apart.
- `app/` is the program around it: HTTP routes (axum), the SQL queries
  (sqlx), the HTTP client for place searches (reqwest), configuration and the
  serde copies of library types.
- `tests/` exercises the library on concrete values.
