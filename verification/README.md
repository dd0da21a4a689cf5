# library_seats

Seat reservations for a library reading room, verified with Verus.

- `src/` is the verified library:
  - `models.rs` – records and request bodies;
  - `reply.rs` – HTTP status and the `{ success, message, data }` body;
  - `text.rs` – text order and equality, decimal numbers, `i32` parsing;
  - `clock.rs` – points in time and the calls into `chrono`;
  - `store.rs` – the seat, reservation and reader tables with their keys
    and the four seat statuses;
  - `seats.rs` – listing, lookup, free seats, adding, changing, removing seats;
  - `reservations.rs` – booking a seat and cancelling a booking;
  - `seed.rs` – the administrator account and demonstration seats;
  - `laws.rs` – properties across requests (read after write, every
    request keeps the booking rules: no double booking and at most three
    open bookings per reader; cancelling, refusals change nothing, seeding
    is idempotent, repeating a seat change at the same time changes nothing
    more, listings narrow consistently).
- `app/` is the web service around it: actix-web routes, JSON, and the
  SQLite file `library.db` that holds the tables between runs.
- `tests/` runs the library on concrete requests.
