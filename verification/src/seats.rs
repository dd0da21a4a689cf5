//! The seat catalogue: listing, lookup, free seats, and the administrator's
//! changes to seats.
use vstd::prelude::*;
use crate::models::{
    AvailableSeatsQuery, CreateSeatRequest, GetSeatsQuery, Seat, SeatView, UpdateSeatRequest,
};
use crate::reply::{reply_err, reply_ok, Answer, HttpStatus, Reply};
use crate::store::{
    is_known_status, is_seat_status, opt_text, reservation_rows, seat_numbers_unique, seat_rows, LibraryView, ReservationView,
    SeatLibrary,
};
use crate::clock::{clock_reading, utc_now, Moment};
use crate::text::{count_text, decimal, lemma_text_order, text_equal, text_le, text_less, text_lt};

verus! {

/// The catalogue order: by area, then by seat number.
pub open spec fn place_lt(s: SeatView, t: SeatView) -> bool {
    text_lt(s.area, t.area) || (s.area == t.area && text_lt(s.seat_number, t.seat_number))
}

/// Rows strictly in catalogue order.
pub open spec fn in_place_order(rows: Seq<SeatView>) -> bool {
    forall|i: int, j: int| 0 <= i < j < rows.len() ==> place_lt(rows[i], rows[j])
}

/// `rows` lists, in catalogue order, exactly the seats of `table` that
/// satisfy `pick`.
pub open spec fn lists_in_place_order(
    rows: Seq<SeatView>,
    table: Seq<SeatView>,
    pick: spec_fn(SeatView) -> bool,
) -> bool {
    &&& in_place_order(rows)
    &&& forall|x: SeatView| rows.contains(x) <==> (table.contains(x) && pick(x))
}

/// `place_lt` is a strict order, total on seats with different numbers.
pub proof fn lemma_place_order(a: SeatView, b: SeatView, c: SeatView)
    ensures
        !place_lt(a, a),
        place_lt(a, b) && place_lt(b, c) ==> place_lt(a, c),
        place_lt(a, b) ==> !place_lt(b, a),
        a.seat_number != b.seat_number ==> place_lt(a, b) || place_lt(b, a),
{
    lemma_text_order(a.area, b.area, c.area);
    lemma_text_order(a.seat_number, b.seat_number, c.seat_number);
    lemma_text_order(b.area, a.area, c.area);
    lemma_text_order(b.seat_number, a.seat_number, c.seat_number);
}

proof fn lemma_insert_contains<A>(s: Seq<A>, p: int, e: A)
    requires
        0 <= p <= s.len(),
    ensures
        forall|x: A| s.insert(p, e).contains(x) <==> (s.contains(x) || x == e),
{
    s.insert_ensures(p, e);
    let t = s.insert(p, e);
    assert forall|x: A| t.contains(x) implies (s.contains(x) || x == e) by {
        let k = choose|k: int| 0 <= k < t.len() && t[k] == x;
        if k < p {
            assert(s[k] == x);
        } else if k > p {
            assert(s[k - 1] == x);
        }
    }
    assert forall|x: A| (s.contains(x) || x == e) implies t.contains(x) by {
        if x == e {
            assert(t[p] == x);
        } else {
            let k = choose|k: int| 0 <= k < s.len() && s[k] == x;
            if k < p {
                assert(t[k] == x);
            } else {
                assert(t[k + 1] == x);
            }
        }
    }
}

/// Decides `place_lt(a@, b@)`.
fn place_less(a: &Seat, b: &Seat) -> (r: bool)
    ensures
        r == place_lt(a@, b@),
{
    text_less(a.area.as_str(), b.area.as_str()) || (text_equal(a.area.as_str(), b.area.as_str())
        && text_less(a.seat_number.as_str(), b.seat_number.as_str()))
}

/// Puts seats with distinct numbers into catalogue order.
fn sort_by_place(rows: &Vec<Seat>) -> (out: Vec<Seat>)
    requires
        seat_numbers_unique(seat_rows(rows@)),
    ensures
        in_place_order(seat_rows(out@)),
        forall|x: SeatView| seat_rows(out@).contains(x) <==> seat_rows(rows@).contains(x),
{
    let mut out: Vec<Seat> = Vec::new();
    let n = rows.len();
    let mut i: usize = 0;
    let ghost rv = seat_rows(rows@);
    while i < n
        invariant
            n == rows@.len(),
            i <= n,
            rv == seat_rows(rows@),
            seat_numbers_unique(rv),
            in_place_order(seat_rows(out@)),
            forall|x: SeatView| seat_rows(out@).contains(x) <==> rv.take(i as int).contains(x),
        decreases n - i,
    {
        let e = rows[i].copy();
        let ghost ov = seat_rows(out@);
        proof {
            assert forall|q: int| 0 <= q < ov.len() implies ov[q].seat_number != e@.seat_number by {
                assert(ov.contains(ov[q]));
                let k = choose|k: int| 0 <= k < i && rv.take(i as int)[k] == ov[q];
                assert(rv[k] == ov[q]);
                assert(rv[i as int] == e@);
            }
        }
        let mut p: usize = 0;
        while p < out.len() && place_less(&out[p], &e)
            invariant
                ov == seat_rows(out@),
                p <= out@.len(),
                forall|q: int| 0 <= q < p ==> place_lt(ov[q], e@),
            decreases out@.len() - p,
        {
            p = p + 1;
        }
        proof {
            assert forall|q: int| p <= q < ov.len() implies place_lt(e@, ov[q]) by {
                lemma_place_order(ov[p as int], e@, ov[q]);
                lemma_place_order(e@, ov[p as int], ov[q]);
            }
            lemma_insert_contains(ov, p as int, e@);
            ov.insert_ensures(p as int, e@);
        }
        out.insert(p, e);
        proof {
            assert(seat_rows(out@) =~= ov.insert(p as int, e@));
            let nv = seat_rows(out@);
            assert(rv[i as int] == e@);
            assert forall|x: SeatView| nv.contains(x) <==> rv.take(i + 1).contains(x) by {
                assert(nv.contains(x) <==> (ov.contains(x) || x == e@));
                assert(rv.take(i + 1) =~= rv.take(i as int).push(rv[i as int]));
                vstd::seq_lib::lemma_seq_contains_after_push(rv.take(i as int), rv[i as int], x);
            }
            assert forall|a: int, b: int| 0 <= a < b < nv.len() implies place_lt(nv[a], nv[b]) by {
                if b < p {
                } else if a < p && b == p {
                } else if a < p && b > p {
                    lemma_place_order(nv[a], e@, nv[b]);
                } else if a == p {
                } else {
                }
            }
        }
        i = i + 1;
    }
    proof {
        assert(rv.take(n as int) =~= rv);
    }
    out
}


proof fn lemma_pick_step(
    tv: Seq<SeatView>,
    picked: Seq<SeatView>,
    i: int,
    pick: spec_fn(SeatView) -> bool,
)
    requires
        0 <= i < tv.len(),
        seat_numbers_unique(tv),
        seat_numbers_unique(picked),
        forall|x: SeatView| picked.contains(x) <==> (tv.take(i).contains(x) && pick(x)),
    ensures
        pick(tv[i]) ==> seat_numbers_unique(picked.push(tv[i])),
        pick(tv[i]) ==> forall|x: SeatView|
            picked.push(tv[i]).contains(x) <==> (tv.take(i + 1).contains(x) && pick(x)),
        !pick(tv[i]) ==> forall|x: SeatView|
            picked.contains(x) <==> (tv.take(i + 1).contains(x) && pick(x)),
{
    assert(tv.take(i + 1) =~= tv.take(i).push(tv[i]));
    assert forall|x: SeatView| tv.take(i + 1).contains(x) <==> (tv.take(i).contains(x) || x == tv[i]) by {
        vstd::seq_lib::lemma_seq_contains_after_push(tv.take(i), tv[i], x);
    }
    if pick(tv[i]) {
        let np = picked.push(tv[i]);
        assert forall|x: SeatView| np.contains(x) <==> (picked.contains(x) || x == tv[i]) by {
            vstd::seq_lib::lemma_seq_contains_after_push(picked, tv[i], x);
        }
        assert forall|a: int, b: int|
            0 <= a < np.len() && 0 <= b < np.len() && a != b implies np[a].seat_number
            != np[b].seat_number by {
            if a == picked.len() || b == picked.len() {
                let q = if a == picked.len() { b } else { a };
                assert(picked.contains(picked[q]));
                let k = choose|k: int| 0 <= k < i && tv.take(i)[k] == picked[q];
                assert(tv[k] == picked[q]);
            }
        }
    }
}

/// A seat passes the list filters: its area and status equal the given
/// ones, where given.
pub open spec fn seat_fits_query(
    s: SeatView,
    area: Option<Seq<char>>,
    status: Option<Seq<char>>,
) -> bool {
    &&& (area matches Some(a) ==> s.area == a)
    &&& (status matches Some(t) ==> s.status == t)
}

fn fits_query(s: &Seat, area: &Option<String>, status: &Option<String>) -> (r: bool)
    ensures
        r == seat_fits_query(s@, opt_text(*area), opt_text(*status)),
{
    let area_ok = match area {
        Some(a) => text_equal(s.area.as_str(), a.as_str()),
        None => true,
    };
    let status_ok = match status {
        Some(t) => text_equal(s.status.as_str(), t.as_str()),
        None => true,
    };
    area_ok && status_ok
}

/// The message of a seat list: "共 N 个座位".
pub open spec fn seat_count_message(n: nat) -> Seq<char> {
    "共 "@ + decimal(n) + " 个座位"@
}

/// The message of a free-seat list: "当前共有 N 个空闲座位".
pub open spec fn free_count_message(n: nat) -> Seq<char> {
    "当前共有 "@ + decimal(n) + " 个空闲座位"@
}

fn count_message(prefix: &str, n: usize, suffix: &str) -> (r: String)
    ensures
        r@ == prefix@ + decimal(n as nat) + suffix@,
{
    let mut m = String::from_str(prefix);
    let c = count_text(n);
    m.append(c.as_str());
    m.append(suffix);
    m
}

/// Lists the seats, optionally only those of one area and/or one status,
/// in catalogue order (area, then seat number).
pub fn get_seats(library: &SeatLibrary, query: &GetSeatsQuery) -> (r: Reply<Vec<Seat>>)
    requires
        library.wf(),
    ensures
        r.status == HttpStatus::Success,
        r.is_consistent(),
        r.body.data is Some,
        r.body.data matches Some(v) ==> {
            &&& lists_in_place_order(
                seat_rows(v@),
                library@.seats,
                |s: SeatView| seat_fits_query(s, opt_text(query.area), opt_text(query.status)),
            )
            &&& r.body.message@ == seat_count_message(v@.len())
        },
{
    let ghost tv = library@.seats;
    let ghost pick = |s: SeatView| seat_fits_query(s, opt_text(query.area), opt_text(query.status));
    let table = library.seats();
    let n = table.len();
    let mut picked: Vec<Seat> = Vec::new();
    let mut i: usize = 0;
    while i < n
        invariant
            n == table@.len(),
            i <= n,
            tv == seat_rows(table@),
            seat_numbers_unique(tv),
            pick == (|s: SeatView| seat_fits_query(s, opt_text(query.area), opt_text(query.status))),
            seat_numbers_unique(seat_rows(picked@)),
            forall|x: SeatView| seat_rows(picked@).contains(x) <==> (tv.take(i as int).contains(x) && pick(x)),
        decreases n - i,
    {
        proof {
            lemma_pick_step(tv, seat_rows(picked@), i as int, pick);
        }
        if fits_query(&table[i], &query.area, &query.status) {
            let ghost before = seat_rows(picked@);
            picked.push(table[i].copy());
            assert(seat_rows(picked@) =~= before.push(tv[i as int]));
        }
        i = i + 1;
    }
    assert(tv.take(n as int) =~= tv);
    let sorted = sort_by_place(&picked);
    let message = count_message("共 ", sorted.len(), " 个座位");
    reply_ok(message, Some(sorted))
}

/// Whether some seat has the id.
pub open spec fn has_seat(table: Seq<SeatView>, id: i32) -> bool {
    exists|i: int| 0 <= i < table.len() && table[i].id == id
}

/// The position of the seat with the id (meaningful when `has_seat`).
pub open spec fn seat_index(table: Seq<SeatView>, id: i32) -> int {
    choose|i: int| 0 <= i < table.len() && table[i].id == id
}

/// The seat with the id (meaningful when `has_seat`).
pub open spec fn seat_with_id(table: Seq<SeatView>, id: i32) -> SeatView {
    table[seat_index(table, id)]
}

/// Finds the position of the seat with the id.
pub(crate) fn seat_position(library: &SeatLibrary, id: i32) -> (r: Option<usize>)
    requires
        library.wf(),
    ensures
        r is Some <==> has_seat(library@.seats, id),
        r matches Some(k) ==> k < library@.seats.len() && library@.seats[k as int].id == id
            && k == seat_index(library@.seats, id),
{
    let table = library.seats();
    let ghost tv = library@.seats;
    let n = table.len();
    let mut i: usize = 0;
    while i < n
        invariant
            n == table@.len(),
            tv == seat_rows(table@),
            tv == library@.seats,
            library@.wf(),
            i <= n,
            forall|k: int| 0 <= k < i ==> tv[k].id != id,
        decreases n - i,
    {
        if table[i].id == id {
            proof {
                assert(tv[i as int].id == id);
                let c = choose|c: int| 0 <= c < tv.len() && tv[c].id == id;
                assert(c == i) by {
                    if c < i {
                        assert(tv[c].id < tv[i as int].id);
                    } else if c > i {
                        assert(tv[i as int].id < tv[c].id);
                    }
                }
            }
            return Some(i);
        }
        i = i + 1;
    }
    None
}

/// Looks up one seat by id.
pub fn get_seat_by_id(library: &SeatLibrary, seat_id: i32) -> (r: Reply<Seat>)
    requires
        library.wf(),
    ensures
        r.is_consistent(),
        has_seat(library@.seats, seat_id) ==> {
            &&& r.status == HttpStatus::Success
            &&& r.body.message@ == "获取成功"@
            &&& r.body.data matches Some(s) && s@ == seat_with_id(library@.seats, seat_id)
        },
        !has_seat(library@.seats, seat_id) ==> {
            &&& r.status == HttpStatus::NotFound
            &&& r.body.message@ == "座位不存在"@
            &&& r.body.data is None
        },
{
    match seat_position(library, seat_id) {
        Some(k) => {
            let seat = library.seats()[k].copy();
            reply_ok(String::from_str("获取成功"), Some(seat))
        },
        None => reply_err(HttpStatus::NotFound, "座位不存在"),
    }
}


/// A reservation that still holds its seat: `pending` or `active`.
pub open spec fn is_open_status(status: Seq<char>) -> bool {
    status == "pending"@ || status == "active"@
}

/// Decides `is_open_status(status@)`.
pub(crate) fn is_open(status: &str) -> (r: bool)
    ensures
        r == is_open_status(status@),
{
    text_equal(status, "pending") || text_equal(status, "active")
}

/// A reservation keeps the seat from the window `[start, end]`: it is for
/// that seat, still open, and its own window meets the given one. Times are
/// compared as texts, as the stored rows are.
pub open spec fn blocks(r: ReservationView, seat_id: i32, start: Seq<char>, end: Seq<char>) -> bool {
    &&& r.seat_id == seat_id
    &&& is_open_status(r.status)
    &&& text_le(r.start_time, end)
    &&& text_le(start, r.end_time)
}

/// Some reservation keeps the seat from the window.
pub open spec fn seat_blocked(
    reservations: Seq<ReservationView>,
    seat_id: i32,
    start: Seq<char>,
    end: Seq<char>,
) -> bool {
    exists|k: int| 0 <= k < reservations.len() && blocks(reservations[k], seat_id, start, end)
}

/// A seat is free for the window: its status is `available` and no
/// reservation keeps it.
pub open spec fn seat_is_free(
    lv: LibraryView,
    s: SeatView,
    start: Seq<char>,
    end: Seq<char>,
) -> bool {
    s.status == "available"@ && !seat_blocked(lv.reservations, s.id, start, end)
}

/// Decides `seat_blocked(library@.reservations, seat_id, start@, end@)`.
pub(crate) fn is_blocked(library: &SeatLibrary, seat_id: i32, start: &str, end: &str) -> (r: bool)
    ensures
        r == seat_blocked(library@.reservations, seat_id, start@, end@),
{
    let rows = library.reservations();
    let ghost rv = library@.reservations;
    let n = rows.len();
    let mut i: usize = 0;
    while i < n
        invariant
            n == rows@.len(),
            rv == reservation_rows(rows@),
            rv == library@.reservations,
            i <= n,
            forall|k: int| 0 <= k < i ==> !blocks(rv[k], seat_id, start@, end@),
        decreases n - i,
    {
        let row = &rows[i];
        if row.seat_id == seat_id && is_open(row.status.as_str())
            && !text_less(end, row.start_time.as_str()) && !text_less(row.end_time.as_str(), start) {
            assert(blocks(rv[i as int], seat_id, start@, end@));
            return true;
        }
        i = i + 1;
    }
    false
}

/// The window of a free-seat query: each missing end stands for `now`.
pub open spec fn query_window(query: &AvailableSeatsQuery, now: Seq<char>) -> (Seq<char>, Seq<char>) {
    (
        match query.start_time { Some(t) => t@, None => now },
        match query.end_time { Some(t) => t@, None => now },
    )
}

/// The free-seat list for a query answered at `now` (an RFC 3339 text).
pub open spec fn lists_free_seats(
    v: Seq<SeatView>,
    lv: LibraryView,
    query: &AvailableSeatsQuery,
    now: Seq<char>,
) -> bool {
    let (start, end) = query_window(query, now);
    lists_in_place_order(v, lv.seats, |s: SeatView| seat_is_free(lv, s, start, end))
}

/// Lists the seats that are free for the query's window, a missing start
/// or end being `now`, in catalogue order.
pub fn get_available_seats_at(
    library: &SeatLibrary,
    query: &AvailableSeatsQuery,
    now: &str,
) -> (r: Reply<Vec<Seat>>)
    requires
        library.wf(),
    ensures
        r.status == HttpStatus::Success,
        r.is_consistent(),
        r.body.data is Some,
        r.body.data matches Some(v) ==> {
            &&& lists_free_seats(seat_rows(v@), library@, query, now@)
            &&& r.body.message@ == free_count_message(v@.len())
        },
{
    let start: &str = match &query.start_time {
        Some(t) => t.as_str(),
        None => now,
    };
    let end: &str = match &query.end_time {
        Some(t) => t.as_str(),
        None => now,
    };
    let ghost lv = library@;
    let ghost tv = library@.seats;
    let ghost pick = |s: SeatView| seat_is_free(lv, s, start@, end@);
    let table = library.seats();
    let n = table.len();
    let mut picked: Vec<Seat> = Vec::new();
    let mut i: usize = 0;
    while i < n
        invariant
            n == table@.len(),
            i <= n,
            tv == seat_rows(table@),
            lv == library@,
            tv == lv.seats,
            seat_numbers_unique(tv),
            pick == (|s: SeatView| seat_is_free(lv, s, start@, end@)),
            seat_numbers_unique(seat_rows(picked@)),
            forall|x: SeatView| seat_rows(picked@).contains(x) <==> (tv.take(i as int).contains(x) && pick(x)),
        decreases n - i,
    {
        proof {
            lemma_pick_step(tv, seat_rows(picked@), i as int, pick);
        }
        let seat = &table[i];
        if text_equal(seat.status.as_str(), "available") && !is_blocked(library, seat.id, start, end) {
            let ghost before = seat_rows(picked@);
            picked.push(seat.copy());
            assert(seat_rows(picked@) =~= before.push(tv[i as int]));
        }
        i = i + 1;
    }
    assert(tv.take(n as int) =~= tv);
    let sorted = sort_by_place(&picked);
    let message = count_message("当前共有 ", sorted.len(), " 个空闲座位");
    reply_ok(message, Some(sorted))
}

/// Lists the seats free for the query's window, a missing start or end
/// being the current time.
pub fn get_available_seats(library: &SeatLibrary, query: &AvailableSeatsQuery) -> (r: Reply<Vec<Seat>>)
    requires
        library.wf(),
    ensures
        r.status == HttpStatus::Success,
        r.is_consistent(),
        r.body.data is Some,
        r.body.data matches Some(v) ==> exists|m: Moment, now: Seq<char>|
            #![trigger clock_reading(m, now)]
            {
                &&& clock_reading(m, now)
                &&& lists_free_seats(seat_rows(v@), library@, query, now)
                &&& r.body.message@ == free_count_message(v@.len())
            },
{
    let clock = utc_now();
    let r = get_available_seats_at(library, query, clock.text.as_str());
    assert(clock_reading(clock.moment, clock.text@));
    r
}


// ---------- adding a seat ----------

/// Some seat carries the number.
pub open spec fn seat_number_taken(table: Seq<SeatView>, number: Seq<char>) -> bool {
    exists|i: int| 0 <= i < table.len() && table[i].seat_number == number
}

/// The seat that an accepted request adds: the next id, status
/// `available`, created and updated at `now`.
pub open spec fn added_seat(lv: LibraryView, req: &CreateSeatRequest, now: Seq<char>) -> SeatView {
    SeatView {
        id: (lv.seat_seq + 1) as i32,
        seat_number: req.seat_number@,
        area: req.area@,
        status: "available"@,
        x_coord: req.x_coord,
        y_coord: req.y_coord,
        created_at: now,
        updated_at: now,
    }
}

/// Adding a seat: refused when the number is taken (the table's unique
/// key) or when no `i32` id is left; else the seat is appended.
pub open spec fn create_seat_spec(lv: LibraryView, req: &CreateSeatRequest, now: Seq<char>) -> (
    LibraryView,
    Answer,
) {
    if seat_number_taken(lv.seats, req.seat_number@) {
        (lv, Answer { status: HttpStatus::BadRequest, message: "座位号已存在"@ })
    } else if lv.seat_seq >= i32::MAX {
        (lv, Answer { status: HttpStatus::ServerError, message: "添加座位失败"@ })
    } else {
        (
            LibraryView {
                seats: lv.seats.push(added_seat(lv, req, now)),
                seat_seq: lv.seat_seq + 1,
                ..lv
            },
            Answer { status: HttpStatus::Success, message: "座位添加成功"@ },
        )
    }
}

/// Decides `seat_number_taken(library@.seats, number@)`.
pub(crate) fn number_taken(library: &SeatLibrary, number: &str) -> (r: bool)
    ensures
        r == seat_number_taken(library@.seats, number@),
{
    let table = library.seats();
    let ghost tv = library@.seats;
    let n = table.len();
    let mut i: usize = 0;
    while i < n
        invariant
            n == table@.len(),
            tv == seat_rows(table@),
            tv == library@.seats,
            i <= n,
            forall|k: int| 0 <= k < i ==> tv[k].seat_number != number@,
        decreases n - i,
    {
        if text_equal(table[i].seat_number.as_str(), number) {
            assert(tv[i as int].seat_number == number@);
            return true;
        }
        i = i + 1;
    }
    false
}

/// Adds a seat with status `available`, created at `now`.
pub fn create_seat_at(library: &mut SeatLibrary, req: &CreateSeatRequest, now: &str) -> (r: Reply<()>)
    requires
        old(library).wf(),
    ensures
        final(library).wf(),
        (final(library)@, r.answer()) == create_seat_spec(old(library)@, req, now@),
        r.is_consistent(),
        r.body.data is None,
{
    if number_taken(library, req.seat_number.as_str()) {
        return reply_err(HttpStatus::BadRequest, "座位号已存在");
    }
    if library.seat_seq() >= 0x7fff_ffff {
        return reply_err(HttpStatus::ServerError, "添加座位失败");
    }
    let ghost lv = library@;
    let id = (library.seat_seq() + 1) as i32;
    let seat = Seat {
        id,
        seat_number: req.seat_number.clone(),
        area: req.area.clone(),
        status: String::from_str("available"),
        x_coord: req.x_coord,
        y_coord: req.y_coord,
        created_at: String::from_str(now),
        updated_at: String::from_str(now),
    };
    assert(seat@ == added_seat(lv, req, now@));
    library.append_seat(seat);
    reply_ok(String::from_str("座位添加成功"), None)
}

/// Adds a seat, stamped with the current time.
pub fn create_seat(library: &mut SeatLibrary, req: &CreateSeatRequest) -> (r: Reply<()>)
    requires
        old(library).wf(),
    ensures
        final(library).wf(),
        exists|m: Moment, now: Seq<char>|
            #![trigger clock_reading(m, now)]
            clock_reading(m, now) && (final(library)@, r.answer()) == create_seat_spec(old(library)@, req, now),
        r.is_consistent(),
        r.body.data is None,
{
    let clock = utc_now();
    let r = create_seat_at(library, req, clock.text.as_str());
    assert(clock_reading(clock.moment, clock.text@));
    r
}


// ---------- changing a seat ----------

/// Another seat than the one with id `id` carries the number.
pub open spec fn number_taken_by_other(table: Seq<SeatView>, id: i32, number: Seq<char>) -> bool {
    exists|i: int| 0 <= i < table.len() && table[i].id != id && table[i].seat_number == number
}

/// The seat after an update request: each present field is written, with
/// `updated_at` set to `now`, in the order number, area, status, x, y. A new
/// number that another seat carries is not written (the unique key refuses
/// that single change; the others go ahead), and neither is a status other
/// than `available`, `occupied`, `reserved` or `disabled`.
pub open spec fn updated_seat(
    table: Seq<SeatView>,
    s: SeatView,
    req: &UpdateSeatRequest,
    now: Seq<char>,
) -> SeatView {
    let s1 = match req.seat_number {
        Some(n) => if number_taken_by_other(table, s.id, n@) {
            s
        } else {
            SeatView { seat_number: n@, updated_at: now, ..s }
        },
        None => s,
    };
    let s2 = match req.area {
        Some(a) => SeatView { area: a@, updated_at: now, ..s1 },
        None => s1,
    };
    let s3 = match req.status {
        Some(t) => if is_seat_status(t@) {
            SeatView { status: t@, updated_at: now, ..s2 }
        } else {
            s2
        },
        None => s2,
    };
    let s4 = match req.x_coord {
        Some(x) => SeatView { x_coord: Some(x), updated_at: now, ..s3 },
        None => s3,
    };
    match req.y_coord {
        Some(y) => SeatView { y_coord: Some(y), updated_at: now, ..s4 },
        None => s4,
    }
}

/// Changing a seat: the present fields are written; the answer says
/// whether the seat exists.
pub open spec fn update_seat_spec(
    lv: LibraryView,
    seat_id: i32,
    req: &UpdateSeatRequest,
    now: Seq<char>,
) -> (LibraryView, Answer) {
    if has_seat(lv.seats, seat_id) {
        let k = seat_index(lv.seats, seat_id);
        (
            LibraryView { seats: lv.seats.update(k, updated_seat(lv.seats, lv.seats[k], req, now)), ..lv },
            Answer { status: HttpStatus::Success, message: "座位更新成功"@ },
        )
    } else {
        (lv, Answer { status: HttpStatus::NotFound, message: "座位不存在"@ })
    }
}

/// Decides `number_taken_by_other(library@.seats, id, number@)`.
fn number_taken_by_other_seat(library: &SeatLibrary, id: i32, number: &str) -> (r: bool)
    ensures
        r == number_taken_by_other(library@.seats, id, number@),
{
    let table = library.seats();
    let ghost tv = library@.seats;
    let n = table.len();
    let mut i: usize = 0;
    while i < n
        invariant
            n == table@.len(),
            tv == seat_rows(table@),
            tv == library@.seats,
            i <= n,
            forall|k: int| 0 <= k < i ==> !(tv[k].id != id && tv[k].seat_number == number@),
        decreases n - i,
    {
        if table[i].id != id && text_equal(table[i].seat_number.as_str(), number) {
            assert(tv[i as int].id != id && tv[i as int].seat_number == number@);
            return true;
        }
        i = i + 1;
    }
    false
}

/// Writes the present fields of the request into seat `seat_id`, stamped
/// with `now`.
pub fn update_seat_at(
    library: &mut SeatLibrary,
    seat_id: i32,
    req: &UpdateSeatRequest,
    now: &str,
) -> (r: Reply<()>)
    requires
        old(library).wf(),
    ensures
        final(library).wf(),
        (final(library)@, r.answer()) == update_seat_spec(old(library)@, seat_id, req, now@),
        r.is_consistent(),
        r.body.data is None,
{
    let ghost lv = library@;
    let k = match seat_position(library, seat_id) {
        Some(k) => k,
        None => {
            return reply_err(HttpStatus::NotFound, "座位不存在");
        },
    };
    let mut seat = library.seats()[k].copy();
    let ghost s0 = seat@;
    if let Some(n) = &req.seat_number {
        if !number_taken_by_other_seat(library, seat_id, n.as_str()) {
            seat.seat_number = n.clone();
            seat.updated_at = String::from_str(now);
        }
    }
    if let Some(a) = &req.area {
        seat.area = a.clone();
        seat.updated_at = String::from_str(now);
    }
    if let Some(t) = &req.status {
        if is_known_status(t.as_str()) {
            seat.status = t.clone();
            seat.updated_at = String::from_str(now);
        }
    }
    if let Some(x) = req.x_coord {
        seat.x_coord = Some(x);
        seat.updated_at = String::from_str(now);
    }
    if let Some(y) = req.y_coord {
        seat.y_coord = Some(y);
        seat.updated_at = String::from_str(now);
    }
    assert(seat@ == updated_seat(lv.seats, s0, req, now@));
    library.replace_seat(k, seat);
    reply_ok(String::from_str("座位更新成功"), None)
}

/// Writes the present fields of the request into seat `seat_id`, stamped
/// with the current time.
pub fn update_seat(library: &mut SeatLibrary, seat_id: i32, req: &UpdateSeatRequest) -> (r: Reply<()>)
    requires
        old(library).wf(),
    ensures
        final(library).wf(),
        exists|m: Moment, now: Seq<char>|
            #![trigger clock_reading(m, now)]
            clock_reading(m, now) && (final(library)@, r.answer()) == update_seat_spec(
                old(library)@,
                seat_id,
                req,
                now,
            ),
        r.is_consistent(),
        r.body.data is None,
{
    let clock = utc_now();
    let r = update_seat_at(library, seat_id, req, clock.text.as_str());
    assert(clock_reading(clock.moment, clock.text@));
    r
}

// ---------- removing a seat ----------

/// Some open reservation is for the seat.
pub open spec fn seat_in_use(reservations: Seq<ReservationView>, seat_id: i32) -> bool {
    exists|k: int| 0 <= k < reservations.len() && reservations[k].seat_id == seat_id
        && is_open_status(reservations[k].status)
}

/// Removing a seat: refused while an open reservation holds it; else the
/// row goes, if there is one.
pub open spec fn delete_seat_spec(lv: LibraryView, seat_id: i32) -> (LibraryView, Answer) {
    if seat_in_use(lv.reservations, seat_id) {
        (lv, Answer { status: HttpStatus::BadRequest, message: "该座位有正在进行的预约，无法删除"@ })
    } else if has_seat(lv.seats, seat_id) {
        (
            LibraryView { seats: lv.seats.remove(seat_index(lv.seats, seat_id)), ..lv },
            Answer { status: HttpStatus::Success, message: "座位删除成功"@ },
        )
    } else {
        (lv, Answer { status: HttpStatus::NotFound, message: "座位不存在"@ })
    }
}

/// Decides `seat_in_use(library@.reservations, seat_id)`.
pub(crate) fn in_use(library: &SeatLibrary, seat_id: i32) -> (r: bool)
    ensures
        r == seat_in_use(library@.reservations, seat_id),
{
    let rows = library.reservations();
    let ghost rv = library@.reservations;
    let n = rows.len();
    let mut i: usize = 0;
    while i < n
        invariant
            n == rows@.len(),
            rv == reservation_rows(rows@),
            rv == library@.reservations,
            i <= n,
            forall|k: int| 0 <= k < i ==> !(rv[k].seat_id == seat_id && is_open_status(rv[k].status)),
        decreases n - i,
    {
        if rows[i].seat_id == seat_id && is_open(rows[i].status.as_str()) {
            assert(rv[i as int].seat_id == seat_id && is_open_status(rv[i as int].status));
            return true;
        }
        i = i + 1;
    }
    false
}

/// Removes seat `seat_id` unless an open reservation holds it.
pub fn delete_seat(library: &mut SeatLibrary, seat_id: i32) -> (r: Reply<()>)
    requires
        old(library).wf(),
    ensures
        final(library).wf(),
        (final(library)@, r.answer()) == delete_seat_spec(old(library)@, seat_id),
        r.is_consistent(),
        r.body.data is None,
{
    if in_use(library, seat_id) {
        return reply_err(HttpStatus::BadRequest, "该座位有正在进行的预约，无法删除");
    }
    let ghost lv = library@;
    match seat_position(library, seat_id) {
        Some(k) => {
            library.remove_seat(k);
            reply_ok(String::from_str("座位删除成功"), None)
        },
        None => reply_err(HttpStatus::NotFound, "座位不存在"),
    }
}

} // verus!
