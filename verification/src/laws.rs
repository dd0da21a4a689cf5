//! Properties that hold across requests.
use vstd::prelude::*;
use crate::clock::{rfc3339_moment, rfc3339_whole_hours, Moment};
use crate::models::{CreateReservationRequest, CreateSeatRequest, SeatView, UpdateSeatRequest};
use crate::reply::HttpStatus;
use crate::reservations::{
    added_reservation, cancel_reservation_spec, create_reservation_spec, not_cancellable_message,
    open_count, owned_index, owns_reservation, request_verdict,
};
use crate::seats::{
    added_seat, create_seat_spec, delete_seat_spec, has_seat, in_place_order, is_open_status,
    lemma_place_order, lists_in_place_order, number_taken_by_other, place_lt, seat_blocked,
    seat_fits_query, seat_in_use, seat_index, seat_is_free, seat_number_taken, seat_with_id,
    update_seat_spec, updated_seat,
};
use crate::seed::{
    init_database_spec, insert_admin, insert_seed_seat, seed_seat, seed_seats_upto, student_id_taken,
    SEED_SEAT_COUNT,
};
use crate::store::{LibraryView, ReservationView};
use crate::text::{lemma_text_le_transitive, text_le};

verus! {

/// A seat that was added can be looked up by its new id, and it is the
/// seat the request described, `available`.
pub proof fn law_created_seat_is_found(lv: LibraryView, req: &CreateSeatRequest, now: Seq<char>)
    requires
        lv.wf(),
        create_seat_spec(lv, req, now).1.status == HttpStatus::Success,
    ensures
        ({
            let after = create_seat_spec(lv, req, now).0;
            let id = (lv.seat_seq + 1) as i32;
            &&& has_seat(after.seats, id)
            &&& seat_with_id(after.seats, id) == added_seat(lv, req, now)
            &&& seat_with_id(after.seats, id).status == "available"@
        }),
{
    let after = create_seat_spec(lv, req, now).0;
    let id = (lv.seat_seq + 1) as i32;
    let last = lv.seats.len() as int;
    assert(after.seats[last].id == id);
    let k = seat_index(after.seats, id);
    assert(k == last) by {
        if k < last {
            assert(lv.seats[k].id <= lv.seat_seq);
        }
    }
}

/// Once a seat number is in use, adding another seat with that number is
/// refused.
pub proof fn law_seat_number_stays_unique(
    lv: LibraryView,
    req: &CreateSeatRequest,
    again: &CreateSeatRequest,
    now: Seq<char>,
    later: Seq<char>,
)
    requires
        lv.wf(),
        create_seat_spec(lv, req, now).1.status == HttpStatus::Success,
        again.seat_number@ == req.seat_number@,
    ensures
        create_seat_spec(create_seat_spec(lv, req, now).0, again, later).1.status
            == HttpStatus::BadRequest,
        create_seat_spec(create_seat_spec(lv, req, now).0, again, later).0
            == create_seat_spec(lv, req, now).0,
{
    let after = create_seat_spec(lv, req, now).0;
    assert(after.seats[lv.seats.len() as int].seat_number == again.seat_number@);
    assert(seat_number_taken(after.seats, again.seat_number@));
}

/// After a seat is removed it can no longer be found.
pub proof fn law_deleted_seat_is_gone(lv: LibraryView, seat_id: i32)
    requires
        lv.wf(),
        delete_seat_spec(lv, seat_id).1.status == HttpStatus::Success,
    ensures
        !has_seat(delete_seat_spec(lv, seat_id).0.seats, seat_id),
        delete_seat_spec(lv, seat_id).0.seats.len() == lv.seats.len() - 1,
{
    let k = seat_index(lv.seats, seat_id);
    let after = delete_seat_spec(lv, seat_id).0;
    lv.seats.remove_ensures(k);
    if has_seat(after.seats, seat_id) {
        let j = choose|j: int| 0 <= j < after.seats.len() && after.seats[j].id == seat_id;
        if j < k {
            assert(lv.seats[j].id < lv.seats[k].id);
        } else {
            assert(lv.seats[k].id < lv.seats[j + 1].id);
        }
    }
}

/// Changing a seat keeps the seats, their order and their ids.
pub proof fn law_update_keeps_seat_ids(
    lv: LibraryView,
    seat_id: i32,
    req: &UpdateSeatRequest,
    now: Seq<char>,
)
    requires
        lv.wf(),
    ensures
        update_seat_spec(lv, seat_id, req, now).0.seats.len() == lv.seats.len(),
        forall|i: int|
            0 <= i < lv.seats.len() ==> #[trigger] update_seat_spec(lv, seat_id, req, now).0.seats[i].id
                == lv.seats[i].id,
        update_seat_spec(lv, seat_id, req, now).0.reservations == lv.reservations,
{
}


/// Counting open reservations over one more row.
pub proof fn lemma_open_count_push(rs: Seq<ReservationView>, r: ReservationView, user_id: i32)
    ensures
        open_count(rs.push(r), user_id) == open_count(rs, user_id) + if r.user_id == user_id
            && crate::seats::is_open_status(r.status) {
            1nat
        } else {
            0nat
        },
{
    assert(rs.push(r).drop_last() =~= rs);
}

/// An accepted booking is the reader's fourth open reservation at most:
/// the reader held fewer than three before, and holds one more after.
pub proof fn law_booking_respects_cap(
    lv: LibraryView,
    user_id: i32,
    req: &CreateReservationRequest,
    now: Moment,
    now_text: Seq<char>,
)
    requires
        lv.wf(),
        create_reservation_spec(lv, user_id, req, now, now_text).1.status == HttpStatus::Success,
    ensures
        open_count(lv.reservations, user_id) < 3,
        open_count(create_reservation_spec(lv, user_id, req, now, now_text).0.reservations, user_id)
            == open_count(lv.reservations, user_id) + 1,
{
    let after = create_reservation_spec(lv, user_id, req, now, now_text).0;
    assert(request_verdict(req, now) is None);
    lemma_open_count_push(lv.reservations, added_reservation(lv, user_id, req, now_text), user_id);
}

/// An accepted booking overlaps no open reservation of the same seat, and
/// its seat is then no longer free for any window.
pub proof fn law_booking_takes_the_seat(
    lv: LibraryView,
    user_id: i32,
    req: &CreateReservationRequest,
    now: Moment,
    now_text: Seq<char>,
    start: Seq<char>,
    end: Seq<char>,
)
    requires
        lv.wf(),
        create_reservation_spec(lv, user_id, req, now, now_text).1.status == HttpStatus::Success,
    ensures
        !seat_blocked(lv.reservations, req.seat_id, req.start_time@, req.end_time@),
        has_seat(create_reservation_spec(lv, user_id, req, now, now_text).0.seats, req.seat_id),
        !seat_is_free(
            create_reservation_spec(lv, user_id, req, now, now_text).0,
            seat_with_id(create_reservation_spec(lv, user_id, req, now, now_text).0.seats, req.seat_id),
            start,
            end,
        ),
{
    let after = create_reservation_spec(lv, user_id, req, now, now_text).0;
    assert(request_verdict(req, now) is None);
    let k = seat_index(lv.seats, req.seat_id);
    assert(after.seats[k].id == req.seat_id);
    assert(after.seats[k].status == "reserved"@);
    let j = seat_index(after.seats, req.seat_id);
    assert(j == k) by {
        if j < k {
            assert(lv.seats[j].id < lv.seats[k].id);
        } else if j > k {
            assert(lv.seats[k].id < lv.seats[j].id);
        }
    }
    reveal_strlit("reserved");
    reveal_strlit("available");
    assert("reserved"@[0] != "available"@[0]);
}

/// Cancelling undoes a booking's hold: right after an accepted booking the
/// reader can cancel it; the reservation becomes `cancelled`, the seat
/// `available`, and the reader's open count is back where it was.
pub proof fn law_cancel_releases_booking(
    lv: LibraryView,
    user_id: i32,
    req: &CreateReservationRequest,
    now: Moment,
    now_text: Seq<char>,
    later: Seq<char>,
)
    requires
        lv.wf(),
        create_reservation_spec(lv, user_id, req, now, now_text).1.status == HttpStatus::Success,
    ensures
        ({
            let booked = create_reservation_spec(lv, user_id, req, now, now_text).0;
            let id = (lv.reservation_seq + 1) as i32;
            let (after, answer) = cancel_reservation_spec(booked, id, user_id, later);
            &&& answer.status == HttpStatus::Success
            &&& after.reservations.last().status == "cancelled"@
            &&& seat_with_id(after.seats, req.seat_id).status == "available"@
            &&& open_count(after.reservations, user_id) == open_count(lv.reservations, user_id)
        }),
{
    let booked = create_reservation_spec(lv, user_id, req, now, now_text).0;
    let id = (lv.reservation_seq + 1) as i32;
    assert(request_verdict(req, now) is None);
    let last = lv.reservations.len() as int;
    let nr = added_reservation(lv, user_id, req, now_text);
    assert(booked.reservations[last] == nr);
    assert(owns_reservation(booked.reservations, id, user_id));
    let o = owned_index(booked.reservations, id, user_id);
    assert(o == last) by {
        if o < last {
            assert(lv.reservations[o].id <= lv.reservation_seq);
        }
    }
    let k = seat_index(lv.seats, req.seat_id);
    let j = seat_index(booked.seats, req.seat_id);
    assert(booked.seats[k].id == req.seat_id);
    assert(j == k) by {
        if j < k {
            assert(lv.seats[j].id < lv.seats[k].id);
        } else if j > k {
            assert(lv.seats[k].id < lv.seats[j].id);
        }
    }
    let after = cancel_reservation_spec(booked, id, user_id, later).0;
    assert(has_seat(after.seats, req.seat_id)) by {
        assert(after.seats[k].id == req.seat_id);
    }
    let m = seat_index(after.seats, req.seat_id);
    assert(m == k) by {
        if m < k {
            assert(lv.seats[m].id < lv.seats[k].id);
        } else if m > k {
            assert(lv.seats[k].id < lv.seats[m].id);
        }
    }
    let cancelled = crate::reservations::restamped_reservation(nr, "cancelled"@, later);
    assert(after.reservations =~= lv.reservations.push(cancelled));
    lemma_open_count_push(lv.reservations, cancelled, user_id);
    reveal_strlit("cancelled");
    reveal_strlit("pending");
    reveal_strlit("active");
}

/// A cancelled reservation cannot be cancelled again: the second request is
/// refused with the reservation's status, and changes nothing.
pub proof fn law_cancel_is_not_repeatable(
    lv: LibraryView,
    reservation_id: i32,
    user_id: i32,
    now: Seq<char>,
    later: Seq<char>,
)
    requires
        lv.wf(),
        cancel_reservation_spec(lv, reservation_id, user_id, now).1.status == HttpStatus::Success,
    ensures
        ({
            let once = cancel_reservation_spec(lv, reservation_id, user_id, now).0;
            let (twice, answer) = cancel_reservation_spec(once, reservation_id, user_id, later);
            &&& answer.status == HttpStatus::BadRequest
            &&& answer.message == not_cancellable_message("cancelled"@)
            &&& twice == once
        }),
{
    let once = cancel_reservation_spec(lv, reservation_id, user_id, now).0;
    let k = owned_index(lv.reservations, reservation_id, user_id);
    assert(once.reservations[k].id == reservation_id && once.reservations[k].user_id == user_id);
    let o = owned_index(once.reservations, reservation_id, user_id);
    assert(o == k) by {
        if o < k {
            assert(lv.reservations[o].id < lv.reservations[k].id);
        } else if o > k {
            assert(lv.reservations[k].id < lv.reservations[o].id);
        }
    }
    reveal_strlit("cancelled");
    reveal_strlit("pending");
    reveal_strlit("active");
}

/// A refused request leaves the tables as they were.
pub proof fn law_refusals_change_nothing(
    lv: LibraryView,
    new_seat: &CreateSeatRequest,
    change: &UpdateSeatRequest,
    booking: &CreateReservationRequest,
    seat_id: i32,
    reservation_id: i32,
    user_id: i32,
    now: Moment,
    now_text: Seq<char>,
)
    requires
        lv.wf(),
    ensures
        create_seat_spec(lv, new_seat, now_text).1.status != HttpStatus::Success
            ==> create_seat_spec(lv, new_seat, now_text).0 == lv,
        update_seat_spec(lv, seat_id, change, now_text).1.status != HttpStatus::Success
            ==> update_seat_spec(lv, seat_id, change, now_text).0 == lv,
        delete_seat_spec(lv, seat_id).1.status != HttpStatus::Success
            ==> delete_seat_spec(lv, seat_id).0 == lv,
        create_reservation_spec(lv, user_id, booking, now, now_text).1.status != HttpStatus::Success
            ==> create_reservation_spec(lv, user_id, booking, now, now_text).0 == lv,
        cancel_reservation_spec(lv, reservation_id, user_id, now_text).1.status
            != HttpStatus::Success ==> cancel_reservation_spec(lv, reservation_id, user_id, now_text).0
            == lv,
{
}


/// Every demonstration seat below `n` is present, or no seat id is left.
pub open spec fn seeds_settled(lv: LibraryView, n: nat) -> bool {
    forall|i: int| 0 <= i < n ==> seat_number_taken(lv.seats, #[trigger] seed_seat(i).0) || lv.seat_seq
        >= i32::MAX
}

proof fn lemma_seeding_settles(lv: LibraryView, n: nat, now: Seq<char>)
    ensures
        seeds_settled(seed_seats_upto(lv, n, now), n),
        seed_seats_upto(lv, n, now).users == lv.users,
        seed_seats_upto(lv, n, now).user_seq == lv.user_seq,
        seed_seats_upto(lv, n, now).reservations == lv.reservations,
        seed_seats_upto(lv, n, now).seat_seq >= lv.seat_seq,
    decreases n,
{
    if n > 0 {
        let m = (n - 1) as nat;
        lemma_seeding_settles(lv, m, now);
        let before = seed_seats_upto(lv, m, now);
        let after = seed_seats_upto(lv, n, now);
        assert(after == insert_seed_seat(before, m as int, now));
        assert forall|i: int| 0 <= i < n implies seat_number_taken(after.seats, #[trigger] seed_seat(i).0)
            || after.seat_seq >= i32::MAX by {
            if after != before {
                if i < m {
                    if seat_number_taken(before.seats, seed_seat(i).0) {
                        let w = choose|w: int| 0 <= w < before.seats.len()
                            && before.seats[w].seat_number == seed_seat(i).0;
                        assert(after.seats[w] == before.seats[w]);
                    }
                } else {
                    assert(after.seats[before.seats.len() as int].seat_number == seed_seat(i).0);
                }
            }
        }
    }
}

proof fn lemma_settled_seeding_is_still(lv: LibraryView, n: nat, now: Seq<char>)
    requires
        n <= SEED_SEAT_COUNT,
        seeds_settled(lv, SEED_SEAT_COUNT as nat),
    ensures
        seed_seats_upto(lv, n, now) == lv,
    decreases n,
{
    if n > 0 {
        lemma_settled_seeding_is_still(lv, (n - 1) as nat, now);
        assert(seat_number_taken(lv.seats, seed_seat(n - 1).0) || lv.seat_seq >= i32::MAX);
    }
}

/// Seeding twice is seeding once: the second run finds the administrator
/// and every demonstration seat in place and adds nothing.
pub proof fn law_init_database_idempotent(lv: LibraryView, now: Seq<char>, later: Seq<char>)
    ensures
        init_database_spec(init_database_spec(lv, now), later) == init_database_spec(lv, now),
{
    let once = init_database_spec(lv, now);
    let with_admin = insert_admin(lv, now);
    lemma_seeding_settles(with_admin, SEED_SEAT_COUNT as nat, now);
    assert(student_id_taken(with_admin.users, "admin001"@) || with_admin.user_seq >= i32::MAX) by {
        if with_admin != lv {
            assert(with_admin.users[lv.users.len() as int].student_id == "admin001"@);
        }
    }
    assert(insert_admin(once, later) == once);
    lemma_settled_seeding_is_still(once, SEED_SEAT_COUNT as nat, later);
}


/// After a seat is changed, looking it up gives the changed seat.
pub proof fn law_updated_seat_is_found(
    lv: LibraryView,
    seat_id: i32,
    req: &UpdateSeatRequest,
    now: Seq<char>,
)
    requires
        lv.wf(),
        update_seat_spec(lv, seat_id, req, now).1.status == HttpStatus::Success,
    ensures
        has_seat(update_seat_spec(lv, seat_id, req, now).0.seats, seat_id),
        seat_with_id(update_seat_spec(lv, seat_id, req, now).0.seats, seat_id) == updated_seat(
            lv.seats,
            seat_with_id(lv.seats, seat_id),
            req,
            now,
        ),
{
    let after = update_seat_spec(lv, seat_id, req, now).0;
    let k = seat_index(lv.seats, seat_id);
    assert(after.seats[k].id == seat_id);
    let j = seat_index(after.seats, seat_id);
    assert(j == k) by {
        if j < k {
            assert(lv.seats[j].id < lv.seats[k].id);
        } else if j > k {
            assert(lv.seats[k].id < lv.seats[j].id);
        }
    }
}


// ---------- the bookings ----------

/// Two reservations' windows meet (times compared as texts).
pub open spec fn windows_meet(a: ReservationView, b: ReservationView) -> bool {
    text_le(a.start_time, b.end_time) && text_le(b.start_time, a.end_time)
}

/// No two open reservations of one seat have meeting windows.
pub open spec fn no_double_booking(rs: Seq<ReservationView>) -> bool {
    forall|i: int, j: int|
        0 <= i < j < rs.len() && rs[i].seat_id == rs[j].seat_id && is_open_status(rs[i].status)
            && is_open_status(rs[j].status) ==> !windows_meet(rs[i], rs[j])
}

/// No reader holds more than three open reservations.
pub open spec fn within_cap(rs: Seq<ReservationView>) -> bool {
    forall|u: i32| #[trigger] open_count(rs, u) <= 3
}

/// The booking rules hold of the reservation table.
pub open spec fn bookings_sound(lv: LibraryView) -> bool {
    no_double_booking(lv.reservations) && within_cap(lv.reservations)
}

/// Closing one reservation never raises a reader's open count.
pub proof fn lemma_open_count_closed(rs: Seq<ReservationView>, k: int, x: ReservationView, u: i32)
    requires
        0 <= k < rs.len(),
        !is_open_status(x.status),
    ensures
        open_count(rs.update(k, x), u) <= open_count(rs, u),
    decreases rs.len(),
{
    let t = rs.update(k, x);
    if k == rs.len() - 1 {
        assert(t.drop_last() =~= rs.drop_last());
    } else {
        assert(t.drop_last() =~= rs.drop_last().update(k, x));
        lemma_open_count_closed(rs.drop_last(), k, x, u);
    }
}

proof fn lemma_booking_keeps_sound(
    lv: LibraryView,
    user_id: i32,
    req: &CreateReservationRequest,
    now: Moment,
    now_text: Seq<char>,
)
    requires
        lv.wf(),
        bookings_sound(lv),
    ensures
        bookings_sound(create_reservation_spec(lv, user_id, req, now, now_text).0),
{
    let (after, answer) = create_reservation_spec(lv, user_id, req, now, now_text);
    if answer.status == HttpStatus::Success {
        assert(request_verdict(req, now) is None);
        let rs = lv.reservations;
        let n = added_reservation(lv, user_id, req, now_text);
        assert(after.reservations == rs.push(n));
        assert forall|u: i32| #[trigger] open_count(after.reservations, u) <= 3 by {
            lemma_open_count_push(rs, n, u);
            assert(open_count(rs, u) <= 3);
        }
        let t = after.reservations;
        assert forall|i: int, j: int|
            0 <= i < j < t.len() && t[i].seat_id == t[j].seat_id && is_open_status(t[i].status)
                && is_open_status(t[j].status) implies !windows_meet(t[i], t[j]) by {
            if j == rs.len() {
                if windows_meet(t[i], t[j]) {
                    assert(crate::seats::blocks(rs[i], req.seat_id, req.start_time@, req.end_time@));
                }
            } else {
                assert(t[i] == rs[i] && t[j] == rs[j]);
            }
        }
    }
}

proof fn lemma_cancel_keeps_sound(lv: LibraryView, reservation_id: i32, user_id: i32, now: Seq<char>)
    requires
        lv.wf(),
        bookings_sound(lv),
    ensures
        bookings_sound(cancel_reservation_spec(lv, reservation_id, user_id, now).0),
{
    let (after, answer) = cancel_reservation_spec(lv, reservation_id, user_id, now);
    if answer.status == HttpStatus::Success {
        let rs = lv.reservations;
        let k = owned_index(rs, reservation_id, user_id);
        let x = crate::reservations::restamped_reservation(rs[k], "cancelled"@, now);
        reveal_strlit("cancelled");
        reveal_strlit("pending");
        reveal_strlit("active");
        assert(x.status == "cancelled"@);
        assert("cancelled"@.len() != "pending"@.len());
        assert("cancelled"@.len() != "active"@.len());
        assert(!is_open_status(x.status));
        assert(after.reservations == rs.update(k, x));
        assert forall|u: i32| #[trigger] open_count(after.reservations, u) <= 3 by {
            lemma_open_count_closed(rs, k, x, u);
            assert(open_count(rs, u) <= 3);
        }
        let t = after.reservations;
        assert forall|i: int, j: int|
            0 <= i < j < t.len() && t[i].seat_id == t[j].seat_id && is_open_status(t[i].status)
                && is_open_status(t[j].status) implies !windows_meet(t[i], t[j]) by {
            assert(i != k && j != k);
            assert(t[i] == rs[i] && t[j] == rs[j]);
        }
    }
}

/// The booking rules are kept by every request: no reader ever holds more
/// than three open reservations, and no two open reservations of one seat
/// have meeting windows.
pub proof fn law_every_request_keeps_bookings_sound(
    lv: LibraryView,
    new_seat: &CreateSeatRequest,
    change: &UpdateSeatRequest,
    booking: &CreateReservationRequest,
    seat_id: i32,
    reservation_id: i32,
    user_id: i32,
    now: Moment,
    now_text: Seq<char>,
)
    requires
        lv.wf(),
        bookings_sound(lv),
    ensures
        bookings_sound(create_seat_spec(lv, new_seat, now_text).0),
        bookings_sound(update_seat_spec(lv, seat_id, change, now_text).0),
        bookings_sound(delete_seat_spec(lv, seat_id).0),
        bookings_sound(create_reservation_spec(lv, user_id, booking, now, now_text).0),
        bookings_sound(cancel_reservation_spec(lv, reservation_id, user_id, now_text).0),
        bookings_sound(init_database_spec(lv, now_text)),
{
    lemma_booking_keeps_sound(lv, user_id, booking, now, now_text);
    lemma_cancel_keeps_sound(lv, reservation_id, user_id, now_text);
    lemma_seeding_settles(insert_admin(lv, now_text), SEED_SEAT_COUNT as nat, now_text);
    assert(create_seat_spec(lv, new_seat, now_text).0.reservations == lv.reservations);
    assert(update_seat_spec(lv, seat_id, change, now_text).0.reservations == lv.reservations);
    assert(delete_seat_spec(lv, seat_id).0.reservations == lv.reservations);
    assert(init_database_spec(lv, now_text).reservations == lv.reservations);
}


// ---------- the listings ----------

/// Two lists in strict catalogue order with the same members are equal.
pub proof fn lemma_ordered_lists_equal(a: Seq<SeatView>, b: Seq<SeatView>)
    requires
        in_place_order(a),
        in_place_order(b),
        forall|x: SeatView| a.contains(x) <==> b.contains(x),
    ensures
        a == b,
    decreases a.len() + b.len(),
{
    if a.len() == 0 {
        if b.len() > 0 {
            assert(b.contains(b[0]));
        }
        assert(a =~= b);
    } else {
        assert(a.contains(a[0]));
        let m = choose|m: int| 0 <= m < b.len() && b[m] == a[0];
        assert(b.contains(b[0]));
        let k = choose|k: int| 0 <= k < a.len() && a[k] == b[0];
        if k > 0 {
            assert(place_lt(a[0], a[k]));
            if m > 0 {
                assert(place_lt(b[0], b[m]));
                lemma_place_order(a[0], b[0], a[0]);
            } else {
                lemma_place_order(a[0], a[0], a[0]);
            }
        }
        assert(a[0] == b[0]);
        let a1 = a.drop_first();
        let b1 = b.drop_first();
        assert forall|x: SeatView| a1.contains(x) <==> b1.contains(x) by {
            if a1.contains(x) {
                let i = choose|i: int| 0 <= i < a1.len() && a1[i] == x;
                assert(a[i + 1] == x);
                assert(place_lt(a[0], x));
                lemma_place_order(x, x, x);
                assert(b.contains(x));
                let j = choose|j: int| 0 <= j < b.len() && b[j] == x;
                assert(j != 0);
                assert(b1[j - 1] == x);
            }
            if b1.contains(x) {
                let i = choose|i: int| 0 <= i < b1.len() && b1[i] == x;
                assert(b[i + 1] == x);
                assert(place_lt(b[0], x));
                lemma_place_order(x, x, x);
                assert(a.contains(x));
                let j = choose|j: int| 0 <= j < a.len() && a[j] == x;
                assert(j != 0);
                assert(a1[j - 1] == x);
            }
        }
        lemma_ordered_lists_equal(a1, b1);
        assert(a =~= b) by {
            assert forall|i: int| 0 <= i < a.len() implies a[i] == b[i] by {
                if i > 0 {
                    assert(a[i] == a1[i - 1]);
                    assert(b[i] == b1[i - 1]);
                }
            }
        }
    }
}

/// A listing is determined by the table and the filter: two lists that
/// both list them are the same list.
pub proof fn law_listing_is_determined(
    a: Seq<SeatView>,
    b: Seq<SeatView>,
    table: Seq<SeatView>,
    pick: spec_fn(SeatView) -> bool,
)
    requires
        lists_in_place_order(a, table, pick),
        lists_in_place_order(b, table, pick),
    ensures
        a == b,
{
    lemma_ordered_lists_equal(a, b);
}

/// A listing with both filters is the listing with one filter narrowed by
/// the other, in the same order; each filtered listing is the full listing
/// narrowed by its filters.
pub proof fn law_narrower_listing(
    table: Seq<SeatView>,
    area: Seq<char>,
    status: Seq<char>,
    all: Seq<SeatView>,
    by_area: Seq<SeatView>,
    by_status: Seq<SeatView>,
    by_both: Seq<SeatView>,
)
    requires
        lists_in_place_order(all, table, |s: SeatView| seat_fits_query(s, None, None)),
        lists_in_place_order(by_area, table, |s: SeatView| seat_fits_query(s, Some(area), None)),
        lists_in_place_order(by_status, table, |s: SeatView| seat_fits_query(s, None, Some(status))),
        lists_in_place_order(
            by_both,
            table,
            |s: SeatView| seat_fits_query(s, Some(area), Some(status)),
        ),
    ensures
        lists_in_place_order(by_both, by_area, |s: SeatView| s.status == status),
        lists_in_place_order(by_both, by_status, |s: SeatView| s.area == area),
        lists_in_place_order(by_area, all, |s: SeatView| s.area == area),
        lists_in_place_order(by_status, all, |s: SeatView| s.status == status),
        forall|x: SeatView| all.contains(x) <==> table.contains(x),
{
}

/// The free seats of a window are the `available` seats that no open
/// reservation keeps, in the same order; when no reservation is open they
/// are exactly the `available` seats.
pub proof fn law_free_seats_within_available(
    lv: LibraryView,
    start: Seq<char>,
    end: Seq<char>,
    free: Seq<SeatView>,
    available: Seq<SeatView>,
)
    requires
        lists_in_place_order(free, lv.seats, |s: SeatView| seat_is_free(lv, s, start, end)),
        lists_in_place_order(
            available,
            lv.seats,
            |s: SeatView| seat_fits_query(s, None, Some("available"@)),
        ),
    ensures
        lists_in_place_order(
            free,
            available,
            |s: SeatView| !seat_blocked(lv.reservations, s.id, start, end),
        ),
        (forall|k: int| 0 <= k < lv.reservations.len() ==> !is_open_status(
            #[trigger] lv.reservations[k].status,
        )) ==> free == available,
{
    if forall|k: int| 0 <= k < lv.reservations.len() ==> !is_open_status(
        #[trigger] lv.reservations[k].status,
    ) {
        assert forall|x: SeatView| free.contains(x) <==> available.contains(x) by {
            assert(!seat_blocked(lv.reservations, x.id, start, end));
        }
        lemma_ordered_lists_equal(free, available);
    }
}

/// Widening a window never frees more seats: every seat free for the wider
/// window is free for the narrower one.
pub proof fn law_wider_window_frees_no_more(
    lv: LibraryView,
    start: Seq<char>,
    end: Seq<char>,
    wide_start: Seq<char>,
    wide_end: Seq<char>,
    narrow: Seq<SeatView>,
    wide: Seq<SeatView>,
)
    requires
        text_le(wide_start, start),
        text_le(end, wide_end),
        lists_in_place_order(narrow, lv.seats, |s: SeatView| seat_is_free(lv, s, start, end)),
        lists_in_place_order(wide, lv.seats, |s: SeatView| seat_is_free(lv, s, wide_start, wide_end)),
    ensures
        forall|x: SeatView| wide.contains(x) ==> narrow.contains(x),
{
    assert forall|x: SeatView| wide.contains(x) implies narrow.contains(x) by {
        if seat_blocked(lv.reservations, x.id, start, end) {
            let k = choose|k: int| 0 <= k < lv.reservations.len() && crate::seats::blocks(
                lv.reservations[k],
                x.id,
                start,
                end,
            );
            let r = lv.reservations[k];
            lemma_text_le_transitive(r.start_time, end, wide_end);
            lemma_text_le_transitive(wide_start, start, r.end_time);
            assert(crate::seats::blocks(r, x.id, wide_start, wide_end));
        }
    }
}

// ---------- changing and removing seats ----------

/// Repeating a seat change at the same time gives the same tables.
pub proof fn law_update_is_idempotent(
    lv: LibraryView,
    seat_id: i32,
    req: &UpdateSeatRequest,
    now: Seq<char>,
)
    requires
        lv.wf(),
    ensures
        update_seat_spec(update_seat_spec(lv, seat_id, req, now).0, seat_id, req, now)
            == update_seat_spec(lv, seat_id, req, now),
{
    let once = update_seat_spec(lv, seat_id, req, now).0;
    if has_seat(lv.seats, seat_id) {
        let k = seat_index(lv.seats, seat_id);
        assert(once.seats[k].id == seat_id);
        let j = seat_index(once.seats, seat_id);
        assert(j == k) by {
            if j < k {
                assert(lv.seats[j].id < lv.seats[k].id);
            } else if j > k {
                assert(lv.seats[k].id < lv.seats[j].id);
            }
        }
        match req.seat_number {
            Some(n) => {
                assert(number_taken_by_other(once.seats, seat_id, n@) == number_taken_by_other(
                    lv.seats,
                    seat_id,
                    n@,
                )) by {
                    if number_taken_by_other(once.seats, seat_id, n@) {
                        let i = choose|i: int| 0 <= i < once.seats.len() && once.seats[i].id != seat_id
                            && once.seats[i].seat_number == n@;
                        assert(i != k);
                        assert(lv.seats[i] == once.seats[i]);
                    }
                    if number_taken_by_other(lv.seats, seat_id, n@) {
                        let i = choose|i: int| 0 <= i < lv.seats.len() && lv.seats[i].id != seat_id
                            && lv.seats[i].seat_number == n@;
                        assert(i != k);
                        assert(lv.seats[i] == once.seats[i]);
                    }
                }
            },
            None => {},
        }
        assert(once.seats.update(k, updated_seat(once.seats, once.seats[k], req, now)) =~= once.seats);
    }
}

/// Adding a seat and then removing it gives back the seat table, when no
/// open reservation names the new id.
pub proof fn law_add_then_remove_restores_seats(lv: LibraryView, req: &CreateSeatRequest, now: Seq<char>)
    requires
        lv.wf(),
        create_seat_spec(lv, req, now).1.status == HttpStatus::Success,
        !seat_in_use(lv.reservations, (lv.seat_seq + 1) as i32),
    ensures
        ({
            let added = create_seat_spec(lv, req, now).0;
            let (removed, answer) = delete_seat_spec(added, (lv.seat_seq + 1) as i32);
            &&& answer.status == HttpStatus::Success
            &&& removed.seats == lv.seats
        }),
{
    law_created_seat_is_found(lv, req, now);
    let added = create_seat_spec(lv, req, now).0;
    let id = (lv.seat_seq + 1) as i32;
    let k = seat_index(added.seats, id);
    assert(k == lv.seats.len()) by {
        if k < lv.seats.len() {
            assert(lv.seats[k].id <= lv.seat_seq);
        }
    }
    assert(added.seats.remove(k) =~= lv.seats);
}


// ---------- what each seat request does, field by field ----------

/// Adding a seat succeeds exactly when no seat carries the number and an
/// id is left; the new seat, appended after the others, carries the next
/// id, the request's number, area and coordinates, status `available`, and
/// `now` as both stamps. A taken number is answered 400.
pub proof fn law_create_seat_stores_the_request(lv: LibraryView, req: &CreateSeatRequest, now: Seq<char>)
    requires
        lv.wf(),
    ensures
        ({
            let (after, answer) = create_seat_spec(lv, req, now);
            let taken = exists|i: int| 0 <= i < lv.seats.len() && lv.seats[i].seat_number == req.seat_number@;
            &&& (answer.status == HttpStatus::Success) <==> (!taken && lv.seat_seq < i32::MAX)
            &&& taken ==> answer.status == HttpStatus::BadRequest && after == lv
            &&& answer.status == HttpStatus::Success ==> {
                let n = lv.seats.len() as int;
                let x = after.seats[n];
                &&& after.seats.len() == n + 1
                &&& forall|i: int| 0 <= i < n ==> after.seats[i] == lv.seats[i]
                &&& x.id == lv.seat_seq + 1
                &&& x.seat_number == req.seat_number@
                &&& x.area == req.area@
                &&& x.x_coord == req.x_coord
                &&& x.y_coord == req.y_coord
                &&& x.status == "available"@
                &&& x.created_at == now
                &&& x.updated_at == now
                &&& after.seat_seq == lv.seat_seq + 1
                &&& after.reservations == lv.reservations
                &&& after.users == lv.users
            }
        }),
{
}

/// Removing a seat is refused (400) exactly when an open (`pending` or
/// `active`) reservation names the seat; otherwise an existing seat is
/// removed, every other seat kept in order, and a missing one is answered
/// 404.
pub proof fn law_delete_seat_refuses_only_seats_in_use(lv: LibraryView, seat_id: i32)
    requires
        lv.wf(),
    ensures
        ({
            let (after, answer) = delete_seat_spec(lv, seat_id);
            let in_use = exists|k: int|
                0 <= k < lv.reservations.len() && lv.reservations[k].seat_id == seat_id && (
                lv.reservations[k].status == "pending"@ || lv.reservations[k].status == "active"@);
            let present = exists|i: int| 0 <= i < lv.seats.len() && lv.seats[i].id == seat_id;
            &&& (answer.status == HttpStatus::BadRequest) <==> in_use
            &&& (answer.status == HttpStatus::Success) <==> (!in_use && present)
            &&& (answer.status == HttpStatus::NotFound) <==> (!in_use && !present)
            &&& answer.status != HttpStatus::Success ==> after == lv
            &&& answer.status == HttpStatus::Success ==> {
                &&& after.seats.len() == lv.seats.len() - 1
                &&& !(exists|i: int| 0 <= i < after.seats.len() && after.seats[i].id == seat_id)
                &&& forall|i: int|
                    0 <= i < lv.seats.len() && lv.seats[i].id != seat_id ==> after.seats.contains(
                        #[trigger] lv.seats[i],
                    )
                &&& after.reservations == lv.reservations
            }
        }),
{
    let (after, answer) = delete_seat_spec(lv, seat_id);
    if answer.status == HttpStatus::Success {
        law_deleted_seat_is_gone(lv, seat_id);
        let k = seat_index(lv.seats, seat_id);
        lv.seats.remove_ensures(k);
        assert forall|i: int|
            0 <= i < lv.seats.len() && lv.seats[i].id != seat_id implies after.seats.contains(
                #[trigger] lv.seats[i],
            ) by {
            if i < k {
                assert(after.seats[i] == lv.seats[i]);
            } else {
                assert(i != k);
                assert(after.seats[i - 1] == lv.seats[i]);
            }
        }
    }
}

/// Changing a seat succeeds exactly when the seat exists. The seat then
/// keeps its id and creation stamp; each coordinate and the area become the
/// request's where present and stay otherwise; the status becomes the
/// request's where present and one of the four, and stays otherwise; the
/// number becomes the request's where present and carried by no other seat,
/// and stays otherwise. Every other seat is left alone.
pub proof fn law_update_writes_present_fields(
    lv: LibraryView,
    seat_id: i32,
    req: &UpdateSeatRequest,
    now: Seq<char>,
)
    requires
        lv.wf(),
    ensures
        ({
            let (after, answer) = update_seat_spec(lv, seat_id, req, now);
            let present = exists|i: int| 0 <= i < lv.seats.len() && lv.seats[i].id == seat_id;
            &&& (answer.status == HttpStatus::Success) <==> present
            &&& !present ==> answer.status == HttpStatus::NotFound && after == lv
            &&& present ==> {
                let k = seat_index(lv.seats, seat_id);
                let old = lv.seats[k];
                let new = after.seats[k];
                &&& lv.seats[k].id == seat_id
                &&& after.seats.len() == lv.seats.len()
                &&& forall|i: int| 0 <= i < lv.seats.len() && i != k ==> after.seats[i] == lv.seats[i]
                &&& new.id == seat_id
                &&& new.created_at == old.created_at
                &&& new.x_coord == (match req.x_coord {
                    Some(x) => Some(x),
                    None => old.x_coord,
                })
                &&& new.y_coord == (match req.y_coord {
                    Some(y) => Some(y),
                    None => old.y_coord,
                })
                &&& new.area == (match req.area {
                    Some(a) => a@,
                    None => old.area,
                })
                &&& new.status == (match req.status {
                    Some(t) => if t@ == "available"@ || t@ == "occupied"@ || t@ == "reserved"@ || t@
                        == "disabled"@ {
                        t@
                    } else {
                        old.status
                    },
                    None => old.status,
                })
                &&& new.seat_number == (match req.seat_number {
                    Some(n) => if exists|i: int|
                        0 <= i < lv.seats.len() && lv.seats[i].id != seat_id && lv.seats[i].seat_number
                            == n@ {
                        old.seat_number
                    } else {
                        n@
                    },
                    None => old.seat_number,
                })
                &&& (req.area is Some || req.x_coord is Some || req.y_coord is Some) ==> new.updated_at
                    == now
                &&& after.reservations == lv.reservations
            }
        }),
{
}


// ---------- what each booking request does ----------

/// Both times parsed, the start not before `now`, the end after the start,
/// and at most four whole hours between them (`hours` is `Some` whenever
/// both parse, as `whole_hours_between` states).
pub open spec fn window_acceptable(
    start: Option<(i64, u32)>,
    end: Option<(i64, u32)>,
    hours: Option<i64>,
    now: Moment,
) -> bool {
    match (start, end) {
        (Some((ss, sn)), Some((es, en))) => {
            &&& !(ss < now.secs || (ss == now.secs && sn < now.nanos))
            &&& (ss < es || (ss == es && sn < en))
            &&& hours->0 <= 4
        },
        _ => false,
    }
}

/// A booking received at `now` succeeds exactly when: both times parse;
/// the start is not before now; the end is after the start; at most four
/// whole hours lie between; the seat exists and is `available`; no
/// `pending` or `active` reservation of that seat has a window meeting the
/// requested one; the reader holds fewer than three open reservations; and
/// an id is left. Then one `pending` reservation with the request's seat,
/// reader and window is appended, and the seat, and only it, becomes
/// `reserved`. A seat that exists but is not `available`, for a window that
/// passed the time checks, is answered 400 and nothing changes.
pub proof fn law_booking_takes_only_a_free_available_seat(
    lv: LibraryView,
    user_id: i32,
    req: &CreateReservationRequest,
    now: Moment,
    now_text: Seq<char>,
)
    requires
        lv.wf(),
    ensures
        ({
            let (after, answer) = create_reservation_spec(lv, user_id, req, now, now_text);
            let st = rfc3339_moment(req.start_time@);
            let en = rfc3339_moment(req.end_time@);
            let hours = rfc3339_whole_hours(req.start_time@, req.end_time@);
            let times_ok = window_acceptable(st, en, hours, now);
            let present = exists|i: int| 0 <= i < lv.seats.len() && lv.seats[i].id == req.seat_id;
            let seat = seat_with_id(lv.seats, req.seat_id);
            let clash = exists|k: int|
                0 <= k < lv.reservations.len() && lv.reservations[k].seat_id == req.seat_id && (
                lv.reservations[k].status == "pending"@ || lv.reservations[k].status == "active"@)
                    && text_le(lv.reservations[k].start_time, req.end_time@) && text_le(
                    req.start_time@,
                    lv.reservations[k].end_time,
                );
            &&& (answer.status == HttpStatus::Success) <==> (times_ok && present && seat.status
                == "available"@ && !clash && open_count(lv.reservations, user_id) < 3
                && lv.reservation_seq < i32::MAX)
            &&& (times_ok && present && seat.status != "available"@) ==> (answer.status
                == HttpStatus::BadRequest && answer.message == "该座位当前不可用"@ && after == lv)
            &&& answer.status == HttpStatus::Success ==> {
                let n = lv.reservations.len() as int;
                let r = after.reservations[n];
                let k = seat_index(lv.seats, req.seat_id);
                &&& after.reservations.len() == n + 1
                &&& forall|i: int| 0 <= i < n ==> after.reservations[i] == lv.reservations[i]
                &&& r.id == lv.reservation_seq + 1
                &&& r.user_id == user_id
                &&& r.seat_id == req.seat_id
                &&& r.start_time == req.start_time@
                &&& r.end_time == req.end_time@
                &&& r.status == "pending"@
                &&& r.created_at == now_text
                &&& r.updated_at == now_text
                &&& lv.seats[k].id == req.seat_id
                &&& after.seats.len() == lv.seats.len()
                &&& forall|i: int| 0 <= i < lv.seats.len() && i != k ==> after.seats[i] == lv.seats[i]
                &&& after.seats[k].status == "reserved"@
                &&& after.seats[k].updated_at == now_text
                &&& after.seats[k].id == lv.seats[k].id
                &&& after.seats[k].seat_number == lv.seats[k].seat_number
                &&& after.seats[k].area == lv.seats[k].area
                &&& after.seats[k].x_coord == lv.seats[k].x_coord
                &&& after.seats[k].y_coord == lv.seats[k].y_coord
                &&& after.seats[k].created_at == lv.seats[k].created_at
            }
        }),
{
    let clash = exists|k: int|
        0 <= k < lv.reservations.len() && lv.reservations[k].seat_id == req.seat_id && (
        lv.reservations[k].status == "pending"@ || lv.reservations[k].status == "active"@)
            && text_le(lv.reservations[k].start_time, req.end_time@) && text_le(
            req.start_time@,
            lv.reservations[k].end_time,
        );
    assert(clash == seat_blocked(lv.reservations, req.seat_id, req.start_time@, req.end_time@)) by {
        if seat_blocked(lv.reservations, req.seat_id, req.start_time@, req.end_time@) {
            let k = choose|k: int| 0 <= k < lv.reservations.len() && crate::seats::blocks(
                lv.reservations[k],
                req.seat_id,
                req.start_time@,
                req.end_time@,
            );
            assert(lv.reservations[k].seat_id == req.seat_id);
        }
    }
}

/// Cancelling succeeds exactly when the reader holds a reservation with the
/// id that is `pending` or `active`. Then that reservation, and only it,
/// becomes `cancelled` (stamped `now`, all else kept) and its seat, if it
/// still exists, becomes `available`. A reservation of the reader in any
/// other status is answered 400 with its status in the message, and one the
/// reader does not hold 404; neither changes anything.
pub proof fn law_cancel_frees_only_open_bookings(
    lv: LibraryView,
    reservation_id: i32,
    user_id: i32,
    now: Seq<char>,
)
    requires
        lv.wf(),
    ensures
        ({
            let (after, answer) = cancel_reservation_spec(lv, reservation_id, user_id, now);
            let rs = lv.reservations;
            let held = exists|k: int|
                0 <= k < rs.len() && rs[k].id == reservation_id && rs[k].user_id == user_id;
            let k = owned_index(rs, reservation_id, user_id);
            let open = rs[k].status == "pending"@ || rs[k].status == "active"@;
            &&& (answer.status == HttpStatus::Success) <==> (exists|j: int|
                0 <= j < rs.len() && rs[j].id == reservation_id && rs[j].user_id == user_id && (
                rs[j].status == "pending"@ || rs[j].status == "active"@))
            &&& !held ==> answer.status == HttpStatus::NotFound && after == lv
            &&& (held && !open) ==> {
                &&& answer.status == HttpStatus::BadRequest
                &&& answer.message == "当前状态("@ + rs[k].status + ")无法取消预约"@
                &&& after == lv
            }
            &&& answer.status == HttpStatus::Success ==> {
                let r = after.reservations[k];
                &&& 0 <= k < rs.len()
                &&& rs[k].id == reservation_id && rs[k].user_id == user_id
                &&& after.reservations.len() == rs.len()
                &&& forall|i: int| 0 <= i < rs.len() && i != k ==> after.reservations[i] == rs[i]
                &&& r.status == "cancelled"@
                &&& r.updated_at == now
                &&& r.id == rs[k].id && r.user_id == rs[k].user_id && r.seat_id == rs[k].seat_id
                &&& r.start_time == rs[k].start_time && r.end_time == rs[k].end_time
                &&& r.created_at == rs[k].created_at
                &&& has_seat(lv.seats, rs[k].seat_id) ==> seat_with_id(after.seats, rs[k].seat_id).status
                    == "available"@
                &&& forall|i: int|
                    0 <= i < lv.seats.len() && lv.seats[i].id != rs[k].seat_id ==> after.seats[i]
                        == lv.seats[i]
            }
        }),
{
    let rs = lv.reservations;
    let (after, answer) = cancel_reservation_spec(lv, reservation_id, user_id, now);
    let k = owned_index(rs, reservation_id, user_id);
    if exists|j: int|
        0 <= j < rs.len() && rs[j].id == reservation_id && rs[j].user_id == user_id && (rs[j].status
            == "pending"@ || rs[j].status == "active"@) {
        let j = choose|j: int|
            0 <= j < rs.len() && rs[j].id == reservation_id && rs[j].user_id == user_id && (
            rs[j].status == "pending"@ || rs[j].status == "active"@);
        assert(k == j) by {
            if k < j {
                assert(rs[k].id < rs[j].id);
            } else if k > j {
                assert(rs[j].id < rs[k].id);
            }
        }
    }
    if answer.status == HttpStatus::Success {
        let seat_id = rs[k].seat_id;
        if has_seat(lv.seats, seat_id) {
            let m = seat_index(lv.seats, seat_id);
            assert(after.seats[m].id == seat_id);
            let m2 = seat_index(after.seats, seat_id);
            assert(m2 == m) by {
                if m2 < m {
                    assert(lv.seats[m2].id < lv.seats[m].id);
                } else if m2 > m {
                    assert(lv.seats[m].id < lv.seats[m2].id);
                }
            }
        }
    }
}


// ---------- what the listings hold ----------

/// Catalogue order spelled out: by area, then by seat number, both as text.
pub open spec fn sorted_by_area_then_number(v: Seq<SeatView>) -> bool {
    forall|i: int, j: int|
        0 <= i < j < v.len() ==> crate::text::text_lt(v[i].area, v[j].area) || (v[i].area == v[j].area
            && crate::text::text_lt(v[i].seat_number, v[j].seat_number))
}

/// A seat list (what `get_seats` returns) holds exactly the seats whose
/// area and status equal the given filters, where given, sorted by area
/// and then seat number.
pub proof fn law_seat_list_holds_the_filtered_seats(
    lv: LibraryView,
    area: Option<Seq<char>>,
    status: Option<Seq<char>>,
    v: Seq<SeatView>,
)
    requires
        lists_in_place_order(v, lv.seats, |s: SeatView| seat_fits_query(s, area, status)),
    ensures
        sorted_by_area_then_number(v),
        forall|x: SeatView|
            v.contains(x) <==> (lv.seats.contains(x) && (area matches Some(a) ==> x.area == a) && (
            status matches Some(t) ==> x.status == t)),
{
    lemma_ordered_is_sorted(v);
    assert forall|x: SeatView|
        v.contains(x) <==> (lv.seats.contains(x) && (area matches Some(a) ==> x.area == a) && (
        status matches Some(t) ==> x.status == t)) by {
        assert(v.contains(x) <==> (lv.seats.contains(x) && seat_fits_query(x, area, status)));
    }
}

proof fn lemma_ordered_is_sorted(v: Seq<SeatView>)
    requires
        in_place_order(v),
    ensures
        sorted_by_area_then_number(v),
{
    assert forall|i: int, j: int| 0 <= i < j < v.len() implies crate::text::text_lt(v[i].area, v[j].area)
        || (v[i].area == v[j].area && crate::text::text_lt(v[i].seat_number, v[j].seat_number)) by {
        assert(place_lt(v[i], v[j]));
    }
}

/// A free-seat list (what `get_available_seats` returns at `now`) holds
/// exactly the `available` seats for which no `pending` or `active`
/// reservation of the same seat has a window meeting the asked one (a
/// missing end of the asked window being `now`), sorted by area and then
/// seat number.
pub proof fn law_free_list_holds_the_free_seats(
    lv: LibraryView,
    query: &crate::models::AvailableSeatsQuery,
    now: Seq<char>,
    v: Seq<SeatView>,
)
    requires
        crate::seats::lists_free_seats(v, lv, query, now),
    ensures
        sorted_by_area_then_number(v),
        ({
            let start = match query.start_time {
                Some(t) => t@,
                None => now,
            };
            let end = match query.end_time {
                Some(t) => t@,
                None => now,
            };
            forall|x: SeatView|
                v.contains(x) <==> (lv.seats.contains(x) && x.status == "available"@ && !(exists|k: int|
                    0 <= k < lv.reservations.len() && #[trigger] lv.reservations[k].seat_id == x.id && (
                    lv.reservations[k].status == "pending"@ || lv.reservations[k].status == "active"@)
                        && text_le(lv.reservations[k].start_time, end) && text_le(
                        start,
                        lv.reservations[k].end_time,
                    )))
        }),
{
    let start = match query.start_time {
        Some(t) => t@,
        None => now,
    };
    let end = match query.end_time {
        Some(t) => t@,
        None => now,
    };
    lemma_ordered_is_sorted(v);
    assert forall|x: SeatView| seat_blocked(lv.reservations, x.id, start, end) <==> (exists|k: int|
        0 <= k < lv.reservations.len() && #[trigger] lv.reservations[k].seat_id == x.id && (
        lv.reservations[k].status == "pending"@ || lv.reservations[k].status == "active"@) && text_le(
            lv.reservations[k].start_time,
            end,
        ) && text_le(start, lv.reservations[k].end_time)) by {
        if seat_blocked(lv.reservations, x.id, start, end) {
            let k = choose|k: int| 0 <= k < lv.reservations.len() && crate::seats::blocks(
                lv.reservations[k],
                x.id,
                start,
                end,
            );
            assert(lv.reservations[k].seat_id == x.id);
        }
        if exists|k: int|
            0 <= k < lv.reservations.len() && #[trigger] lv.reservations[k].seat_id == x.id && (
            lv.reservations[k].status == "pending"@ || lv.reservations[k].status == "active"@)
                && text_le(lv.reservations[k].start_time, end) && text_le(
                start,
                lv.reservations[k].end_time,
            ) {
            let k = choose|k: int|
                0 <= k < lv.reservations.len() && #[trigger] lv.reservations[k].seat_id == x.id && (
                lv.reservations[k].status == "pending"@ || lv.reservations[k].status == "active"@)
                    && text_le(lv.reservations[k].start_time, end) && text_le(
                    start,
                    lv.reservations[k].end_time,
                );
            assert(crate::seats::blocks(lv.reservations[k], x.id, start, end));
        }
    }
}

/// After seeding, the administrator `admin001` exists unless no reader id
/// was left, and each demonstration seat A001, A002, A003 (area A区),
/// B001, B002, B003 (area B区), C001, C002, C003 (area C区) exists unless no
/// seat id was left; nothing that was there is lost.
pub proof fn law_seeding_provides_the_starting_rows(lv: LibraryView, now: Seq<char>)
    ensures
        ({
            let after = init_database_spec(lv, now);
            &&& lv.user_seq < i32::MAX ==> exists|i: int|
                0 <= i < after.users.len() && after.users[i].student_id == "admin001"@
            &&& forall|number: Seq<char>|
                (number == "A001"@ || number == "A002"@ || number == "A003"@ || number == "B001"@
                    || number == "B002"@ || number == "B003"@ || number == "C001"@ || number
                    == "C002"@ || number == "C003"@) && after.seat_seq < i32::MAX ==> seat_number_taken(
                    after.seats,
                    number,
                )
            &&& forall|x: SeatView| lv.seats.contains(x) ==> #[trigger] after.seats.contains(x)
            &&& after.reservations == lv.reservations
        }),
{
    let with_admin = insert_admin(lv, now);
    lemma_seeding_settles(with_admin, SEED_SEAT_COUNT as nat, now);
    lemma_seeding_keeps_seats(with_admin, SEED_SEAT_COUNT as nat, now);
    let after = init_database_spec(lv, now);
    if lv.user_seq < i32::MAX {
        if student_id_taken(lv.users, "admin001"@) {
            let i = choose|i: int| 0 <= i < lv.users.len() && lv.users[i].student_id == "admin001"@;
            assert(after.users[i] == lv.users[i]);
        } else {
            assert(after.users[lv.users.len() as int].student_id == "admin001"@);
        }
    }
    assert(seeds_settled(after, SEED_SEAT_COUNT as nat));
    assert(seed_seat(0).0 == "A001"@);
    assert(seed_seat(1).0 == "A002"@);
    assert(seed_seat(2).0 == "A003"@);
    assert(seed_seat(3).0 == "B001"@);
    assert(seed_seat(4).0 == "B002"@);
    assert(seed_seat(5).0 == "B003"@);
    assert(seed_seat(6).0 == "C001"@);
    assert(seed_seat(7).0 == "C002"@);
    assert(seed_seat(8).0 == "C003"@);
}

proof fn lemma_seeding_keeps_seats(lv: LibraryView, n: nat, now: Seq<char>)
    ensures
        forall|x: SeatView| lv.seats.contains(x) ==> #[trigger] seed_seats_upto(lv, n, now).seats.contains(x),
        seed_seats_upto(lv, n, now).seat_seq >= lv.seat_seq,
    decreases n,
{
    if n > 0 {
        let m = (n - 1) as nat;
        lemma_seeding_keeps_seats(lv, m, now);
        let before = seed_seats_upto(lv, m, now);
        let after = seed_seats_upto(lv, n, now);
        assert forall|x: SeatView| lv.seats.contains(x) implies after.seats.contains(x) by {
            assert(before.seats.contains(x));
            let w = choose|w: int| 0 <= w < before.seats.len() && before.seats[w] == x;
            assert(after.seats[w] == before.seats[w]);
        }
    }
}

} // verus!
