//! Booking a seat for a time window and cancelling a booking.
use vstd::prelude::*;
use crate::clock::{
    is_before, moment_before, parse_rfc3339, parsed_moment, rfc3339_moment, rfc3339_whole_hours,
    clock_reading, utc_now, whole_hours_between, Clock, Moment,
};
use crate::models::{CreateReservationRequest, Seat, SeatView};
use crate::reply::{reply_err, reply_ok, Answer, HttpStatus, Reply};
use crate::seats::{
    has_seat, is_blocked, is_open, is_open_status, seat_blocked, seat_index, seat_position,
    seat_with_id,
};
use crate::store::{reservation_rows, LibraryView, ReservationRow, ReservationView, SeatLibrary};
use crate::text::{parse_i32, parse_i32_text, text_equal};

verus! {

// ---------- who is asking ----------

/// The reader a request speaks for: the `user_id` parameter when it reads
/// as an `i32`, else reader 1.
pub open spec fn requested_user(raw: Option<Seq<char>>) -> i32 {
    match raw {
        Some(t) => match parse_i32_text(t) {
            Some(v) => v,
            None => 1,
        },
        None => 1,
    }
}

/// The characters of an optional text.
pub open spec fn opt_str(raw: Option<&str>) -> Option<Seq<char>> {
    match raw {
        Some(t) => Some(t@),
        None => None,
    }
}

/// Reads the `user_id` query parameter, defaulting to reader 1.
pub fn user_id_from_query(raw: Option<&str>) -> (id: i32)
    ensures
        id == requested_user(opt_str(raw)),
{
    match raw {
        Some(t) => match parse_i32(t) {
            Some(v) => v,
            None => 1,
        },
        None => 1,
    }
}

// ---------- the time window ----------

/// Why a booking window is refused.
#[derive(Clone, Copy, Debug, PartialEq, Eq, Structural)]
pub enum TimeRejection {
    /// The start is not an RFC 3339 time.
    BadStart,
    /// The end is not an RFC 3339 time.
    BadEnd,
    /// The start lies before now.
    StartPassed,
    /// The end is not after the start.
    EndNotAfterStart,
    /// More than four whole hours lie between start and end.
    TooLong,
}

/// The message that goes with a refusal.
pub open spec fn rejection_message(r: TimeRejection) -> Seq<char> {
    match r {
        TimeRejection::BadStart => "开始时间格式错误"@,
        TimeRejection::BadEnd => "结束时间格式错误"@,
        TimeRejection::StartPassed => "开始时间不能早于当前时间"@,
        TimeRejection::EndNotAfterStart => "结束时间必须晚于开始时间"@,
        TimeRejection::TooLong => "单次预约最长不能超过4小时"@,
    }
}

fn rejection_text(r: TimeRejection) -> (t: &'static str)
    ensures
        t@ == rejection_message(r),
{
    match r {
        TimeRejection::BadStart => "开始时间格式错误",
        TimeRejection::BadEnd => "结束时间格式错误",
        TimeRejection::StartPassed => "开始时间不能早于当前时间",
        TimeRejection::EndNotAfterStart => "结束时间必须晚于开始时间",
        TimeRejection::TooLong => "单次预约最长不能超过4小时",
    }
}

/// The verdict on a parsed window: the start may not lie before `now`, the
/// end must come after the start, and at most four whole hours may lie
/// between them.
pub open spec fn window_verdict(
    start: Moment,
    end: Moment,
    whole_hours: i64,
    now: Moment,
) -> Option<TimeRejection> {
    if moment_before(start, now) {
        Some(TimeRejection::StartPassed)
    } else if !moment_before(start, end) {
        Some(TimeRejection::EndNotAfterStart)
    } else if whole_hours > 4 {
        Some(TimeRejection::TooLong)
    } else {
        None
    }
}

/// Judges a parsed window; `whole_hours` is the number of whole hours from
/// start to end.
pub fn check_window(start: &Moment, end: &Moment, whole_hours: i64, now: &Moment) -> (r: Option<
    TimeRejection,
>)
    ensures
        r == window_verdict(*start, *end, whole_hours, *now),
{
    if is_before(start, now) {
        Some(TimeRejection::StartPassed)
    } else if !is_before(start, end) {
        Some(TimeRejection::EndNotAfterStart)
    } else if whole_hours > 4 {
        Some(TimeRejection::TooLong)
    } else {
        None
    }
}

/// The verdict on the window of a request received at `now`.
pub open spec fn request_verdict(req: &CreateReservationRequest, now: Moment) -> Option<TimeRejection> {
    match parsed_moment(rfc3339_moment(req.start_time@)) {
        None => Some(TimeRejection::BadStart),
        Some(s) => match parsed_moment(rfc3339_moment(req.end_time@)) {
            None => Some(TimeRejection::BadEnd),
            Some(e) => window_verdict(
                s,
                e,
                rfc3339_whole_hours(req.start_time@, req.end_time@)->0,
                now,
            ),
        },
    }
}

// ---------- taking the seat ----------

/// The open reservations of a reader.
pub open spec fn open_count(rs: Seq<ReservationView>, user_id: i32) -> nat
    decreases rs.len(),
{
    if rs.len() == 0 {
        0
    } else {
        open_count(rs.drop_last(), user_id) + if rs.last().user_id == user_id && is_open_status(
            rs.last().status,
        ) {
            1nat
        } else {
            0nat
        }
    }
}

/// A reader may hold at most this many open reservations.
pub const MAX_OPEN_RESERVATIONS: usize = 3;

/// The reservation that an accepted booking adds: the next id, `pending`,
/// created and updated at `now`.
pub open spec fn added_reservation(
    lv: LibraryView,
    user_id: i32,
    req: &CreateReservationRequest,
    now: Seq<char>,
) -> ReservationView {
    ReservationView {
        id: (lv.reservation_seq + 1) as i32,
        user_id,
        seat_id: req.seat_id,
        start_time: req.start_time@,
        end_time: req.end_time@,
        status: "pending"@,
        created_at: now,
        updated_at: now,
    }
}

/// A seat with a new status, updated at `now`.
pub open spec fn restamped(s: SeatView, status: Seq<char>, now: Seq<char>) -> SeatView {
    SeatView { status, updated_at: now, ..s }
}

/// Taking a seat whose window passed the time checks: the seat must exist
/// and be `available`, no open reservation may keep it in that window, and
/// the reader must hold fewer than three open reservations. Then a
/// `pending` reservation is added and the seat becomes `reserved`.
pub open spec fn book_seat_spec(
    lv: LibraryView,
    user_id: i32,
    req: &CreateReservationRequest,
    now: Seq<char>,
) -> (LibraryView, Answer) {
    if !has_seat(lv.seats, req.seat_id) {
        (lv, Answer { status: HttpStatus::NotFound, message: "座位不存在"@ })
    } else if seat_with_id(lv.seats, req.seat_id).status != "available"@ {
        (lv, Answer { status: HttpStatus::BadRequest, message: "该座位当前不可用"@ })
    } else if seat_blocked(lv.reservations, req.seat_id, req.start_time@, req.end_time@) {
        (lv, Answer { status: HttpStatus::Conflict, message: "该时间段座位已被预约"@ })
    } else if open_count(lv.reservations, user_id) >= MAX_OPEN_RESERVATIONS {
        (
            lv,
            Answer {
                status: HttpStatus::BadRequest,
                message: "您已有3个进行中的预约，请先取消或完成后再预约"@,
            },
        )
    } else if lv.reservation_seq >= i32::MAX {
        (lv, Answer { status: HttpStatus::ServerError, message: "预约失败，请稍后重试"@ })
    } else {
        let k = seat_index(lv.seats, req.seat_id);
        (
            LibraryView {
                reservations: lv.reservations.push(added_reservation(lv, user_id, req, now)),
                reservation_seq: lv.reservation_seq + 1,
                seats: lv.seats.update(k, restamped(lv.seats[k], "reserved"@, now)),
                ..lv
            },
            Answer { status: HttpStatus::Success, message: "预约成功，请在规定时间内签到"@ },
        )
    }
}

/// A whole booking request received at `now` (moment and RFC 3339 text):
/// the window checks, then taking the seat.
pub open spec fn create_reservation_spec(
    lv: LibraryView,
    user_id: i32,
    req: &CreateReservationRequest,
    now: Moment,
    now_text: Seq<char>,
) -> (LibraryView, Answer) {
    match request_verdict(req, now) {
        Some(r) => (lv, Answer { status: HttpStatus::BadRequest, message: rejection_message(r) }),
        None => book_seat_spec(lv, user_id, req, now_text),
    }
}

/// Counts the open reservations of a reader.
fn count_open(library: &SeatLibrary, user_id: i32) -> (c: usize)
    ensures
        c == open_count(library@.reservations, user_id),
{
    let rows = library.reservations();
    let ghost rv = library@.reservations;
    let n = rows.len();
    let mut i: usize = 0;
    let mut c: usize = 0;
    while i < n
        invariant
            n == rows@.len(),
            rv == reservation_rows(rows@),
            rv == library@.reservations,
            i <= n,
            c == open_count(rv.take(i as int), user_id),
            c <= i,
        decreases n - i,
    {
        assert(rv.take(i + 1).drop_last() =~= rv.take(i as int));
        if rows[i].user_id == user_id && is_open(rows[i].status.as_str()) {
            c = c + 1;
        }
        i = i + 1;
    }
    assert(rv.take(n as int) =~= rv);
    c
}

/// Takes the seat for a window that passed the time checks, as reader
/// `user_id`, stamped with `now`.
pub fn book_seat(
    library: &mut SeatLibrary,
    user_id: i32,
    req: &CreateReservationRequest,
    now: &str,
) -> (r: Reply<()>)
    requires
        old(library).wf(),
    ensures
        final(library).wf(),
        (final(library)@, r.answer()) == book_seat_spec(old(library)@, user_id, req, now@),
        r.is_consistent(),
        r.body.data is None,
{
    let ghost lv = library@;
    let k = match seat_position(library, req.seat_id) {
        Some(k) => k,
        None => {
            return reply_err(HttpStatus::NotFound, "座位不存在");
        },
    };
    if !text_equal(library.seats()[k].status.as_str(), "available") {
        return reply_err(HttpStatus::BadRequest, "该座位当前不可用");
    }
    if is_blocked(library, req.seat_id, req.start_time.as_str(), req.end_time.as_str()) {
        return reply_err(HttpStatus::Conflict, "该时间段座位已被预约");
    }
    if count_open(library, user_id) >= MAX_OPEN_RESERVATIONS {
        return reply_err(HttpStatus::BadRequest, "您已有3个进行中的预约，请先取消或完成后再预约");
    }
    if library.reservation_seq() >= 0x7fff_ffff {
        return reply_err(HttpStatus::ServerError, "预约失败，请稍后重试");
    }
    let row = ReservationRow {
        id: (library.reservation_seq() + 1) as i32,
        user_id,
        seat_id: req.seat_id,
        start_time: req.start_time.clone(),
        end_time: req.end_time.clone(),
        status: String::from_str("pending"),
        created_at: String::from_str(now),
        updated_at: String::from_str(now),
    };
    assert(row@ == added_reservation(lv, user_id, req, now@));
    library.append_reservation(row);
    let old_seat = library.seats()[k].copy();
    let seat = Seat {
        status: String::from_str("reserved"),
        updated_at: String::from_str(now),
        ..old_seat
    };
    assert(seat@ == restamped(lv.seats[k as int], "reserved"@, now@));
    library.replace_seat(k, seat);
    reply_ok(String::from_str("预约成功，请在规定时间内签到"), None)
}

/// Books a seat as reader `user_id` for a request received at `now`.
pub fn create_reservation_at(
    library: &mut SeatLibrary,
    req: &CreateReservationRequest,
    user_id: i32,
    now: &Clock,
) -> (r: Reply<()>)
    requires
        old(library).wf(),
    ensures
        final(library).wf(),
        (final(library)@, r.answer()) == create_reservation_spec(
            old(library)@,
            user_id,
            req,
            now.moment,
            now.text@,
        ),
        r.is_consistent(),
        r.body.data is None,
{
    let start = match parse_rfc3339(req.start_time.as_str()) {
        Some(s) => s,
        None => {
            return reply_err(HttpStatus::BadRequest, rejection_text(TimeRejection::BadStart));
        },
    };
    let end = match parse_rfc3339(req.end_time.as_str()) {
        Some(e) => e,
        None => {
            return reply_err(HttpStatus::BadRequest, rejection_text(TimeRejection::BadEnd));
        },
    };
    let hours = match whole_hours_between(req.start_time.as_str(), req.end_time.as_str()) {
        Some(h) => h,
        None => {
            return reply_err(HttpStatus::BadRequest, rejection_text(TimeRejection::BadEnd));
        },
    };
    match check_window(&start, &end, hours, &now.moment) {
        Some(rej) => reply_err(HttpStatus::BadRequest, rejection_text(rej)),
        None => book_seat(library, user_id, req, now.text.as_str()),
    }
}

/// Books a seat for the reader named by the `user_id` parameter (reader 1
/// when it is missing or unreadable), checked against the current time and
/// stamped with the same reading of the clock.
pub fn create_reservation(
    library: &mut SeatLibrary,
    req: &CreateReservationRequest,
    user_id_param: Option<&str>,
) -> (r: Reply<()>)
    requires
        old(library).wf(),
    ensures
        final(library).wf(),
        exists|now: Moment, now_text: Seq<char>|
            #![trigger clock_reading(now, now_text)]
            clock_reading(now, now_text) && (final(library)@, r.answer()) == create_reservation_spec(
                old(library)@,
                requested_user(opt_str(user_id_param)),
                req,
                now,
                now_text,
            ),
        r.is_consistent(),
        r.body.data is None,
{
    let user_id = user_id_from_query(user_id_param);
    let clock = utc_now();
    let r = create_reservation_at(library, req, user_id, &clock);
    assert(clock_reading(clock.moment, clock.text@));
    r
}


// ---------- cancelling ----------

/// The reader holds a reservation with the id.
pub open spec fn owns_reservation(rs: Seq<ReservationView>, id: i32, user_id: i32) -> bool {
    exists|k: int| 0 <= k < rs.len() && rs[k].id == id && rs[k].user_id == user_id
}

/// The position of that reservation (meaningful when `owns_reservation`).
pub open spec fn owned_index(rs: Seq<ReservationView>, id: i32, user_id: i32) -> int {
    choose|k: int| 0 <= k < rs.len() && rs[k].id == id && rs[k].user_id == user_id
}

/// The message refusing to cancel a reservation in `status`.
pub open spec fn not_cancellable_message(status: Seq<char>) -> Seq<char> {
    "当前状态("@ + status + ")无法取消预约"@
}

/// A reservation with a new status, updated at `now`.
pub open spec fn restamped_reservation(r: ReservationView, status: Seq<char>, now: Seq<char>) -> ReservationView {
    ReservationView { status, updated_at: now, ..r }
}

/// Cancelling: only the reader's own reservation, only while it is open.
/// It becomes `cancelled` and its seat, if the seat still exists, becomes
/// `available`.
pub open spec fn cancel_reservation_spec(
    lv: LibraryView,
    reservation_id: i32,
    user_id: i32,
    now: Seq<char>,
) -> (LibraryView, Answer) {
    if !owns_reservation(lv.reservations, reservation_id, user_id) {
        (lv, Answer { status: HttpStatus::NotFound, message: "预约记录不存在或无权限"@ })
    } else {
        let k = owned_index(lv.reservations, reservation_id, user_id);
        let r = lv.reservations[k];
        if !is_open_status(r.status) {
            (lv, Answer { status: HttpStatus::BadRequest, message: not_cancellable_message(r.status) })
        } else {
            let reservations = lv.reservations.update(k, restamped_reservation(r, "cancelled"@, now));
            let seats = if has_seat(lv.seats, r.seat_id) {
                let j = seat_index(lv.seats, r.seat_id);
                lv.seats.update(j, restamped(lv.seats[j], "available"@, now))
            } else {
                lv.seats
            };
            (
                LibraryView { reservations, seats, ..lv },
                Answer { status: HttpStatus::Success, message: "预约已取消"@ },
            )
        }
    }
}

/// Finds the position of the reader's reservation with the id.
fn owned_position(library: &SeatLibrary, id: i32, user_id: i32) -> (r: Option<usize>)
    requires
        library.wf(),
    ensures
        r is Some <==> owns_reservation(library@.reservations, id, user_id),
        r matches Some(k) ==> k < library@.reservations.len() && k == owned_index(
            library@.reservations,
            id,
            user_id,
        ),
{
    let rows = library.reservations();
    let ghost rv = library@.reservations;
    let n = rows.len();
    let mut i: usize = 0;
    while i < n
        invariant
            n == rows@.len(),
            rv == reservation_rows(rows@),
            rv == library@.reservations,
            library@.wf(),
            i <= n,
            forall|k: int| 0 <= k < i ==> !(rv[k].id == id && rv[k].user_id == user_id),
        decreases n - i,
    {
        if rows[i].id == id && rows[i].user_id == user_id {
            proof {
                assert(rv[i as int].id == id && rv[i as int].user_id == user_id);
                let c = owned_index(rv, id, user_id);
                assert(c == i) by {
                    if c < i {
                        assert(rv[c].id < rv[i as int].id);
                    } else if c > i {
                        assert(rv[i as int].id < rv[c].id);
                    }
                }
            }
            return Some(i);
        }
        i = i + 1;
    }
    None
}

/// Cancels reader `user_id`'s reservation `reservation_id`, stamped with
/// `now`.
pub fn cancel_reservation_at(
    library: &mut SeatLibrary,
    reservation_id: i32,
    user_id: i32,
    now: &str,
) -> (r: Reply<()>)
    requires
        old(library).wf(),
    ensures
        final(library).wf(),
        (final(library)@, r.answer()) == cancel_reservation_spec(old(library)@, reservation_id, user_id, now@),
        r.is_consistent(),
        r.body.data is None,
{
    let ghost lv = library@;
    let k = match owned_position(library, reservation_id, user_id) {
        Some(k) => k,
        None => {
            return reply_err(HttpStatus::NotFound, "预约记录不存在或无权限");
        },
    };
    let row = &library.reservations()[k];
    if !is_open(row.status.as_str()) {
        let mut message = String::from_str("当前状态(");
        message.append(row.status.as_str());
        message.append(")无法取消预约");
        return Reply {
            status: HttpStatus::BadRequest,
            body: crate::reply::ApiResponse { success: false, message, data: None },
        };
    }
    let seat_id = row.seat_id;
    let cancelled = ReservationRow {
        id: row.id,
        user_id: row.user_id,
        seat_id: row.seat_id,
        start_time: row.start_time.clone(),
        end_time: row.end_time.clone(),
        status: String::from_str("cancelled"),
        created_at: row.created_at.clone(),
        updated_at: String::from_str(now),
    };
    assert(cancelled@ == restamped_reservation(lv.reservations[k as int], "cancelled"@, now@));
    library.replace_reservation(k, cancelled);
    match seat_position(library, seat_id) {
        Some(j) => {
            let old_seat = library.seats()[j].copy();
            let seat = Seat {
                status: String::from_str("available"),
                updated_at: String::from_str(now),
                ..old_seat
            };
            assert(seat@ == restamped(lv.seats[j as int], "available"@, now@));
            library.replace_seat(j, seat);
        },
        None => {},
    }
    reply_ok(String::from_str("预约已取消"), None)
}

/// Cancels a reservation of the reader named by the `user_id` parameter
/// (reader 1 when it is missing or unreadable), stamped with the current
/// time.
pub fn cancel_reservation(
    library: &mut SeatLibrary,
    reservation_id: i32,
    user_id_param: Option<&str>,
) -> (r: Reply<()>)
    requires
        old(library).wf(),
    ensures
        final(library).wf(),
        exists|now: Moment, now_text: Seq<char>|
            #![trigger clock_reading(now, now_text)]
            clock_reading(now, now_text) && (final(library)@, r.answer()) == cancel_reservation_spec(
                old(library)@,
                reservation_id,
                requested_user(opt_str(user_id_param)),
                now_text,
            ),
        r.is_consistent(),
        r.body.data is None,
{
    let user_id = user_id_from_query(user_id_param);
    let clock = utc_now();
    let r = cancel_reservation_at(library, reservation_id, user_id, clock.text.as_str());
    assert(clock_reading(clock.moment, clock.text@));
    r
}

} // verus!
