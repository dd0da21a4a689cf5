use library_seats::clock::{Clock, Moment};
use library_seats::models::{AvailableSeatsQuery, CreateReservationRequest, UpdateSeatRequest};
use library_seats::reply::HttpStatus;
use library_seats::reservations::{
    book_seat, cancel_reservation, cancel_reservation_at, check_window, create_reservation,
    create_reservation_at, user_id_from_query, TimeRejection,
};
use library_seats::seats::{delete_seat, get_available_seats_at, get_seat_by_id, update_seat_at};
use library_seats::seed::init_database_at;
use library_seats::store::SeatLibrary;

/// 2030-01-01T00:00:00Z.
fn now() -> Clock {
    Clock { moment: Moment { secs: 1_893_456_000, nanos: 0 }, text: "2030-01-01T00:00:00+00:00".to_string() }
}

fn seeded() -> SeatLibrary {
    let mut lib = SeatLibrary::new();
    init_database_at(&mut lib, "2029-12-31T00:00:00+00:00");
    lib
}

fn booking(seat: i32, start: &str, end: &str) -> CreateReservationRequest {
    CreateReservationRequest { seat_id: seat, start_time: start.to_string(), end_time: end.to_string() }
}

fn make_available(lib: &mut SeatLibrary, seat: i32) {
    let change = UpdateSeatRequest {
        seat_number: None,
        area: None,
        status: Some("available".to_string()),
        x_coord: None,
        y_coord: None,
    };
    assert_eq!(update_seat_at(lib, seat, &change, "2030-01-01T00:00:00+00:00").status, HttpStatus::Success);
}

#[test]
fn booking_a_free_seat() {
    let mut lib = seeded();
    let r = create_reservation_at(
        &mut lib,
        &booking(2, "2030-01-02T08:00:00+00:00", "2030-01-02T10:00:00+00:00"),
        7,
        &now(),
    );
    assert_eq!(r.status, HttpStatus::Success);
    assert!(r.body.success);
    assert_eq!(r.body.message, "预约成功，请在规定时间内签到");
    assert!(r.body.data.is_none());
    assert_eq!(lib.reservations().len(), 1);
    let row = &lib.reservations()[0];
    assert_eq!(row.id, 1);
    assert_eq!(row.user_id, 7);
    assert_eq!(row.seat_id, 2);
    assert_eq!(row.status, "pending");
    assert_eq!(row.start_time, "2030-01-02T08:00:00+00:00");
    assert_eq!(row.created_at, "2030-01-01T00:00:00+00:00");
    let seat = get_seat_by_id(&lib, 2).body.data.unwrap();
    assert_eq!(seat.status, "reserved");
    assert_eq!(seat.updated_at, "2030-01-01T00:00:00+00:00");
}

#[test]
fn a_start_that_is_not_a_time() {
    let mut lib = seeded();
    let r = create_reservation_at(&mut lib, &booking(2, "tomorrow", "2030-01-02T10:00:00+00:00"), 1, &now());
    assert_eq!(r.status, HttpStatus::BadRequest);
    assert!(!r.body.success);
    assert_eq!(r.body.message, "开始时间格式错误");
    assert!(lib.reservations().is_empty());
}

#[test]
fn an_end_that_is_not_a_time() {
    let mut lib = seeded();
    let r = create_reservation_at(&mut lib, &booking(2, "2030-01-02T08:00:00+00:00", "2030-01-02 10:00"), 1, &now());
    assert_eq!(r.status, HttpStatus::BadRequest);
    assert_eq!(r.body.message, "结束时间格式错误");
}

#[test]
fn a_start_in_the_past() {
    let mut lib = seeded();
    let r = create_reservation_at(
        &mut lib,
        &booking(2, "2029-12-31T23:59:59+00:00", "2030-01-01T01:00:00+00:00"),
        1,
        &now(),
    );
    assert_eq!(r.status, HttpStatus::BadRequest);
    assert_eq!(r.body.message, "开始时间不能早于当前时间");
}

#[test]
fn a_start_in_the_past_by_its_offset() {
    let mut lib = seeded();
    // 07:30 at +08:00 is 23:30 UTC of the day before now.
    let r = create_reservation_at(
        &mut lib,
        &booking(2, "2030-01-01T07:30:00+08:00", "2030-01-01T09:00:00+08:00"),
        1,
        &now(),
    );
    assert_eq!(r.body.message, "开始时间不能早于当前时间");
}

#[test]
fn a_start_at_exactly_now_is_accepted() {
    let mut lib = seeded();
    let r = create_reservation_at(
        &mut lib,
        &booking(2, "2030-01-01T00:00:00Z", "2030-01-01T01:00:00Z"),
        1,
        &now(),
    );
    assert_eq!(r.status, HttpStatus::Success);
}

#[test]
fn an_end_not_after_the_start() {
    let mut lib = seeded();
    let r = create_reservation_at(
        &mut lib,
        &booking(2, "2030-01-02T08:00:00+00:00", "2030-01-02T08:00:00+00:00"),
        1,
        &now(),
    );
    assert_eq!(r.status, HttpStatus::BadRequest);
    assert_eq!(r.body.message, "结束时间必须晚于开始时间");
    let r = create_reservation_at(
        &mut lib,
        &booking(2, "2030-01-02T08:00:00+00:00", "2030-01-02T07:00:00+00:00"),
        1,
        &now(),
    );
    assert_eq!(r.body.message, "结束时间必须晚于开始时间");
}

#[test]
fn more_than_four_whole_hours() {
    let mut lib = seeded();
    let r = create_reservation_at(
        &mut lib,
        &booking(2, "2030-01-02T08:00:00+00:00", "2030-01-02T13:00:00+00:00"),
        1,
        &now(),
    );
    assert_eq!(r.status, HttpStatus::BadRequest);
    assert_eq!(r.body.message, "单次预约最长不能超过4小时");
}

#[test]
fn four_whole_hours_and_some_minutes_are_accepted() {
    let mut lib = seeded();
    let r = create_reservation_at(
        &mut lib,
        &booking(2, "2030-01-02T08:00:00+00:00", "2030-01-02T12:59:59+00:00"),
        1,
        &now(),
    );
    assert_eq!(r.status, HttpStatus::Success);
}

#[test]
fn hours_are_counted_across_offsets() {
    let mut lib = seeded();
    // 16:00 at +08:00 is 08:00 UTC; 21:00 UTC lies thirteen hours later.
    let r = create_reservation_at(
        &mut lib,
        &booking(2, "2030-01-02T16:00:00+08:00", "2030-01-02T21:00:00+00:00"),
        1,
        &now(),
    );
    assert_eq!(r.body.message, "单次预约最长不能超过4小时");
}

#[test]
fn the_window_checks_on_given_values() {
    let start = Moment { secs: 1000, nanos: 0 };
    let end = Moment { secs: 2000, nanos: 0 };
    assert_eq!(check_window(&start, &end, 0, &Moment { secs: 1000, nanos: 0 }), None);
    assert_eq!(check_window(&start, &end, 0, &Moment { secs: 1000, nanos: 1 }), Some(TimeRejection::StartPassed));
    assert_eq!(check_window(&start, &start, 0, &Moment { secs: 0, nanos: 0 }), Some(TimeRejection::EndNotAfterStart));
    assert_eq!(check_window(&start, &end, 5, &Moment { secs: 0, nanos: 0 }), Some(TimeRejection::TooLong));
    assert_eq!(check_window(&start, &end, 4, &Moment { secs: 0, nanos: 0 }), None);
}

#[test]
fn booking_a_missing_seat() {
    let mut lib = seeded();
    let r = create_reservation_at(
        &mut lib,
        &booking(77, "2030-01-02T08:00:00+00:00", "2030-01-02T10:00:00+00:00"),
        1,
        &now(),
    );
    assert_eq!(r.status, HttpStatus::NotFound);
    assert_eq!(r.body.message, "座位不存在");
}

#[test]
fn booking_a_seat_that_is_not_available() {
    let mut lib = seeded();
    let w = booking(2, "2030-01-02T08:00:00+00:00", "2030-01-02T10:00:00+00:00");
    assert_eq!(create_reservation_at(&mut lib, &w, 1, &now()).status, HttpStatus::Success);
    let r = create_reservation_at(&mut lib, &w, 2, &now());
    assert_eq!(r.status, HttpStatus::BadRequest);
    assert_eq!(r.body.message, "该座位当前不可用");
    assert_eq!(lib.reservations().len(), 1);
}

#[test]
fn booking_an_overlapping_window() {
    let mut lib = seeded();
    let first = booking(2, "2030-01-02T08:00:00+00:00", "2030-01-02T10:00:00+00:00");
    assert_eq!(create_reservation_at(&mut lib, &first, 1, &now()).status, HttpStatus::Success);
    make_available(&mut lib, 2);
    let touching = booking(2, "2030-01-02T10:00:00+00:00", "2030-01-02T11:00:00+00:00");
    let r = create_reservation_at(&mut lib, &touching, 2, &now());
    assert_eq!(r.status, HttpStatus::Conflict);
    assert!(!r.body.success);
    assert_eq!(r.body.message, "该时间段座位已被预约");
    let later = booking(2, "2030-01-02T10:00:01+00:00", "2030-01-02T11:00:00+00:00");
    assert_eq!(create_reservation_at(&mut lib, &later, 2, &now()).status, HttpStatus::Success);
}

#[test]
fn at_most_three_open_reservations() {
    let mut lib = seeded();
    for seat in 1..=3 {
        let w = booking(seat, "2030-01-02T08:00:00+00:00", "2030-01-02T10:00:00+00:00");
        assert_eq!(create_reservation_at(&mut lib, &w, 5, &now()).status, HttpStatus::Success);
    }
    let w = booking(4, "2030-01-02T08:00:00+00:00", "2030-01-02T10:00:00+00:00");
    let r = create_reservation_at(&mut lib, &w, 5, &now());
    assert_eq!(r.status, HttpStatus::BadRequest);
    assert_eq!(r.body.message, "您已有3个进行中的预约，请先取消或完成后再预约");
    assert_eq!(create_reservation_at(&mut lib, &w, 6, &now()).status, HttpStatus::Success);
    assert_eq!(cancel_reservation_at(&mut lib, 1, 5, "2030-01-01T01:00:00+00:00").status, HttpStatus::Success);
    assert_eq!(create_reservation_at(&mut lib, &booking(5, "2030-01-02T08:00:00+00:00", "2030-01-02T09:00:00+00:00"), 5, &now()).status, HttpStatus::Success);
}

#[test]
fn taking_a_seat_without_the_time_checks() {
    let mut lib = seeded();
    let r = book_seat(&mut lib, 3, &booking(9, "x", "y"), "2030-01-01T00:00:00+00:00");
    assert_eq!(r.status, HttpStatus::Success);
    assert_eq!(lib.reservations()[0].start_time, "x");
    assert_eq!(get_seat_by_id(&lib, 9).body.data.unwrap().status, "reserved");
}

#[test]
fn a_booked_seat_is_not_free() {
    let mut lib = seeded();
    let w = booking(1, "2030-01-02T08:00:00+00:00", "2030-01-02T10:00:00+00:00");
    assert_eq!(create_reservation_at(&mut lib, &w, 1, &now()).status, HttpStatus::Success);
    make_available(&mut lib, 1);
    let overlapping = AvailableSeatsQuery {
        start_time: Some("2030-01-02T09:00:00+00:00".to_string()),
        end_time: Some("2030-01-02T09:30:00+00:00".to_string()),
    };
    let r = get_available_seats_at(&lib, &overlapping, "2030-01-01T00:00:00+00:00");
    assert_eq!(r.body.message, "当前共有 8 个空闲座位");
    assert_eq!(r.body.data.unwrap()[0].seat_number, "A002");
    let apart = AvailableSeatsQuery {
        start_time: Some("2030-01-02T11:00:00+00:00".to_string()),
        end_time: Some("2030-01-02T12:00:00+00:00".to_string()),
    };
    let r = get_available_seats_at(&lib, &apart, "2030-01-01T00:00:00+00:00");
    assert_eq!(r.body.message, "当前共有 9 个空闲座位");
}

#[test]
fn cancelling_a_booking() {
    let mut lib = seeded();
    let w = booking(2, "2030-01-02T08:00:00+00:00", "2030-01-02T10:00:00+00:00");
    assert_eq!(create_reservation_at(&mut lib, &w, 4, &now()).status, HttpStatus::Success);
    let r = cancel_reservation_at(&mut lib, 1, 4, "2030-01-01T02:00:00+00:00");
    assert_eq!(r.status, HttpStatus::Success);
    assert!(r.body.success);
    assert_eq!(r.body.message, "预约已取消");
    assert_eq!(lib.reservations()[0].status, "cancelled");
    assert_eq!(lib.reservations()[0].updated_at, "2030-01-01T02:00:00+00:00");
    let seat = get_seat_by_id(&lib, 2).body.data.unwrap();
    assert_eq!(seat.status, "available");
    assert_eq!(seat.updated_at, "2030-01-01T02:00:00+00:00");

    let again = cancel_reservation_at(&mut lib, 1, 4, "2030-01-01T03:00:00+00:00");
    assert_eq!(again.status, HttpStatus::BadRequest);
    assert_eq!(again.body.message, "当前状态(cancelled)无法取消预约");
    assert_eq!(lib.reservations()[0].updated_at, "2030-01-01T02:00:00+00:00");
}

#[test]
fn cancelling_someone_elses_or_a_missing_booking() {
    let mut lib = seeded();
    let w = booking(2, "2030-01-02T08:00:00+00:00", "2030-01-02T10:00:00+00:00");
    assert_eq!(create_reservation_at(&mut lib, &w, 4, &now()).status, HttpStatus::Success);
    let r = cancel_reservation_at(&mut lib, 1, 5, "2030-01-01T02:00:00+00:00");
    assert_eq!(r.status, HttpStatus::NotFound);
    assert!(!r.body.success);
    assert_eq!(r.body.message, "预约记录不存在或无权限");
    let r = cancel_reservation_at(&mut lib, 9, 4, "2030-01-01T02:00:00+00:00");
    assert_eq!(r.status, HttpStatus::NotFound);
    assert_eq!(lib.reservations()[0].status, "pending");
}

#[test]
fn cancelling_after_the_seat_was_removed() {
    let mut lib = seeded();
    let w = booking(2, "2030-01-02T08:00:00+00:00", "2030-01-02T10:00:00+00:00");
    assert_eq!(create_reservation_at(&mut lib, &w, 4, &now()).status, HttpStatus::Success);
    let r = delete_seat(&mut lib, 2);
    assert_eq!(r.status, HttpStatus::BadRequest);
    assert_eq!(r.body.message, "该座位有正在进行的预约，无法删除");
    assert_eq!(cancel_reservation_at(&mut lib, 1, 4, "2030-01-01T02:00:00+00:00").status, HttpStatus::Success);
    assert_eq!(delete_seat(&mut lib, 2).status, HttpStatus::Success);
    assert_eq!(lib.seats().len(), 8);
}

#[test]
fn reading_the_user_parameter() {
    assert_eq!(user_id_from_query(Some("42")), 42);
    assert_eq!(user_id_from_query(Some("+7")), 7);
    assert_eq!(user_id_from_query(Some("-3")), -3);
    assert_eq!(user_id_from_query(Some("abc")), 1);
    assert_eq!(user_id_from_query(Some("")), 1);
    assert_eq!(user_id_from_query(Some("99999999999")), 1);
    assert_eq!(user_id_from_query(Some(" 5")), 1);
    assert_eq!(user_id_from_query(None), 1);
    assert_eq!(user_id_from_query(Some("-2147483648")), i32::MIN);
    assert_eq!(user_id_from_query(Some("2147483647")), i32::MAX);
    assert_eq!(user_id_from_query(Some("2147483648")), 1);
    assert_eq!(user_id_from_query(Some("-2147483649")), 1);
    assert_eq!(user_id_from_query(Some("+")), 1);
    assert_eq!(user_id_from_query(Some("-")), 1);
    assert_eq!(user_id_from_query(Some("007")), 7);
    assert_eq!(user_id_from_query(Some("12a")), 1);
    assert_eq!(user_id_from_query(Some("99999999999999999999999")), 1);
}

#[test]
fn booking_stamps_with_the_reading_it_judged_by() {
    let mut lib = seeded();
    let future = booking(2, "2999-01-01T08:00:00+00:00", "2999-01-01T10:00:00+00:00");
    assert_eq!(create_reservation(&mut lib, &future, None).status, HttpStatus::Success);
    let stamp = &lib.reservations()[0].created_at;
    let t = chrono::DateTime::parse_from_rfc3339(stamp).unwrap();
    assert!(t.timestamp() > 1_700_000_000);
    assert_eq!(stamp, &lib.reservations()[0].updated_at);
}

#[test]
fn booking_with_the_current_time() {
    let mut lib = seeded();
    let past = booking(2, "2000-01-01T08:00:00+00:00", "2000-01-01T10:00:00+00:00");
    let r = create_reservation(&mut lib, &past, Some("3"));
    assert_eq!(r.status, HttpStatus::BadRequest);
    assert_eq!(r.body.message, "开始时间不能早于当前时间");
    let future = booking(2, "2999-01-01T08:00:00+00:00", "2999-01-01T10:00:00+00:00");
    let r = create_reservation(&mut lib, &future, Some("3"));
    assert_eq!(r.status, HttpStatus::Success);
    assert_eq!(lib.reservations()[0].user_id, 3);
    let r = cancel_reservation(&mut lib, 1, Some("3"));
    assert_eq!(r.status, HttpStatus::Success);
    let r = cancel_reservation(&mut lib, 1, None);
    assert_eq!(r.status, HttpStatus::NotFound);
}

#[test]
fn a_wider_window_frees_no_more_seats() {
    let mut lib = seeded();
    let w = booking(1, "2030-01-02T08:00:00+00:00", "2030-01-02T10:00:00+00:00");
    assert_eq!(create_reservation_at(&mut lib, &w, 1, &now()).status, HttpStatus::Success);
    make_available(&mut lib, 1);
    let narrow = AvailableSeatsQuery {
        start_time: Some("2030-01-02T11:00:00+00:00".to_string()),
        end_time: Some("2030-01-02T12:00:00+00:00".to_string()),
    };
    let wide = AvailableSeatsQuery {
        start_time: Some("2030-01-02T09:00:00+00:00".to_string()),
        end_time: Some("2030-01-02T12:00:00+00:00".to_string()),
    };
    let n = get_available_seats_at(&lib, &narrow, "2030-01-01T00:00:00+00:00").body.data.unwrap();
    let w = get_available_seats_at(&lib, &wide, "2030-01-01T00:00:00+00:00").body.data.unwrap();
    assert_eq!(n.len(), 9);
    assert_eq!(w.len(), 8);
    assert!(w.iter().all(|s| n.iter().any(|t| t.id == s.id)));
}

#[test]
fn bookings_stay_within_the_rules_across_requests() {
    let mut lib = seeded();
    let w = booking(1, "2030-01-02T08:00:00+00:00", "2030-01-02T10:00:00+00:00");
    assert_eq!(create_reservation_at(&mut lib, &w, 1, &now()).status, HttpStatus::Success);
    make_available(&mut lib, 1);
    let overlapping = booking(1, "2030-01-02T09:00:00+00:00", "2030-01-02T11:00:00+00:00");
    assert_eq!(create_reservation_at(&mut lib, &overlapping, 2, &now()).status, HttpStatus::Conflict);
    for seat in 2..=4 {
        let w = booking(seat, "2030-01-02T08:00:00+00:00", "2030-01-02T10:00:00+00:00");
        create_reservation_at(&mut lib, &w, 1, &now());
    }
    let open: Vec<_> = lib
        .reservations()
        .iter()
        .filter(|r| r.user_id == 1 && (r.status == "pending" || r.status == "active"))
        .collect();
    assert_eq!(open.len(), 3);
}
