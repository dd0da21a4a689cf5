use library_seats::models::{
    AvailableSeatsQuery, CreateSeatRequest, GetSeatsQuery, Seat, UpdateSeatRequest,
};
use library_seats::reply::HttpStatus;
use library_seats::seats::{
    create_seat, create_seat_at, delete_seat, get_available_seats, get_available_seats_at,
    get_seat_by_id, get_seats, update_seat_at,
};
use library_seats::seed::init_database_at;
use library_seats::store::SeatLibrary;

const T0: &str = "2030-01-01T00:00:00+00:00";

fn seeded() -> SeatLibrary {
    let mut lib = SeatLibrary::new();
    init_database_at(&mut lib, T0);
    lib
}

fn numbers(v: &[Seat]) -> Vec<&str> {
    v.iter().map(|s| s.seat_number.as_str()).collect()
}

fn no_filter() -> GetSeatsQuery {
    GetSeatsQuery { area: None, status: None }
}

fn new_seat(number: &str, area: &str) -> CreateSeatRequest {
    CreateSeatRequest { seat_number: number.to_string(), area: area.to_string(), x_coord: Some(1), y_coord: None }
}

fn no_change() -> UpdateSeatRequest {
    UpdateSeatRequest { seat_number: None, area: None, status: None, x_coord: None, y_coord: None }
}

#[test]
fn seeding_adds_nine_seats_and_the_administrator() {
    let lib = seeded();
    assert_eq!(lib.seats().len(), 9);
    assert_eq!(lib.seat_seq(), 9);
    let first = &lib.seats()[0];
    assert_eq!(first.id, 1);
    assert_eq!(first.seat_number, "A001");
    assert_eq!(first.area, "A区");
    assert_eq!(first.status, "available");
    assert_eq!(first.x_coord, Some(100));
    assert_eq!(first.y_coord, Some(100));
    assert_eq!(first.created_at, T0);
    assert_eq!(lib.seats()[8].seat_number, "C003");
    assert_eq!(lib.seats()[8].x_coord, Some(200));
    assert_eq!(lib.seats()[8].y_coord, Some(300));
    assert_eq!(lib.users().len(), 1);
    let admin = &lib.users()[0];
    assert_eq!(admin.id, 1);
    assert_eq!(admin.student_id, "admin001");
    assert_eq!(admin.username, "管理员");
    assert_eq!(admin.role.as_deref(), Some("admin"));
    assert_eq!(admin.phone.as_deref(), Some("13800000000"));
    assert_eq!(admin.email, "admin@library.com");
}

#[test]
fn seeding_twice_adds_nothing() {
    let mut lib = seeded();
    init_database_at(&mut lib, "2031-05-05T00:00:00+00:00");
    assert_eq!(lib.seats().len(), 9);
    assert_eq!(lib.users().len(), 1);
    assert_eq!(lib.seat_seq(), 9);
    assert_eq!(lib.user_seq(), 1);
    assert_eq!(lib.seats()[0].created_at, T0);
}

#[test]
fn seeding_skips_numbers_already_taken() {
    let mut lib = SeatLibrary::new();
    let r = create_seat_at(&mut lib, &new_seat("B002", "Z区"), T0);
    assert_eq!(r.status, HttpStatus::Success);
    init_database_at(&mut lib, T0);
    assert_eq!(lib.seats().len(), 9);
    assert_eq!(lib.seats()[0].seat_number, "B002");
    assert_eq!(lib.seats()[0].area, "Z区");
    assert_eq!(lib.seats()[1].id, 2);
    assert_eq!(lib.seats()[1].seat_number, "A001");
}

#[test]
fn listing_all_seats_is_in_area_then_number_order() {
    let lib = seeded();
    let r = get_seats(&lib, &no_filter());
    assert_eq!(r.status, HttpStatus::Success);
    assert!(r.body.success);
    assert_eq!(r.body.message, "共 9 个座位");
    let v = r.body.data.unwrap();
    assert_eq!(numbers(&v), vec!["A001", "A002", "A003", "B001", "B002", "B003", "C001", "C002", "C003"]);
}

#[test]
fn listing_sorts_seats_added_out_of_order() {
    let mut lib = SeatLibrary::new();
    for (n, a) in [("Z9", "B区"), ("A1", "B区"), ("X", "A区"), ("A10", "B区"), ("A2", "B区")] {
        assert_eq!(create_seat_at(&mut lib, &new_seat(n, a), T0).status, HttpStatus::Success);
    }
    let v = get_seats(&lib, &no_filter()).body.data.unwrap();
    assert_eq!(numbers(&v), vec!["X", "A1", "A10", "A2", "Z9"]);
}

#[test]
fn listing_filters_by_area_and_status() {
    let mut lib = seeded();
    let mut change = no_change();
    change.status = Some("disabled".to_string());
    assert_eq!(update_seat_at(&mut lib, 5, &change, T0).status, HttpStatus::Success);

    let r = get_seats(&lib, &GetSeatsQuery { area: Some("B区".to_string()), status: None });
    assert_eq!(r.body.message, "共 3 个座位");
    assert_eq!(numbers(&r.body.data.unwrap()), vec!["B001", "B002", "B003"]);

    let r = get_seats(&lib, &GetSeatsQuery { area: Some("B区".to_string()), status: Some("available".to_string()) });
    assert_eq!(numbers(&r.body.data.unwrap()), vec!["B001", "B003"]);

    let r = get_seats(&lib, &GetSeatsQuery { area: None, status: Some("disabled".to_string()) });
    assert_eq!(r.body.message, "共 1 个座位");
    assert_eq!(numbers(&r.body.data.unwrap()), vec!["B002"]);

    let r = get_seats(&lib, &GetSeatsQuery { area: Some("D区".to_string()), status: None });
    assert_eq!(r.status, HttpStatus::Success);
    assert_eq!(r.body.message, "共 0 个座位");
    assert!(r.body.data.unwrap().is_empty());
}

#[test]
fn listing_an_empty_catalogue() {
    let lib = SeatLibrary::new();
    let r = get_seats(&lib, &no_filter());
    assert_eq!(r.body.message, "共 0 个座位");
    assert!(r.body.data.unwrap().is_empty());
}

#[test]
fn looking_up_a_seat() {
    let lib = seeded();
    let r = get_seat_by_id(&lib, 4);
    assert_eq!(r.status, HttpStatus::Success);
    assert!(r.body.success);
    assert_eq!(r.body.message, "获取成功");
    let s = r.body.data.unwrap();
    assert_eq!(s.id, 4);
    assert_eq!(s.seat_number, "B001");

    let r = get_seat_by_id(&lib, 42);
    assert_eq!(r.status, HttpStatus::NotFound);
    assert!(!r.body.success);
    assert_eq!(r.body.message, "座位不存在");
    assert!(r.body.data.is_none());
}

#[test]
fn adding_a_seat_then_finding_it() {
    let mut lib = seeded();
    let r = create_seat_at(&mut lib, &new_seat("D001", "D区"), "2030-02-02T10:00:00+00:00");
    assert_eq!(r.status, HttpStatus::Success);
    assert!(r.body.success);
    assert_eq!(r.body.message, "座位添加成功");
    assert!(r.body.data.is_none());
    let s = get_seat_by_id(&lib, 10).body.data.unwrap();
    assert_eq!(s.seat_number, "D001");
    assert_eq!(s.area, "D区");
    assert_eq!(s.status, "available");
    assert_eq!(s.x_coord, Some(1));
    assert_eq!(s.y_coord, None);
    assert_eq!(s.created_at, "2030-02-02T10:00:00+00:00");
    assert_eq!(s.updated_at, "2030-02-02T10:00:00+00:00");
}

#[test]
fn adding_a_taken_seat_number_is_refused() {
    let mut lib = seeded();
    let r = create_seat_at(&mut lib, &new_seat("A001", "Z区"), T0);
    assert_eq!(r.status, HttpStatus::BadRequest);
    assert!(!r.body.success);
    assert_eq!(r.body.message, "座位号已存在");
    assert_eq!(lib.seats().len(), 9);
    assert_eq!(lib.seat_seq(), 9);
}

#[test]
fn adding_a_seat_with_the_current_time() {
    let mut lib = seeded();
    let r = create_seat(&mut lib, &new_seat("E001", "E区"));
    assert_eq!(r.status, HttpStatus::Success);
    let s = get_seat_by_id(&lib, 10).body.data.unwrap();
    assert_eq!(s.created_at, s.updated_at);
    assert!(chrono::DateTime::parse_from_rfc3339(&s.created_at).is_ok());
}

#[test]
fn ids_are_not_reused_after_a_removal() {
    let mut lib = SeatLibrary::new();
    assert_eq!(create_seat_at(&mut lib, &new_seat("S1", "A区"), T0).status, HttpStatus::Success);
    assert_eq!(delete_seat(&mut lib, 1).status, HttpStatus::Success);
    assert_eq!(create_seat_at(&mut lib, &new_seat("S1", "A区"), T0).status, HttpStatus::Success);
    assert_eq!(lib.seats()[0].id, 2);
}

#[test]
fn updating_the_present_fields_of_a_seat() {
    let mut lib = seeded();
    let change = UpdateSeatRequest {
        seat_number: Some("A100".to_string()),
        area: None,
        status: Some("occupied".to_string()),
        x_coord: None,
        y_coord: Some(7),
    };
    let r = update_seat_at(&mut lib, 1, &change, "2030-03-03T00:00:00+00:00");
    assert_eq!(r.status, HttpStatus::Success);
    assert!(r.body.success);
    assert_eq!(r.body.message, "座位更新成功");
    let s = get_seat_by_id(&lib, 1).body.data.unwrap();
    assert_eq!(s.seat_number, "A100");
    assert_eq!(s.area, "A区");
    assert_eq!(s.status, "occupied");
    assert_eq!(s.x_coord, Some(100));
    assert_eq!(s.y_coord, Some(7));
    assert_eq!(s.created_at, T0);
    assert_eq!(s.updated_at, "2030-03-03T00:00:00+00:00");
}

#[test]
fn updating_to_a_taken_number_keeps_the_number_but_applies_the_rest() {
    let mut lib = seeded();
    let change = UpdateSeatRequest {
        seat_number: Some("A002".to_string()),
        area: Some("Z区".to_string()),
        status: None,
        x_coord: None,
        y_coord: None,
    };
    let r = update_seat_at(&mut lib, 1, &change, "2030-03-03T00:00:00+00:00");
    assert_eq!(r.status, HttpStatus::Success);
    let s = get_seat_by_id(&lib, 1).body.data.unwrap();
    assert_eq!(s.seat_number, "A001");
    assert_eq!(s.area, "Z区");
    assert_eq!(s.updated_at, "2030-03-03T00:00:00+00:00");
}

#[test]
fn updating_with_no_fields_changes_nothing() {
    let mut lib = seeded();
    let r = update_seat_at(&mut lib, 2, &no_change(), "2030-03-03T00:00:00+00:00");
    assert_eq!(r.status, HttpStatus::Success);
    let s = get_seat_by_id(&lib, 2).body.data.unwrap();
    assert_eq!(s.updated_at, T0);
}

#[test]
fn updating_a_missing_seat() {
    let mut lib = seeded();
    let mut change = no_change();
    change.area = Some("Q区".to_string());
    let r = update_seat_at(&mut lib, 99, &change, T0);
    assert_eq!(r.status, HttpStatus::NotFound);
    assert!(!r.body.success);
    assert_eq!(r.body.message, "座位不存在");
}

#[test]
fn removing_a_seat() {
    let mut lib = seeded();
    let r = delete_seat(&mut lib, 3);
    assert_eq!(r.status, HttpStatus::Success);
    assert!(r.body.success);
    assert_eq!(r.body.message, "座位删除成功");
    assert_eq!(lib.seats().len(), 8);
    assert_eq!(get_seat_by_id(&lib, 3).status, HttpStatus::NotFound);

    let r = delete_seat(&mut lib, 3);
    assert_eq!(r.status, HttpStatus::NotFound);
    assert_eq!(r.body.message, "座位不存在");
}

#[test]
fn free_seats_in_a_window() {
    let lib = seeded();
    let q = AvailableSeatsQuery {
        start_time: Some("2030-01-02T08:00:00+00:00".to_string()),
        end_time: Some("2030-01-02T10:00:00+00:00".to_string()),
    };
    let r = get_available_seats_at(&lib, &q, T0);
    assert_eq!(r.status, HttpStatus::Success);
    assert!(r.body.success);
    assert_eq!(r.body.message, "当前共有 9 个空闲座位");
    assert_eq!(r.body.data.unwrap().len(), 9);
}

#[test]
fn free_seats_exclude_seats_not_available() {
    let mut lib = seeded();
    let mut change = no_change();
    change.status = Some("disabled".to_string());
    update_seat_at(&mut lib, 1, &change, T0);
    let q = AvailableSeatsQuery { start_time: None, end_time: None };
    let r = get_available_seats_at(&lib, &q, T0);
    assert_eq!(r.body.message, "当前共有 8 个空闲座位");
    assert_eq!(numbers(&r.body.data.unwrap())[0], "A002");
}

#[test]
fn free_seats_with_the_current_time() {
    let lib = seeded();
    let q = AvailableSeatsQuery { start_time: None, end_time: None };
    let r = get_available_seats(&lib, &q);
    assert_eq!(r.status, HttpStatus::Success);
    assert_eq!(r.body.data.unwrap().len(), 9);
}

#[test]
fn updating_to_an_unknown_status_leaves_the_status() {
    let mut lib = seeded();
    let mut change = no_change();
    change.status = Some("broken".to_string());
    let r = update_seat_at(&mut lib, 1, &change, "2030-03-03T00:00:00+00:00");
    assert_eq!(r.status, HttpStatus::Success);
    let s = get_seat_by_id(&lib, 1).body.data.unwrap();
    assert_eq!(s.status, "available");
    assert_eq!(s.updated_at, T0);

    for known in ["occupied", "reserved", "disabled", "available"] {
        let mut change = no_change();
        change.status = Some(known.to_string());
        update_seat_at(&mut lib, 1, &change, "2030-03-04T00:00:00+00:00");
        assert_eq!(get_seat_by_id(&lib, 1).body.data.unwrap().status, known);
    }
}

#[test]
fn repeating_a_change_gives_the_same_seat() {
    let mut lib = seeded();
    let change = UpdateSeatRequest {
        seat_number: Some("A009".to_string()),
        area: Some("Q区".to_string()),
        status: Some("disabled".to_string()),
        x_coord: Some(3),
        y_coord: None,
    };
    update_seat_at(&mut lib, 2, &change, "2030-03-03T00:00:00+00:00");
    let first = get_seat_by_id(&lib, 2).body.data.unwrap();
    update_seat_at(&mut lib, 2, &change, "2030-03-03T00:00:00+00:00");
    let second = get_seat_by_id(&lib, 2).body.data.unwrap();
    assert_eq!(first.seat_number, second.seat_number);
    assert_eq!(first.area, second.area);
    assert_eq!(first.status, second.status);
    assert_eq!(first.x_coord, second.x_coord);
    assert_eq!(first.updated_at, second.updated_at);
    assert_eq!(second.seat_number, "A009");
}

#[test]
fn adding_then_removing_gives_back_the_seats() {
    let mut lib = seeded();
    let before = numbers(&get_seats(&lib, &no_filter()).body.data.unwrap()).join(",");
    assert_eq!(create_seat_at(&mut lib, &new_seat("Z1", "Z区"), T0).status, HttpStatus::Success);
    assert_eq!(delete_seat(&mut lib, 10).status, HttpStatus::Success);
    let after = numbers(&get_seats(&lib, &no_filter()).body.data.unwrap()).join(",");
    assert_eq!(before, after);
    assert_eq!(lib.seats().len(), 9);
}

#[test]
fn a_narrower_listing_is_the_wider_one_narrowed() {
    let mut lib = seeded();
    let mut change = no_change();
    change.status = Some("disabled".to_string());
    update_seat_at(&mut lib, 1, &change, T0);
    update_seat_at(&mut lib, 5, &change, T0);
    let all = get_seats(&lib, &no_filter()).body.data.unwrap();
    let by_area = get_seats(&lib, &GetSeatsQuery { area: Some("A区".to_string()), status: None }).body.data.unwrap();
    let by_both = get_seats(
        &lib,
        &GetSeatsQuery { area: Some("A区".to_string()), status: Some("available".to_string()) },
    )
    .body
    .data
    .unwrap();
    let narrowed: Vec<&str> = by_area.iter().filter(|s| s.status == "available").map(|s| s.seat_number.as_str()).collect();
    assert_eq!(numbers(&by_both), narrowed);
    assert_eq!(numbers(&by_both), vec!["A002", "A003"]);
    let from_all: Vec<&str> = all.iter().filter(|s| s.area == "A区").map(|s| s.seat_number.as_str()).collect();
    assert_eq!(numbers(&by_area), from_all);
}

#[test]
fn free_seats_are_the_available_ones_when_nothing_is_booked() {
    let mut lib = seeded();
    let mut change = no_change();
    change.status = Some("occupied".to_string());
    update_seat_at(&mut lib, 4, &change, T0);
    let available = get_seats(&lib, &GetSeatsQuery { area: None, status: Some("available".to_string()) }).body.data.unwrap();
    let q = AvailableSeatsQuery { start_time: Some("a".to_string()), end_time: Some("z".to_string()) };
    let free = get_available_seats_at(&lib, &q, T0).body.data.unwrap();
    assert_eq!(numbers(&free), numbers(&available));
    assert_eq!(free.len(), 8);
}
