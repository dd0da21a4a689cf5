use library_seats::models::{CreateSeatRequest, Seat};
use library_seats::reply::HttpStatus;
use library_seats::seats::create_seat_at;
use library_seats::store::{ReservationRow, SeatLibrary, UserRow};

fn seat(id: i32, number: &str) -> Seat {
    Seat {
        id,
        seat_number: number.to_string(),
        area: "A区".to_string(),
        status: "available".to_string(),
        x_coord: None,
        y_coord: None,
        created_at: "t".to_string(),
        updated_at: "t".to_string(),
    }
}

fn user(id: i32, student: &str) -> UserRow {
    UserRow {
        id,
        student_id: student.to_string(),
        username: "u".to_string(),
        password_hash: "h".to_string(),
        email: "e".to_string(),
        phone: None,
        role: None,
        created_at: "t".to_string(),
    }
}

fn reservation(id: i32) -> ReservationRow {
    ReservationRow {
        id,
        user_id: 1,
        seat_id: 1,
        start_time: "s".to_string(),
        end_time: "e".to_string(),
        status: "completed".to_string(),
        created_at: "t".to_string(),
        updated_at: "t".to_string(),
    }
}

#[test]
fn rows_are_taken_and_numbering_resumes_above_them() {
    let lib = SeatLibrary::from_rows(
        vec![seat(2, "A"), seat(5, "B")],
        vec![reservation(3)],
        vec![user(1, "s1"), user(4, "s2")],
        3,
        10,
        0,
    )
    .unwrap();
    assert_eq!(lib.seat_seq(), 5);
    assert_eq!(lib.reservation_seq(), 10);
    assert_eq!(lib.user_seq(), 4);
    assert_eq!(lib.seats().len(), 2);
    let mut lib = lib;
    let req = CreateSeatRequest { seat_number: "C".to_string(), area: "A区".to_string(), x_coord: None, y_coord: None };
    assert_eq!(create_seat_at(&mut lib, &req, "t").status, HttpStatus::Success);
    assert_eq!(lib.seats()[2].id, 6);
}

#[test]
fn rows_breaking_the_keys_are_refused() {
    assert!(SeatLibrary::from_rows(vec![seat(1, "A"), seat(2, "A")], vec![], vec![], 0, 0, 0).is_none());
    assert!(SeatLibrary::from_rows(vec![seat(2, "A"), seat(1, "B")], vec![], vec![], 0, 0, 0).is_none());
    assert!(SeatLibrary::from_rows(vec![], vec![reservation(4), reservation(4)], vec![], 0, 0, 0).is_none());
    assert!(SeatLibrary::from_rows(vec![], vec![], vec![user(1, "x"), user(2, "x")], 0, 0, 0).is_none());
    assert!(SeatLibrary::from_rows(vec![], vec![], vec![user(3, "x"), user(2, "y")], 0, 0, 0).is_none());
    assert!(SeatLibrary::from_rows(vec![], vec![], vec![], -1, 0, 0).is_none());
}

#[test]
fn an_empty_library() {
    let lib = SeatLibrary::new();
    assert!(lib.seats().is_empty());
    assert!(lib.reservations().is_empty());
    assert!(lib.users().is_empty());
    assert_eq!(lib.seat_seq(), 0);
}

#[test]
fn rows_with_an_unknown_seat_status_are_refused() {
    let mut odd = seat(1, "A");
    odd.status = "broken".to_string();
    assert!(SeatLibrary::from_rows(vec![odd], vec![], vec![], 0, 0, 0).is_none());
    let mut ok = seat(1, "A");
    ok.status = "disabled".to_string();
    assert!(SeatLibrary::from_rows(vec![ok], vec![], vec![], 0, 0, 0).is_some());
}
