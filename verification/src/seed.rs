//! The rows a fresh installation starts with: the administrator account
//! and the demonstration seats of areas A, B and C.
use vstd::prelude::*;
use crate::clock::{clock_reading, utc_now, Moment};
use crate::models::{Seat, SeatView};
use crate::seats::{number_taken, seat_number_taken};
use crate::store::{LibraryView, SeatLibrary, UserRow, UserView};
use crate::text::text_equal;

verus! {

/// Number of demonstration seats.
pub const SEED_SEAT_COUNT: usize = 9;

/// The `i`-th demonstration seat: number, area and coordinates.
pub open spec fn seed_seat(i: int) -> (Seq<char>, Seq<char>, i32, i32) {
    if i == 0 {
        ("A001"@, "A区"@, 100, 100)
    } else if i == 1 {
        ("A002"@, "A区"@, 150, 100)
    } else if i == 2 {
        ("A003"@, "A区"@, 200, 100)
    } else if i == 3 {
        ("B001"@, "B区"@, 100, 200)
    } else if i == 4 {
        ("B002"@, "B区"@, 150, 200)
    } else if i == 5 {
        ("B003"@, "B区"@, 200, 200)
    } else if i == 6 {
        ("C001"@, "C区"@, 100, 300)
    } else if i == 7 {
        ("C002"@, "C区"@, 150, 300)
    } else {
        ("C003"@, "C区"@, 200, 300)
    }
}

fn seed_row(i: usize) -> (r: (&'static str, &'static str, i32, i32))
    requires
        i < SEED_SEAT_COUNT,
    ensures
        (r.0@, r.1@, r.2, r.3) == seed_seat(i as int),
{
    if i == 0 {
        ("A001", "A区", 100, 100)
    } else if i == 1 {
        ("A002", "A区", 150, 100)
    } else if i == 2 {
        ("A003", "A区", 200, 100)
    } else if i == 3 {
        ("B001", "B区", 100, 200)
    } else if i == 4 {
        ("B002", "B区", 150, 200)
    } else if i == 5 {
        ("B003", "B区", 200, 200)
    } else if i == 6 {
        ("C001", "C区", 100, 300)
    } else if i == 7 {
        ("C002", "C区", 150, 300)
    } else {
        ("C003", "C区", 200, 300)
    }
}

/// Inserts a demonstration seat unless its number is taken (or no id is
/// left), like `INSERT OR IGNORE`.
pub open spec fn insert_seed_seat(lv: LibraryView, i: int, now: Seq<char>) -> LibraryView {
    let (number, area, x, y) = seed_seat(i);
    if seat_number_taken(lv.seats, number) || lv.seat_seq >= i32::MAX {
        lv
    } else {
        LibraryView {
            seats: lv.seats.push(
                SeatView {
                    id: (lv.seat_seq + 1) as i32,
                    seat_number: number,
                    area,
                    status: "available"@,
                    x_coord: Some(x),
                    y_coord: Some(y),
                    created_at: now,
                    updated_at: now,
                },
            ),
            seat_seq: lv.seat_seq + 1,
            ..lv
        }
    }
}

/// The first `n` demonstration seats inserted in order.
pub open spec fn seed_seats_upto(lv: LibraryView, n: nat, now: Seq<char>) -> LibraryView
    decreases n,
{
    if n == 0 {
        lv
    } else {
        insert_seed_seat(seed_seats_upto(lv, (n - 1) as nat, now), n - 1, now)
    }
}

/// The administrator account created at `now`.
pub open spec fn admin_user(id: i32, now: Seq<char>) -> UserView {
    UserView {
        id,
        student_id: "admin001"@,
        username: "管理员"@,
        password_hash: "$2b$12$2Yq4uQkE5ZvXxV5Yq4uQkE"@,
        email: "admin@library.com"@,
        phone: Some("13800000000"@),
        role: Some("admin"@),
        created_at: now,
    }
}

/// Some reader has the student number.
pub open spec fn student_id_taken(users: Seq<UserView>, student_id: Seq<char>) -> bool {
    exists|i: int| 0 <= i < users.len() && users[i].student_id == student_id
}

/// Inserts the administrator unless `admin001` exists (or no id is left).
pub open spec fn insert_admin(lv: LibraryView, now: Seq<char>) -> LibraryView {
    if student_id_taken(lv.users, "admin001"@) || lv.user_seq >= i32::MAX {
        lv
    } else {
        LibraryView {
            users: lv.users.push(admin_user((lv.user_seq + 1) as i32, now)),
            user_seq: lv.user_seq + 1,
            ..lv
        }
    }
}

/// Seeding at `now`: the administrator, then the demonstration seats.
pub open spec fn init_database_spec(lv: LibraryView, now: Seq<char>) -> LibraryView {
    seed_seats_upto(insert_admin(lv, now), SEED_SEAT_COUNT as nat, now)
}

fn admin_taken(library: &SeatLibrary) -> (r: bool)
    ensures
        r == student_id_taken(library@.users, "admin001"@),
{
    let rows = library.users();
    let ghost uv = library@.users;
    let n = rows.len();
    let mut i: usize = 0;
    while i < n
        invariant
            n == rows@.len(),
            uv == crate::store::user_rows(rows@),
            uv == library@.users,
            i <= n,
            forall|k: int| 0 <= k < i ==> uv[k].student_id != "admin001"@,
        decreases n - i,
    {
        if text_equal(rows[i].student_id.as_str(), "admin001") {
            assert(uv[i as int].student_id == "admin001"@);
            return true;
        }
        i = i + 1;
    }
    false
}

/// Adds the administrator account and the demonstration seats that are not
/// there yet, stamped with `now`.
pub fn init_database_at(library: &mut SeatLibrary, now: &str)
    requires
        old(library).wf(),
    ensures
        final(library).wf(),
        final(library)@ == init_database_spec(old(library)@, now@),
{
    let ghost lv0 = library@;
    if !admin_taken(library) && library.user_seq() < 0x7fff_ffff {
        let row = UserRow {
            id: (library.user_seq() + 1) as i32,
            student_id: String::from_str("admin001"),
            username: String::from_str("管理员"),
            password_hash: String::from_str("$2b$12$2Yq4uQkE5ZvXxV5Yq4uQkE"),
            email: String::from_str("admin@library.com"),
            phone: Some(String::from_str("13800000000")),
            role: Some(String::from_str("admin")),
            created_at: String::from_str(now),
        };
        assert(row@ == admin_user((lv0.user_seq + 1) as i32, now@));
        library.append_user(row);
    }
    let ghost lv1 = library@;
    assert(lv1 == insert_admin(lv0, now@));
    let mut i: usize = 0;
    while i < SEED_SEAT_COUNT
        invariant
            i <= SEED_SEAT_COUNT,
            library@.wf(),
            library@ == seed_seats_upto(lv1, i as nat, now@),
        decreases SEED_SEAT_COUNT - i,
    {
        let (number, area, x, y) = seed_row(i);
        let ghost before = library@;
        if !number_taken(library, number) && library.seat_seq() < 0x7fff_ffff {
            let seat = Seat {
                id: (library.seat_seq() + 1) as i32,
                seat_number: String::from_str(number),
                area: String::from_str(area),
                status: String::from_str("available"),
                x_coord: Some(x),
                y_coord: Some(y),
                created_at: String::from_str(now),
                updated_at: String::from_str(now),
            };
            library.append_seat(seat);
        }
        assert(library@ == insert_seed_seat(before, i as int, now@));
        i = i + 1;
    }
}

/// Adds the administrator account and the demonstration seats that are not
/// there yet, stamped with the current time.
pub fn init_database(library: &mut SeatLibrary)
    requires
        old(library).wf(),
    ensures
        final(library).wf(),
        exists|m: Moment, now: Seq<char>|
            #![trigger clock_reading(m, now)]
            clock_reading(m, now) && final(library)@ == init_database_spec(old(library)@, now),
{
    let clock = utc_now();
    init_database_at(library, clock.text.as_str());
    assert(clock_reading(clock.moment, clock.text@));
}

} // verus!
