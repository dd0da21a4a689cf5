//! The tables of the service (seats, reservations, readers) held as rows,
//! with the id sequences that number new rows.
use vstd::prelude::*;
use crate::models::{Seat, SeatView};
use crate::seats::{number_taken_by_other, seat_number_taken};
use crate::text::text_equal;

verus! {

/// A stored reservation: who booked which seat for which window.
pub struct ReservationRow {
    pub id: i32,
    pub user_id: i32,
    pub seat_id: i32,
    pub start_time: String,
    pub end_time: String,
    pub status: String,
    pub created_at: String,
    pub updated_at: String,
}

pub struct ReservationView {
    pub id: i32,
    pub user_id: i32,
    pub seat_id: i32,
    pub start_time: Seq<char>,
    pub end_time: Seq<char>,
    pub status: Seq<char>,
    pub created_at: Seq<char>,
    pub updated_at: Seq<char>,
}

impl View for ReservationRow {
    type V = ReservationView;

    open spec fn view(&self) -> ReservationView {
        ReservationView {
            id: self.id,
            user_id: self.user_id,
            seat_id: self.seat_id,
            start_time: self.start_time@,
            end_time: self.end_time@,
            status: self.status@,
            created_at: self.created_at@,
            updated_at: self.updated_at@,
        }
    }
}

/// A stored reader account.
pub struct UserRow {
    pub id: i32,
    pub student_id: String,
    pub username: String,
    pub password_hash: String,
    pub email: String,
    pub phone: Option<String>,
    pub role: Option<String>,
    pub created_at: String,
}

pub struct UserView {
    pub id: i32,
    pub student_id: Seq<char>,
    pub username: Seq<char>,
    pub password_hash: Seq<char>,
    pub email: Seq<char>,
    pub phone: Option<Seq<char>>,
    pub role: Option<Seq<char>>,
    pub created_at: Seq<char>,
}

pub open spec fn opt_text(t: Option<String>) -> Option<Seq<char>> {
    match t {
        Some(s) => Some(s@),
        None => None,
    }
}

impl View for UserRow {
    type V = UserView;

    open spec fn view(&self) -> UserView {
        UserView {
            id: self.id,
            student_id: self.student_id@,
            username: self.username@,
            password_hash: self.password_hash@,
            email: self.email@,
            phone: opt_text(self.phone),
            role: opt_text(self.role),
            created_at: self.created_at@,
        }
    }
}

pub open spec fn seat_rows(v: Seq<Seat>) -> Seq<SeatView> {
    v.map_values(|s: Seat| s@)
}

pub open spec fn reservation_rows(v: Seq<ReservationRow>) -> Seq<ReservationView> {
    v.map_values(|r: ReservationRow| r@)
}

pub open spec fn user_rows(v: Seq<UserRow>) -> Seq<UserView> {
    v.map_values(|u: UserRow| u@)
}

/// The three tables and their id sequences (the largest id ever handed out).
pub struct LibraryView {
    pub seats: Seq<SeatView>,
    pub reservations: Seq<ReservationView>,
    pub users: Seq<UserView>,
    pub seat_seq: int,
    pub reservation_seq: int,
    pub user_seq: int,
}

/// Seat rows in increasing id order, each id at most `seq`.
pub open spec fn seat_ids_ordered(s: Seq<SeatView>, seq: int) -> bool {
    &&& forall|i: int, j: int| 0 <= i < j < s.len() ==> s[i].id < s[j].id
    &&& forall|i: int| 0 <= i < s.len() ==> s[i].id <= seq
}

/// The statuses a seat may have: `available`, `occupied`, `reserved`,
/// `disabled`.
pub open spec fn is_seat_status(t: Seq<char>) -> bool {
    t == "available"@ || t == "occupied"@ || t == "reserved"@ || t == "disabled"@
}

/// Every seat has one of the four statuses.
pub open spec fn seat_statuses_known(s: Seq<SeatView>) -> bool {
    forall|i: int| 0 <= i < s.len() ==> is_seat_status(#[trigger] s[i].status)
}

/// Decides `is_seat_status(t@)`.
pub fn is_known_status(t: &str) -> (r: bool)
    ensures
        r == is_seat_status(t@),
{
    text_equal(t, "available") || text_equal(t, "occupied") || text_equal(t, "reserved")
        || text_equal(t, "disabled")
}

/// No two seats share a seat number.
pub open spec fn seat_numbers_unique(s: Seq<SeatView>) -> bool {
    forall|i: int, j: int|
        0 <= i < s.len() && 0 <= j < s.len() && i != j ==> s[i].seat_number != s[j].seat_number
}

pub open spec fn reservation_ids_ordered(s: Seq<ReservationView>, seq: int) -> bool {
    &&& forall|i: int, j: int| 0 <= i < j < s.len() ==> s[i].id < s[j].id
    &&& forall|i: int| 0 <= i < s.len() ==> s[i].id <= seq
}

pub open spec fn user_ids_ordered(s: Seq<UserView>, seq: int) -> bool {
    &&& forall|i: int, j: int| 0 <= i < j < s.len() ==> s[i].id < s[j].id
    &&& forall|i: int| 0 <= i < s.len() ==> s[i].id <= seq
}

/// No two readers share a student number.
pub open spec fn student_ids_unique(s: Seq<UserView>) -> bool {
    forall|i: int, j: int|
        0 <= i < s.len() && 0 <= j < s.len() && i != j ==> s[i].student_id != s[j].student_id
}

impl LibraryView {
    /// The constraints of the tables: ids are keys handed out in increasing
    /// order and never above their sequence; seat numbers and student
    /// numbers are unique; every seat's status is one of the four.
    pub open spec fn wf(self) -> bool {
        &&& 0 <= self.seat_seq <= i64::MAX
        &&& 0 <= self.reservation_seq <= i64::MAX
        &&& 0 <= self.user_seq <= i64::MAX
        &&& seat_ids_ordered(self.seats, self.seat_seq)
        &&& seat_numbers_unique(self.seats)
        &&& seat_statuses_known(self.seats)
        &&& reservation_ids_ordered(self.reservations, self.reservation_seq)
        &&& user_ids_ordered(self.users, self.user_seq)
        &&& student_ids_unique(self.users)
    }
}

/// The service's data: seats, reservations and readers.
pub struct SeatLibrary {
    seats: Vec<Seat>,
    reservations: Vec<ReservationRow>,
    users: Vec<UserRow>,
    seat_seq: i64,
    reservation_seq: i64,
    user_seq: i64,
}

impl View for SeatLibrary {
    type V = LibraryView;

    closed spec fn view(&self) -> LibraryView {
        LibraryView {
            seats: seat_rows(self.seats@),
            reservations: reservation_rows(self.reservations@),
            users: user_rows(self.users@),
            seat_seq: self.seat_seq as int,
            reservation_seq: self.reservation_seq as int,
            user_seq: self.user_seq as int,
        }
    }
}

/// The sequence value that numbering resumes from: the stored sequence, or
/// the largest id if that is larger.
pub open spec fn resumed_seq(seq: int, last_id: Option<i32>) -> int {
    match last_id {
        Some(id) => if id > seq { id as int } else { seq },
        None => seq,
    }
}

pub open spec fn last_seat_id(s: Seq<SeatView>) -> Option<i32> {
    if s.len() == 0 { None } else { Some(s.last().id) }
}

pub open spec fn last_reservation_id(s: Seq<ReservationView>) -> Option<i32> {
    if s.len() == 0 { None } else { Some(s.last().id) }
}

pub open spec fn last_user_id(s: Seq<UserView>) -> Option<i32> {
    if s.len() == 0 { None } else { Some(s.last().id) }
}

/// Rows that can be taken as the tables: ids strictly increasing, seat
/// numbers and student numbers unique, seat statuses among the four,
/// sequences not negative.
pub open spec fn rows_acceptable(
    seats: Seq<SeatView>,
    reservations: Seq<ReservationView>,
    users: Seq<UserView>,
    seat_seq: int,
    reservation_seq: int,
    user_seq: int,
) -> bool {
    &&& seat_seq >= 0 && reservation_seq >= 0 && user_seq >= 0
    &&& forall|i: int, j: int| 0 <= i < j < seats.len() ==> seats[i].id < seats[j].id
    &&& forall|i: int, j: int| 0 <= i < j < reservations.len() ==> reservations[i].id < reservations[j].id
    &&& forall|i: int, j: int| 0 <= i < j < users.len() ==> users[i].id < users[j].id
    &&& seat_numbers_unique(seats)
    &&& seat_statuses_known(seats)
    &&& student_ids_unique(users)
}

impl SeatLibrary {
    pub open spec fn wf(&self) -> bool {
        self@.wf()
    }

    /// Empty tables.
    pub fn new() -> (r: SeatLibrary)
        ensures
            r.wf(),
            r@.seats.len() == 0,
            r@.reservations.len() == 0,
            r@.users.len() == 0,
            r@.seat_seq == 0,
            r@.reservation_seq == 0,
            r@.user_seq == 0,
    {
        SeatLibrary {
            seats: Vec::new(),
            reservations: Vec::new(),
            users: Vec::new(),
            seat_seq: 0,
            reservation_seq: 0,
            user_seq: 0,
        }
    }

    /// The seat rows, in id order.
    pub fn seats(&self) -> (r: &Vec<Seat>)
        ensures
            seat_rows(r@) == self@.seats,
    {
        &self.seats
    }

    /// The reservation rows, in id order.
    pub fn reservations(&self) -> (r: &Vec<ReservationRow>)
        ensures
            reservation_rows(r@) == self@.reservations,
    {
        &self.reservations
    }

    /// The reader rows, in id order.
    pub fn users(&self) -> (r: &Vec<UserRow>)
        ensures
            user_rows(r@) == self@.users,
    {
        &self.users
    }

    /// The largest seat id handed out so far.
    pub fn seat_seq(&self) -> (r: i64)
        ensures
            r == self@.seat_seq,
    {
        self.seat_seq
    }

    /// The largest reservation id handed out so far.
    pub fn reservation_seq(&self) -> (r: i64)
        ensures
            r == self@.reservation_seq,
    {
        self.reservation_seq
    }

    /// The largest reader id handed out so far.
    pub fn user_seq(&self) -> (r: i64)
        ensures
            r == self@.user_seq,
    {
        self.user_seq
    }
}


/// Decides whether the seat ids increase strictly along the rows.
fn seat_ids_increasing(v: &Vec<Seat>) -> (r: bool)
    ensures
        r == (forall|i: int, j: int| 0 <= i < j < v@.len() ==> v@[i].id < v@[j].id),
{
    let mut k: usize = 1;
    if v.len() == 0 {
        return true;
    }
    while k < v.len()
        invariant
            1 <= k <= v@.len(),
            forall|i: int, j: int| 0 <= i < j < k ==> v@[i].id < v@[j].id,
        decreases v@.len() - k,
    {
        if v[k - 1].id >= v[k].id {
            return false;
        }
        k = k + 1;
    }
    true
}

/// Decides whether the reservation ids increase strictly along the rows.
fn reservation_ids_increasing(v: &Vec<ReservationRow>) -> (r: bool)
    ensures
        r == (forall|i: int, j: int| 0 <= i < j < v@.len() ==> v@[i].id < v@[j].id),
{
    let mut k: usize = 1;
    if v.len() == 0 {
        return true;
    }
    while k < v.len()
        invariant
            1 <= k <= v@.len(),
            forall|i: int, j: int| 0 <= i < j < k ==> v@[i].id < v@[j].id,
        decreases v@.len() - k,
    {
        if v[k - 1].id >= v[k].id {
            return false;
        }
        k = k + 1;
    }
    true
}

/// Decides whether the reader ids increase strictly along the rows.
fn user_ids_increasing(v: &Vec<UserRow>) -> (r: bool)
    ensures
        r == (forall|i: int, j: int| 0 <= i < j < v@.len() ==> v@[i].id < v@[j].id),
{
    let mut k: usize = 1;
    if v.len() == 0 {
        return true;
    }
    while k < v.len()
        invariant
            1 <= k <= v@.len(),
            forall|i: int, j: int| 0 <= i < j < k ==> v@[i].id < v@[j].id,
        decreases v@.len() - k,
    {
        if v[k - 1].id >= v[k].id {
            return false;
        }
        k = k + 1;
    }
    true
}

/// Decides whether no two seats share a seat number.
fn seat_numbers_distinct(v: &Vec<Seat>) -> (r: bool)
    ensures
        r == seat_numbers_unique(seat_rows(v@)),
{
    let n = v.len();
    let mut j: usize = 0;
    while j < n
        invariant
            n == v@.len(),
            j <= n,
            forall|a: int, b: int|
                0 <= a < j && 0 <= b < n && a != b ==> v@[a].seat_number@ != v@[b].seat_number@,
        decreases n - j,
    {
        let mut k: usize = 0;
        while k < n
            invariant
                n == v@.len(),
                j < n,
                k <= n,
                forall|a: int, b: int|
                    0 <= a < j && 0 <= b < n && a != b ==> v@[a].seat_number@ != v@[b].seat_number@,
                forall|b: int| 0 <= b < k && b != j ==> v@[j as int].seat_number@ != v@[b].seat_number@,
            decreases n - k,
        {
            if k != j && text_equal(v[j].seat_number.as_str(), v[k].seat_number.as_str()) {
                assert(!seat_numbers_unique(seat_rows(v@))) by {
                    assert(seat_rows(v@)[j as int].seat_number == seat_rows(v@)[k as int].seat_number);
                }
                return false;
            }
            k = k + 1;
        }
        j = j + 1;
    }
    true
}

/// Decides whether every seat has one of the four statuses.
fn seat_statuses_checked(v: &Vec<Seat>) -> (r: bool)
    ensures
        r == seat_statuses_known(seat_rows(v@)),
{
    let n = v.len();
    let mut i: usize = 0;
    while i < n
        invariant
            n == v@.len(),
            i <= n,
            forall|k: int| 0 <= k < i ==> is_seat_status(#[trigger] v@[k].status@),
        decreases n - i,
    {
        if !is_known_status(v[i].status.as_str()) {
            assert(!seat_statuses_known(seat_rows(v@))) by {
                assert(seat_rows(v@)[i as int].status == v@[i as int].status@);
            }
            return false;
        }
        i = i + 1;
    }
    assert forall|k: int| 0 <= k < n implies is_seat_status(#[trigger] seat_rows(v@)[k].status) by {
        assert(seat_rows(v@)[k].status == v@[k].status@);
    }
    true
}

/// Decides whether no two readers share a student number.
fn student_ids_distinct(v: &Vec<UserRow>) -> (r: bool)
    ensures
        r == student_ids_unique(user_rows(v@)),
{
    let n = v.len();
    let mut j: usize = 0;
    while j < n
        invariant
            n == v@.len(),
            j <= n,
            forall|a: int, b: int|
                0 <= a < j && 0 <= b < n && a != b ==> v@[a].student_id@ != v@[b].student_id@,
        decreases n - j,
    {
        let mut k: usize = 0;
        while k < n
            invariant
                n == v@.len(),
                j < n,
                k <= n,
                forall|a: int, b: int|
                    0 <= a < j && 0 <= b < n && a != b ==> v@[a].student_id@ != v@[b].student_id@,
                forall|b: int| 0 <= b < k && b != j ==> v@[j as int].student_id@ != v@[b].student_id@,
            decreases n - k,
        {
            if k != j && text_equal(v[j].student_id.as_str(), v[k].student_id.as_str()) {
                assert(!student_ids_unique(user_rows(v@))) by {
                    assert(user_rows(v@)[j as int].student_id == user_rows(v@)[k as int].student_id);
                }
                return false;
            }
            k = k + 1;
        }
        j = j + 1;
    }
    true
}

impl SeatLibrary {
    /// Takes rows read back from storage as the tables. Refuses them when ids
    /// do not increase, when a seat number or a student number occurs twice,
    /// when a seat has a status outside the four, or when a sequence is
    /// negative. Numbering resumes above both the
    /// stored sequence and the largest id, as SQLite's AUTOINCREMENT does.
    pub fn from_rows(
        seats: Vec<Seat>,
        reservations: Vec<ReservationRow>,
        users: Vec<UserRow>,
        seat_seq: i64,
        reservation_seq: i64,
        user_seq: i64,
    ) -> (r: Option<SeatLibrary>)
        ensures
            r is Some <==> rows_acceptable(
                seat_rows(seats@),
                reservation_rows(reservations@),
                user_rows(users@),
                seat_seq as int,
                reservation_seq as int,
                user_seq as int,
            ),
            r matches Some(lib) ==> {
                &&& lib.wf()
                &&& lib@.seats == seat_rows(seats@)
                &&& lib@.reservations == reservation_rows(reservations@)
                &&& lib@.users == user_rows(users@)
                &&& lib@.seat_seq == resumed_seq(seat_seq as int, last_seat_id(seat_rows(seats@)))
                &&& lib@.reservation_seq == resumed_seq(
                    reservation_seq as int,
                    last_reservation_id(reservation_rows(reservations@)),
                )
                &&& lib@.user_seq == resumed_seq(user_seq as int, last_user_id(user_rows(users@)))
            },
    {
        let ok = seat_seq >= 0 && reservation_seq >= 0 && user_seq >= 0
            && seat_ids_increasing(&seats) && reservation_ids_increasing(&reservations)
            && user_ids_increasing(&users) && seat_numbers_distinct(&seats)
            && seat_statuses_checked(&seats)
            && student_ids_distinct(&users);
        proof {
            let sv = seat_rows(seats@);
            let rv = reservation_rows(reservations@);
            let uv = user_rows(users@);
            assert(forall|i: int| 0 <= i < seats@.len() ==> sv[i].id == #[trigger] seats@[i].id);
            assert(forall|i: int| 0 <= i < reservations@.len() ==> rv[i].id == #[trigger] reservations@[i].id);
            assert(forall|i: int| 0 <= i < users@.len() ==> uv[i].id == #[trigger] users@[i].id);
        }
        if !ok {
            return None;
        }
        let mut s_seq = seat_seq;
        if seats.len() > 0 && seats[seats.len() - 1].id as i64 > s_seq {
            s_seq = seats[seats.len() - 1].id as i64;
        }
        let mut r_seq = reservation_seq;
        if reservations.len() > 0 && reservations[reservations.len() - 1].id as i64 > r_seq {
            r_seq = reservations[reservations.len() - 1].id as i64;
        }
        let mut u_seq = user_seq;
        if users.len() > 0 && users[users.len() - 1].id as i64 > u_seq {
            u_seq = users[users.len() - 1].id as i64;
        }
        let lib = SeatLibrary {
            seats,
            reservations,
            users,
            seat_seq: s_seq,
            reservation_seq: r_seq,
            user_seq: u_seq,
        };
        proof {
            let lv = lib@;
            assert forall|i: int| 0 <= i < lv.seats.len() implies lv.seats[i].id <= lv.seat_seq by {
                if i < lv.seats.len() - 1 {
                    assert(lv.seats[i].id < lv.seats[lv.seats.len() - 1].id);
                }
            }
            assert forall|i: int| 0 <= i < lv.reservations.len() implies lv.reservations[i].id
                <= lv.reservation_seq by {
                if i < lv.reservations.len() - 1 {
                    assert(lv.reservations[i].id < lv.reservations[lv.reservations.len() - 1].id);
                }
            }
            assert forall|i: int| 0 <= i < lv.users.len() implies lv.users[i].id <= lv.user_seq by {
                if i < lv.users.len() - 1 {
                    assert(lv.users[i].id < lv.users[lv.users.len() - 1].id);
                }
            }
        }
        Some(lib)
    }
}


/// Appending a seat with the next id, a free number and a known status
/// keeps the seat table's constraints.
pub proof fn lemma_seat_appended(s: Seq<SeatView>, seq: int, x: SeatView)
    requires
        seat_ids_ordered(s, seq),
        seat_numbers_unique(s),
        seat_statuses_known(s),
        x.id == seq + 1,
        !seat_number_taken(s, x.seat_number),
        is_seat_status(x.status),
    ensures
        seat_ids_ordered(s.push(x), seq + 1),
        seat_numbers_unique(s.push(x)),
        seat_statuses_known(s.push(x)),
{
    let t = s.push(x);
    assert forall|i: int, j: int| 0 <= i < t.len() && 0 <= j < t.len() && i != j implies t[i].seat_number
        != t[j].seat_number by {
        if i == s.len() {
            assert(s[j].seat_number == t[j].seat_number);
        } else if j == s.len() {
            assert(s[i].seat_number == t[i].seat_number);
        }
    }
}

/// Replacing a seat by one with the same id, a known status, and either
/// its old number or one no other seat carries keeps the constraints.
pub proof fn lemma_seat_replaced(s: Seq<SeatView>, seq: int, k: int, x: SeatView)
    requires
        seat_ids_ordered(s, seq),
        seat_numbers_unique(s),
        seat_statuses_known(s),
        0 <= k < s.len(),
        x.id == s[k].id,
        x.seat_number == s[k].seat_number || !number_taken_by_other(s, x.id, x.seat_number),
        is_seat_status(x.status),
    ensures
        seat_ids_ordered(s.update(k, x), seq),
        seat_numbers_unique(s.update(k, x)),
        seat_statuses_known(s.update(k, x)),
{
    let t = s.update(k, x);
    assert forall|i: int, j: int| 0 <= i < j < t.len() implies t[i].id < t[j].id by {
        assert(s[i].id < s[j].id);
    }
    assert forall|i: int, j: int| 0 <= i < t.len() && 0 <= j < t.len() && i != j implies t[i].seat_number
        != t[j].seat_number by {
        if i == k || j == k {
            let o = if i == k { j } else { i };
            if x.seat_number != s[k].seat_number {
                assert(s[o].id != x.id);
            } else {
                assert(s[o].seat_number != s[k].seat_number);
            }
        }
    }
}

/// Removing a seat keeps the constraints.
pub proof fn lemma_seat_removed(s: Seq<SeatView>, seq: int, k: int)
    requires
        seat_ids_ordered(s, seq),
        seat_numbers_unique(s),
        seat_statuses_known(s),
        0 <= k < s.len(),
    ensures
        seat_ids_ordered(s.remove(k), seq),
        seat_numbers_unique(s.remove(k)),
        seat_statuses_known(s.remove(k)),
{
    let t = s.remove(k);
    s.remove_ensures(k);
    assert forall|i: int, j: int| 0 <= i < j < t.len() implies t[i].id < t[j].id by {
        let a = if i < k { i } else { i + 1 };
        let b = if j < k { j } else { j + 1 };
        assert(s[a].id < s[b].id);
    }
    assert forall|i: int| 0 <= i < t.len() implies t[i].id <= seq by {
        if i >= k {
            assert(s[i + 1].id <= seq);
        }
    }
    assert forall|i: int, j: int| 0 <= i < t.len() && 0 <= j < t.len() && i != j implies t[i].seat_number
        != t[j].seat_number by {
        let a = if i < k { i } else { i + 1 };
        let b = if j < k { j } else { j + 1 };
        assert(t[i] == s[a]);
        assert(t[j] == s[b]);
    }
    assert forall|i: int| 0 <= i < t.len() implies is_seat_status(#[trigger] t[i].status) by {
        let a = if i < k { i } else { i + 1 };
        assert(t[i] == s[a]);
    }
}

/// Replacing a reservation by one with the same id keeps the ids ordered.
pub proof fn lemma_reservation_replaced(rs: Seq<ReservationView>, seq: int, k: int, x: ReservationView)
    requires
        reservation_ids_ordered(rs, seq),
        0 <= k < rs.len(),
        x.id == rs[k].id,
    ensures
        reservation_ids_ordered(rs.update(k, x), seq),
{
    let t = rs.update(k, x);
    assert forall|i: int, j: int| 0 <= i < j < t.len() implies t[i].id < t[j].id by {
        assert(rs[i].id < rs[j].id);
    }
}

/// Appending a reader with the next id and a free student number keeps the
/// reader table's constraints.
pub proof fn lemma_user_appended(us: Seq<UserView>, seq: int, x: UserView)
    requires
        user_ids_ordered(us, seq),
        student_ids_unique(us),
        x.id == seq + 1,
        forall|i: int| 0 <= i < us.len() ==> us[i].student_id != x.student_id,
    ensures
        user_ids_ordered(us.push(x), seq + 1),
        student_ids_unique(us.push(x)),
{
    let t = us.push(x);
    assert forall|i: int, j: int| 0 <= i < t.len() && 0 <= j < t.len() && i != j implies t[i].student_id
        != t[j].student_id by {
        if i == us.len() {
            assert(us[j].student_id == t[j].student_id);
        } else if j == us.len() {
            assert(us[i].student_id == t[i].student_id);
        }
    }
}

impl SeatLibrary {
    /// Appends a seat that carries the next seat id, a number no seat has
    /// and a known status.
    pub(crate) fn append_seat(&mut self, seat: Seat)
        requires
            old(self).wf(),
            old(self)@.seat_seq < i32::MAX,
            seat.id == old(self)@.seat_seq + 1,
            !seat_number_taken(old(self)@.seats, seat.seat_number@),
            is_seat_status(seat.status@),
        ensures
            final(self).wf(),
            final(self)@ == (LibraryView {
                seats: old(self)@.seats.push(seat@),
                seat_seq: old(self)@.seat_seq + 1,
                ..old(self)@
            }),
    {
        proof {
            lemma_seat_appended(old(self)@.seats, old(self)@.seat_seq, seat@);
        }
        self.seat_seq = self.seat_seq + 1;
        self.seats.push(seat);
        proof {
            assert(seat_rows(self.seats@) =~= seat_rows(old(self).seats@).push(seat@));
        }
    }

    /// Replaces the seat row at position `k` by one with the same id, a
    /// known status, and its old number or one no other seat carries.
    pub(crate) fn replace_seat(&mut self, k: usize, seat: Seat)
        requires
            old(self).wf(),
            k < old(self)@.seats.len(),
            seat.id == old(self)@.seats[k as int].id,
            seat.seat_number@ == old(self)@.seats[k as int].seat_number || !number_taken_by_other(
                old(self)@.seats,
                seat.id,
                seat.seat_number@,
            ),
            is_seat_status(seat.status@),
        ensures
            final(self).wf(),
            final(self)@ == (LibraryView { seats: old(self)@.seats.update(k as int, seat@), ..old(self)@ }),
    {
        proof {
            lemma_seat_replaced(old(self)@.seats, old(self)@.seat_seq, k as int, seat@);
        }
        self.seats.set(k, seat);
        proof {
            assert(seat_rows(self.seats@) =~= seat_rows(old(self).seats@).update(k as int, seat@));
        }
    }

    /// Removes the seat row at position `k`.
    pub(crate) fn remove_seat(&mut self, k: usize)
        requires
            old(self).wf(),
            k < old(self)@.seats.len(),
        ensures
            final(self).wf(),
            final(self)@ == (LibraryView { seats: old(self)@.seats.remove(k as int), ..old(self)@ }),
    {
        proof {
            lemma_seat_removed(old(self)@.seats, old(self)@.seat_seq, k as int);
        }
        self.seats.remove(k);
        proof {
            assert(seat_rows(self.seats@) =~= seat_rows(old(self).seats@).remove(k as int));
        }
    }

    /// Appends a reservation that carries the next reservation id.
    pub(crate) fn append_reservation(&mut self, row: ReservationRow)
        requires
            old(self).wf(),
            old(self)@.reservation_seq < i32::MAX,
            row.id == old(self)@.reservation_seq + 1,
        ensures
            final(self).wf(),
            final(self)@ == (LibraryView {
                reservations: old(self)@.reservations.push(row@),
                reservation_seq: old(self)@.reservation_seq + 1,
                ..old(self)@
            }),
    {
        self.reservation_seq = self.reservation_seq + 1;
        self.reservations.push(row);
        proof {
            assert(reservation_rows(self.reservations@) =~= reservation_rows(old(self).reservations@).push(row@));
        }
    }

    /// Replaces the reservation row at position `k` by one with the same id.
    pub(crate) fn replace_reservation(&mut self, k: usize, row: ReservationRow)
        requires
            old(self).wf(),
            k < old(self)@.reservations.len(),
            row.id == old(self)@.reservations[k as int].id,
        ensures
            final(self).wf(),
            final(self)@ == (LibraryView {
                reservations: old(self)@.reservations.update(k as int, row@),
                ..old(self)@
            }),
    {
        proof {
            lemma_reservation_replaced(old(self)@.reservations, old(self)@.reservation_seq, k as int, row@);
        }
        self.reservations.set(k, row);
        proof {
            assert(reservation_rows(self.reservations@) =~= reservation_rows(old(self).reservations@).update(k as int, row@));
        }
    }

    /// Appends a reader that carries the next reader id and a student number
    /// no reader has.
    pub(crate) fn append_user(&mut self, row: UserRow)
        requires
            old(self).wf(),
            old(self)@.user_seq < i32::MAX,
            row.id == old(self)@.user_seq + 1,
            forall|i: int| 0 <= i < old(self)@.users.len() ==> old(self)@.users[i].student_id != row.student_id@,
        ensures
            final(self).wf(),
            final(self)@ == (LibraryView {
                users: old(self)@.users.push(row@),
                user_seq: old(self)@.user_seq + 1,
                ..old(self)@
            }),
    {
        proof {
            lemma_user_appended(old(self)@.users, old(self)@.user_seq, row@);
        }
        self.user_seq = self.user_seq + 1;
        self.users.push(row);
        proof {
            assert(user_rows(self.users@) =~= user_rows(old(self).users@).push(row@));
        }
    }
}

} // verus!
