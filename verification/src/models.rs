//! The records and request bodies that the service exchanges.
use vstd::prelude::*;

verus! {

// ---------- requests of the user accounts ----------

/// Sign-up request of a reader (student or staff number, name, password,
/// e-mail and an optional phone number).
pub struct RegisterRequest {
    pub student_id: String,
    pub username: String,
    pub password: String,
    pub email: String,
    pub phone: Option<String>,
}

/// Sign-in request.
pub struct LoginRequest {
    pub student_id: String,
    pub password: String,
}

/// Password change request.
pub struct ChangePasswordRequest {
    pub old_password: String,
    pub new_password: String,
}

/// Profile update request.
pub struct UpdateUserRequest {
    pub email: Option<String>,
    pub phone: Option<String>,
}

/// What a successful sign-in returns.
pub struct LoginResponse {
    pub token: String,
    pub user: UserInfo,
}

/// A reader's profile, without the password.
pub struct UserInfo {
    pub id: i32,
    pub student_id: String,
    pub username: String,
    pub email: String,
    pub phone: Option<String>,
    pub role: String,
}

/// Claims of a session token: the reader's number, id, role (`admin` or
/// `student`) and the expiry timestamp.
pub struct Claims {
    pub sub: String,
    pub user_id: i32,
    pub role: String,
    pub exp: usize,
}

// ---------- seats ----------

/// A seat of the reading room. `status` is one of `available`, `occupied`,
/// `reserved`, `disabled`.
pub struct Seat {
    pub id: i32,
    pub seat_number: String,
    pub area: String,
    pub status: String,
    pub x_coord: Option<i32>,
    pub y_coord: Option<i32>,
    pub created_at: String,
    pub updated_at: String,
}

/// A seat as a mathematical value.
pub struct SeatView {
    pub id: i32,
    pub seat_number: Seq<char>,
    pub area: Seq<char>,
    pub status: Seq<char>,
    pub x_coord: Option<i32>,
    pub y_coord: Option<i32>,
    pub created_at: Seq<char>,
    pub updated_at: Seq<char>,
}

impl View for Seat {
    type V = SeatView;

    open spec fn view(&self) -> SeatView {
        SeatView {
            id: self.id,
            seat_number: self.seat_number@,
            area: self.area@,
            status: self.status@,
            x_coord: self.x_coord,
            y_coord: self.y_coord,
            created_at: self.created_at@,
            updated_at: self.updated_at@,
        }
    }
}

impl Seat {
    /// A field-by-field copy.
    pub(crate) fn copy(&self) -> (r: Seat)
        ensures
            r@ == self@,
    {
        Seat {
            id: self.id,
            seat_number: self.seat_number.clone(),
            area: self.area.clone(),
            status: self.status.clone(),
            x_coord: self.x_coord,
            y_coord: self.y_coord,
            created_at: self.created_at.clone(),
            updated_at: self.updated_at.clone(),
        }
    }
}

/// Request to add a seat.
pub struct CreateSeatRequest {
    pub seat_number: String,
    pub area: String,
    pub x_coord: Option<i32>,
    pub y_coord: Option<i32>,
}

/// Request to change a seat; each field that is present is written, except
/// a seat number another seat carries and a status outside the four.
pub struct UpdateSeatRequest {
    pub seat_number: Option<String>,
    pub area: Option<String>,
    pub status: Option<String>,
    pub x_coord: Option<i32>,
    pub y_coord: Option<i32>,
}

/// Filters of the seat list.
pub struct GetSeatsQuery {
    pub area: Option<String>,
    pub status: Option<String>,
}

/// Time window (RFC 3339 texts) of the free-seat list.
pub struct AvailableSeatsQuery {
    pub start_time: Option<String>,
    pub end_time: Option<String>,
}

// ---------- reservations ----------

/// A reservation joined with its seat's number and area. `status` is one
/// of `pending`, `active`, `completed`, `cancelled`, `expired`.
pub struct Reservation {
    pub id: i32,
    pub user_id: i32,
    pub seat_id: i32,
    pub seat_number: String,
    pub area: String,
    pub start_time: String,
    pub end_time: String,
    pub status: String,
    pub created_at: String,
    pub updated_at: String,
}

/// Request to book a seat for a time window given in RFC 3339.
pub struct CreateReservationRequest {
    pub seat_id: i32,
    pub start_time: String,
    pub end_time: String,
}

/// Request to lengthen a reservation by whole hours.
pub struct ExtendReservationRequest {
    pub extra_hours: i32,
}

// ---------- attendance ----------

/// Request to leave a seat.
pub struct CheckoutRequest {
    pub reservation_id: i32,
}

/// A reader's attendance state.
pub struct AttendanceStatus {
    pub is_checked_in: bool,
    pub reservation_id: Option<i32>,
    pub seat_id: Option<i32>,
    pub seat_number: Option<String>,
    pub checkin_time: Option<String>,
    pub checkout_time: Option<String>,
    pub start_time: Option<String>,
    pub end_time: Option<String>,
}

/// Reply to a check-in.
pub struct CheckinResponse {
    pub reservation_id: i32,
    pub checkin_time: String,
    pub message: String,
}

/// Reply to a check-out.
pub struct CheckoutResponse {
    pub reservation_id: i32,
    pub checkout_time: String,
    pub duration_minutes: i64,
    pub message: String,
}

} // verus!
