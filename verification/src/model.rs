//! Roles, statuses, the authenticated caller and the error a request is
//! answered with.
use vstd::prelude::*;
use vstd::arithmetic::power::pow;

verus! {

/// Account role.
#[derive(Clone, Copy, Debug, PartialEq, Eq, Structural)]
pub enum UserRole {
    Student,
    Teacher,
    Admin,
}

/// Publication state of a course.
#[derive(Clone, Copy, Debug, PartialEq, Eq, Structural)]
pub enum CourseStatus {
    Draft,
    Published,
    Archived,
}

/// Processing state of an uploaded video.
#[derive(Clone, Copy, Debug, PartialEq, Eq, Structural)]
pub enum VideoStatus {
    Pending,
    Processing,
    Ready,
    Failed,
}

/// State of one resolution's transcoding task.
#[derive(Clone, Copy, Debug, PartialEq, Eq, Structural)]
pub enum TranscodeStatus {
    Pending,
    Processing,
    Done,
    Failed,
}

/// Kind of a question in the question bank.
#[derive(Clone, Copy, Debug, PartialEq, Eq, Structural)]
pub enum QuestionType {
    SingleChoice,
    MultipleChoice,
    TrueFalse,
    Essay,
}

/// The caller of an authenticated request; ids are the 128-bit values of UUIDs.
#[derive(Clone, Copy, Debug, PartialEq, Eq, Structural)]
pub struct AuthContext {
    pub user_id: u128,
    pub role: UserRole,
}

/// The roles a group of routes admits.
#[derive(Clone, Debug)]
pub struct AllowedRoles(pub Vec<UserRole>);

impl View for AllowedRoles {
    type V = Seq<UserRole>;

    open spec fn view(&self) -> Seq<UserRole> {
        self.0@
    }
}

impl AllowedRoles {
    /// The set of admitted roles, in the order given.
    pub fn new(roles: Vec<UserRole>) -> (r: Self)
        ensures
            r@ == roles@,
    {
        AllowedRoles(roles)
    }

    /// Whether `role` is admitted.
    pub fn contains(&self, role: &UserRole) -> (r: bool)
        ensures
            r == self@.contains(*role),
    {
        let mut i: usize = 0;
        while i < self.0.len()
            invariant
                i <= self@.len(),
                forall|k: int| 0 <= k < i ==> self@[k] != *role,
            decreases self@.len() - i,
        {
            if self.0[i] == *role {
                assert(self@[i as int] == *role);
                return true;
            }
            i = i + 1;
        }
        false
    }
}

/// HTTP status classes the service answers failures with.
#[derive(Clone, Copy, Debug, PartialEq, Eq, Structural)]
pub enum Status {
    BadRequest,
    Unauthorized,
    Forbidden,
    NotFound,
    Conflict,
    UnprocessableEntity,
    InternalServerError,
    BadGateway,
}

/// The numeric HTTP code of a status.
pub open spec fn status_code(s: Status) -> u16 {
    match s {
        Status::BadRequest => 400,
        Status::Unauthorized => 401,
        Status::Forbidden => 403,
        Status::NotFound => 404,
        Status::Conflict => 409,
        Status::UnprocessableEntity => 422,
        Status::InternalServerError => 500,
        Status::BadGateway => 502,
    }
}

impl Status {
    /// The numeric HTTP code.
    pub fn code(&self) -> (r: u16)
        ensures
            r == status_code(*self),
    {
        match self {
            Status::BadRequest => 400,
            Status::Unauthorized => 401,
            Status::Forbidden => 403,
            Status::NotFound => 404,
            Status::Conflict => 409,
            Status::UnprocessableEntity => 422,
            Status::InternalServerError => 500,
            Status::BadGateway => 502,
        }
    }
}

/// A refused or failed request: its status and the message shown to the client.
#[derive(Debug)]
pub struct ApiError {
    pub status: Status,
    pub message: String,
}

/// An error with the given status and message text.
pub fn api_error(status: Status, message: &str) -> (e: ApiError)
    ensures
        e.status == status,
        e.message@ == message@,
{
    ApiError { status, message: String::from_str(message) }
}

/// The lower-case hexadecimal digit for `n` (`0 <= n < 16`).
pub open spec fn hex_digit(n: int) -> char {
    if n < 10 {
        (('0' as int) + n) as char
    } else {
        (('a' as int) + n - 10) as char
    }
}

/// The `j`-th hexadecimal digit of `id`, most significant first (`0 <= j < 32`).
pub open spec fn nibble(id: u128, j: int) -> int {
    ((id as int) / pow(16, (31 - j) as nat)) % 16
}

/// The character at position `i` of the hyphenated lower-case form of a UUID:
/// digits in groups of 8-4-4-4-12 separated by hyphens.
pub open spec fn uuid_char(id: u128, i: int) -> char {
    if i == 8 || i == 13 || i == 18 || i == 23 {
        '-'
    } else if i < 8 {
        hex_digit(nibble(id, i))
    } else if i < 13 {
        hex_digit(nibble(id, i - 1))
    } else if i < 18 {
        hex_digit(nibble(id, i - 2))
    } else if i < 23 {
        hex_digit(nibble(id, i - 3))
    } else {
        hex_digit(nibble(id, i - 4))
    }
}

/// The 36-character hyphenated lower-case text of a UUID.
pub open spec fn uuid_text_of(id: u128) -> Seq<char> {
    Seq::new(36, |i: int| uuid_char(id, i))
}

/// Calls `uuid::Uuid::from_u128` and its `Display` (`to_string`), which writes
/// the hyphenated lower-case form.
#[verifier::external_body]
pub(crate) fn uuid_text(id: u128) -> (r: String)
    ensures
        r@ == uuid_text_of(id),
{
    uuid::Uuid::from_u128(id).to_string()
}

} // verus!
