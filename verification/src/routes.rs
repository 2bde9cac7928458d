use crate::types::{DbEntry, DbError};
use vstd::prelude::*;
use vstd::string::StringExecFns;

verus! {

/// The decimal digit character for `d`.
pub open spec fn digit_char(d: nat) -> char {
    if d == 0 {
        '0'
    } else if d == 1 {
        '1'
    } else if d == 2 {
        '2'
    } else if d == 3 {
        '3'
    } else if d == 4 {
        '4'
    } else if d == 5 {
        '5'
    } else if d == 6 {
        '6'
    } else if d == 7 {
        '7'
    } else if d == 8 {
        '8'
    } else {
        '9'
    }
}

/// The decimal representation of `n`, most significant digit first, with no
/// leading zeros (a single zero for 0).
pub open spec fn dec_rep(n: nat) -> Seq<char>
    decreases n,
{
    if n < 10 {
        seq![digit_char(n)]
    } else {
        dec_rep(n / 10).push(digit_char(n % 10))
    }
}

/// The path of the detail page for the entry with this id.
pub open spec fn entries_path(id: u32) -> Seq<char> {
    "/entries/"@ + dec_rep(id as nat)
}

fn digit_str(d: u32) -> (r: &'static str)
    requires
        d < 10,
    ensures
        r@ == seq![digit_char(d as nat)],
{
    proof {
        reveal_strlit("0");
        reveal_strlit("1");
        reveal_strlit("2");
        reveal_strlit("3");
        reveal_strlit("4");
        reveal_strlit("5");
        reveal_strlit("6");
        reveal_strlit("7");
        reveal_strlit("8");
        reveal_strlit("9");
    }
    let r: &'static str = if d == 0 {
        "0"
    } else if d == 1 {
        "1"
    } else if d == 2 {
        "2"
    } else if d == 3 {
        "3"
    } else if d == 4 {
        "4"
    } else if d == 5 {
        "5"
    } else if d == 6 {
        "6"
    } else if d == 7 {
        "7"
    } else if d == 8 {
        "8"
    } else {
        "9"
    };
    assert(r@ =~= seq![digit_char(d as nat)]);
    r
}

/// `n` written in decimal.
pub fn u32_dec_str(n: u32) -> (r: String)
    ensures
        r@ == dec_rep(n as nat),
    decreases n,
{
    if n < 10 {
        digit_str(n).to_owned()
    } else {
        let mut s = u32_dec_str(n / 10);
        s.append(digit_str(n % 10));
        proof {
            assert(s@ =~= dec_rep(n as nat));
        }
        s
    }
}

/// The URL of the detail page for the entry with this id.
pub fn entries_url(id: u32) -> (r: String)
    ensures
        r@ == entries_path(id),
{
    let mut s = "/entries/".to_owned();
    let d = u32_dec_str(id);
    s.append(d.as_str());
    s
}

/// The HTTP status each data-access error kind maps to: missing rows are
/// 404, malformed or constraint-violating input is 400, everything that
/// points at the store itself (connectivity, corrupt rows, a write touching
/// several rows) is 500.
pub open spec fn status_of(e: DbError) -> u16 {
    match e {
        DbError::Connectivity => 500,
        DbError::NotFound => 404,
        DbError::ConstraintViolation => 400,
        DbError::InvalidInput => 400,
        DbError::Decode => 500,
        DbError::Invariant => 500,
    }
}

/// The body a failure response carries, by status.
pub open spec fn status_message(s: u16) -> Seq<char> {
    if s == 404 {
        "entry not found"@
    } else if s == 400 {
        "invalid request"@
    } else {
        "internal server error"@
    }
}

pub fn error_status(e: &DbError) -> (s: u16)
    ensures
        s == status_of(*e),
{
    match e {
        DbError::Connectivity => 500,
        DbError::NotFound => 404,
        DbError::ConstraintViolation => 400,
        DbError::InvalidInput => 400,
        DbError::Decode => 500,
        DbError::Invariant => 500,
    }
}

/// What a route handler answers: a page to render (with its payload), a
/// redirect, or a failure status with its body.
pub enum Reply {
    RenderIndex { entries: Vec<DbEntry>, addr: String },
    RenderEntry { entry: DbEntry, addr: String },
    RenderNewEntry { addr: String },
    Redirect { location: String },
    Failure { status: u16, message: String },
}

/// A `Failure` reply for this error kind, with the matching body.
pub fn failure_for(e: &DbError) -> (reply: Reply)
    ensures
        (reply matches Reply::Failure { status, message } && status == status_of(*e) && message@
            == status_message(status_of(*e))),
{
    let status = error_status(e);
    let message: String = if status == 404 {
        "entry not found".to_owned()
    } else if status == 400 {
        "invalid request".to_owned()
    } else {
        "internal server error".to_owned()
    };
    Reply::Failure { status, message }
}

fn not_found_reply() -> (reply: Reply)
    ensures
        (reply matches Reply::Failure { status, message } && status == 404 && message@
            == status_message(404)),
{
    Reply::Failure { status: 404, message: "entry not found".to_owned() }
}

fn invariant_reply() -> (reply: Reply)
    ensures
        (reply matches Reply::Failure { status, message } && status == 500 && message@
            == status_message(500)),
{
    Reply::Failure { status: 500, message: "internal server error".to_owned() }
}

/// The listing route: render the index with all entries on success, answer
/// with the error's status on failure.
pub fn index_reply(r: Result<Vec<DbEntry>, DbError>, addr: String) -> (reply: Reply)
    ensures
        (match r {
            Ok(entries) => reply == (Reply::RenderIndex { entries, addr }),
            Err(e) => (reply matches Reply::Failure { status, message } && status == status_of(e)
                && message@ == status_message(status_of(e))),
        }),
{
    match r {
        Ok(entries) => Reply::RenderIndex { entries, addr },
        Err(e) => failure_for(&e),
    }
}

/// The detail route: render the entry when it exists, 404 when it does not,
/// the error's status on failure. A missing row is never reported as a
/// store failure.
pub fn get_entry_reply(r: Result<Option<DbEntry>, DbError>, addr: String) -> (reply: Reply)
    ensures
        (match r {
            Ok(Some(entry)) => reply == (Reply::RenderEntry { entry, addr }),
            Ok(None) => (reply matches Reply::Failure { status, message } && status == 404
                && message@ == status_message(404)),
            Err(e) => (reply matches Reply::Failure { status, message } && status == status_of(e)
                && message@ == status_message(status_of(e))),
        }),
{
    match r {
        Ok(Some(entry)) => Reply::RenderEntry { entry, addr },
        Ok(None) => not_found_reply(),
        Err(e) => failure_for(&e),
    }
}

/// The creation form route: always renders the blank form.
pub fn new_entry_reply(addr: String) -> (reply: Reply)
    ensures
        reply == (Reply::RenderNewEntry { addr }),
{
    Reply::RenderNewEntry { addr }
}

/// The create route: redirect to the new entry's page on success, answer
/// with the error's status on failure.
pub fn create_reply(r: Result<u32, DbError>) -> (reply: Reply)
    ensures
        (match r {
            Ok(id) => (reply matches Reply::Redirect { location } && location@ == entries_path(
                id,
            )),
            Err(e) => (reply matches Reply::Failure { status, message } && status == status_of(e)
                && message@ == status_message(status_of(e))),
        }),
{
    match r {
        Ok(id) => Reply::Redirect { location: entries_url(id) },
        Err(e) => failure_for(&e),
    }
}

/// The update route, from the affected count: exactly one row is success
/// and redirects back to the entry; zero rows is 404; more than one row
/// breaks the uniqueness invariant and is answered 500.
pub fn update_reply(id: u32, r: Result<u64, DbError>) -> (reply: Reply)
    ensures
        (match r {
            Ok(n) => if n == 1 {
                (reply matches Reply::Redirect { location } && location@ == entries_path(id))
            } else if n == 0 {
                (reply matches Reply::Failure { status, message } && status == 404 && message@
                    == status_message(404))
            } else {
                (reply matches Reply::Failure { status, message } && status == 500 && message@
                    == status_message(500))
            },
            Err(e) => (reply matches Reply::Failure { status, message } && status == status_of(e)
                && message@ == status_message(status_of(e))),
        }),
{
    match r {
        Ok(n) => {
            if n == 1 {
                Reply::Redirect { location: entries_url(id) }
            } else if n == 0 {
                not_found_reply()
            } else {
                invariant_reply()
            }
        },
        Err(e) => failure_for(&e),
    }
}

/// The delete route, from the affected count: exactly one row redirects to
/// the listing; zero rows is 404; more than one row is answered 500.
pub fn delete_reply(r: Result<u64, DbError>) -> (reply: Reply)
    ensures
        (match r {
            Ok(n) => if n == 1 {
                (reply matches Reply::Redirect { location } && location@ == "/"@)
            } else if n == 0 {
                (reply matches Reply::Failure { status, message } && status == 404 && message@
                    == status_message(404))
            } else {
                (reply matches Reply::Failure { status, message } && status == 500 && message@
                    == status_message(500))
            },
            Err(e) => (reply matches Reply::Failure { status, message } && status == status_of(e)
                && message@ == status_message(status_of(e))),
        }),
{
    match r {
        Ok(n) => {
            if n == 1 {
                Reply::Redirect { location: "/".to_owned() }
            } else if n == 0 {
                not_found_reply()
            } else {
                invariant_reply()
            }
        },
        Err(e) => failure_for(&e),
    }
}

} // verus!
