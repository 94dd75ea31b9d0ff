//! The generic handler layer: one reusable implementation of the five HTTP
//! verbs, written once against the capability contract and shared by every
//! entity, together with request decoding (path identities) and the error
//! taxonomy the boundary encodes into status codes.
//!
//! Transport concerns stay outside: callers hand these functions the decoded
//! body (or `None` when the payload failed to parse as the mutation shape)
//! and the raw path token, and receive a status-coded response value back.

use crate::models::{Db, Model, StoreError};
use vstd::prelude::*;
use vstd::string::StringExecFns;

verus! {

/// A decoded path parameter carrying a resource identity.
#[derive(Clone, Copy, Debug, PartialEq, Eq, Structural)]
pub struct Req {
    pub id: i32,
}

/// The handler-level error taxonomy, mapped to a status code at the boundary.
///
/// `BadRequest` covers payloads that fail to parse as the mutation shape and
/// path identities that fail to parse as an integer; `NotFound` the reads
/// that match zero rows; `ServerError` every other store-layer failure.
#[derive(Clone, Copy, Debug, PartialEq, Eq, Structural)]
pub enum CustomHttpError {
    BadRequest,
    NotFound,
    ServerError,
}

impl CustomHttpError {
    /// The HTTP status code this error is encoded as.
    pub open spec fn status_spec(self) -> u16 {
        match self {
            CustomHttpError::BadRequest => 400,
            CustomHttpError::NotFound => 404,
            CustomHttpError::ServerError => 500,
        }
    }

    /// The HTTP status code this error is encoded as.
    pub fn status_code(&self) -> (c: u16)
        ensures
            c == self.status_spec(),
    {
        match self {
            CustomHttpError::BadRequest => 400,
            CustomHttpError::NotFound => 404,
            CustomHttpError::ServerError => 500,
        }
    }
}

/// A status-coded successful response and the value it carries; the response
/// encoder outside this crate turns it into a wire body.
pub struct HttpResponse<B> {
    pub status: u16,
    pub body: B,
}

/// How store failures map into the handler taxonomy: the zero-rows outcome
/// of a read is the client's error, everything else the server's.
pub open spec fn store_error_to_http(e: StoreError) -> CustomHttpError {
    match e {
        StoreError::NotFound => CustomHttpError::NotFound,
        StoreError::Other => CustomHttpError::ServerError,
    }
}

/// Maps a store failure to the handler taxonomy, [`store_error_to_http`].
pub fn map_sql_error(e: StoreError) -> (r: CustomHttpError)
    ensures
        r == store_error_to_http(e),
{
    match e {
        StoreError::NotFound => CustomHttpError::NotFound,
        StoreError::Other => CustomHttpError::ServerError,
    }
}

/// Whether the character is a decimal digit.
pub open spec fn is_dec_digit(c: char) -> bool {
    '0' as int <= c as int <= '9' as int
}

/// The value of a decimal digit character.
pub open spec fn digit_val(c: char) -> int {
    c as int - '0' as int
}

/// Whether every character of the sequence is a decimal digit.
pub open spec fn all_dec_digits(s: Seq<char>) -> bool {
    forall|i: int| 0 <= i < s.len() ==> is_dec_digit(#[trigger] s[i])
}

/// The value of a sequence of decimal digits, most significant first.
pub open spec fn dec_seq_val(s: Seq<char>) -> int
    decreases s.len(),
{
    if s.len() == 0 {
        0
    } else {
        dec_seq_val(s.drop_last()) * 10 + digit_val(s.last())
    }
}

/// The integer a character sequence denotes: an optional sign followed by at
/// least one decimal digit and nothing else; `None` when the sequence is not
/// of that shape.
pub open spec fn int_literal_val(s: Seq<char>) -> Option<int> {
    if s.len() == 0 {
        None
    } else {
        let digits = if s[0] == '-' || s[0] == '+' {
            s.drop_first()
        } else {
            s
        };
        if digits.len() == 0 || !all_dec_digits(digits) {
            None
        } else if s[0] == '-' {
            Some(-dec_seq_val(digits))
        } else {
            Some(dec_seq_val(digits))
        }
    }
}

/// Parses a path identity token as a signed 32-bit integer, exactly as a
/// standard decimal parse behaves: an optional sign, at least one digit,
/// `None` on any other shape and on values outside the type's range.
pub fn parse_i32(s: &str) -> (r: Option<i32>)
    ensures
        match int_literal_val(s@) {
            Some(v) => if i32::MIN <= v <= i32::MAX {
                r == Some(v as i32)
            } else {
                r is None
            },
            None => r is None,
        },
{
    let len = s.unicode_len();
    if len == 0 {
        return None;
    }
    let c0 = s.get_char(0);
    let start: usize = if c0 == '-' || c0 == '+' {
        1
    } else {
        0
    };
    let neg = c0 == '-';
    if start == len {
        return None;
    }
    let ghost digits = if start == 1 {
        s@.drop_first()
    } else {
        s@
    };
    let mut i = start;
    let mut acc: i64 = 0;
    let mut too_big = false;
    while i < len
        invariant
            s@.len() == len,
            start <= i <= len,
            start == 0 || start == 1,
            (start == 1) == (s@[0] == '-' || s@[0] == '+'),
            neg == (s@[0] == '-'),
            digits == (if start == 1 {
                s@.drop_first()
            } else {
                s@
            }),
            digits.len() == len - start,
            forall|k: int| 0 <= k < i - start ==> is_dec_digit(#[trigger] digits[k]),
            !too_big ==> 0 <= acc <= 0x8000_0000i64 && acc as int == dec_seq_val(
                digits.take(i - start),
            ),
            too_big ==> dec_seq_val(digits.take(i - start)) > 0x8000_0000,
        decreases len - i,
    {
        let c = s.get_char(i);
        let cu = c as u32;
        proof {
            assert(digits[i - start] == s@[i as int]);
        }
        if cu < 48 || cu > 57 {
            proof {
                assert(!is_dec_digit(digits[i - start]));
            }
            return None;
        }
        let d: u32 = cu - 48;
        if !too_big {
            acc = acc * 10 + d as i64;
            if acc > 0x8000_0000i64 {
                too_big = true;
            }
        }
        i = i + 1;
        proof {
            let t = digits.take(i - start);
            assert(t.drop_last() =~= digits.take(i - 1 - start));
            assert(t.last() == digits[i - 1 - start]);
            assert(digit_val(digits[i - 1 - start]) == d as int);
        }
    }
    proof {
        assert(digits.take(i - start) =~= digits);
        assert(all_dec_digits(digits));
    }
    if too_big {
        return None;
    }
    if neg {
        Some((-acc) as i32)
    } else {
        if acc > 0x7fff_ffffi64 {
            None
        } else {
            Some(acc as i32)
        }
    }
}

/// The identity a path token decodes to: the integer the token denotes,
/// provided it fits a signed 32-bit identity column; `None` otherwise.
pub open spec fn path_id_of(s: Seq<char>) -> Option<int> {
    match int_literal_val(s) {
        Some(v) => if i32::MIN <= v <= i32::MAX {
            Some(v)
        } else {
            None
        },
        None => None,
    }
}

/// The character of a decimal digit value.
pub open spec fn digit_char(d: int) -> char {
    if d == 0 {
        '0'
    } else if d == 1 {
        '1'
    } else if d == 2 {
        '2'
    } else if d == 3 {
        '3'
    } else if d == 4 {
        '4'
    } else if d == 5 {
        '5'
    } else if d == 6 {
        '6'
    } else if d == 7 {
        '7'
    } else if d == 8 {
        '8'
    } else {
        '9'
    }
}

/// The decimal rendering of a non-negative integer, without leading zeros.
pub open spec fn dec_str(n: int) -> Seq<char>
    decreases n,
{
    if n < 10 {
        seq![digit_char(n)]
    } else {
        dec_str(n / 10).push(digit_char(n % 10))
    }
}

/// The decimal rendering of an integer, with a leading minus sign when
/// negative.
pub open spec fn int_str(v: int) -> Seq<char> {
    if v < 0 {
        seq!['-'] + dec_str(-v)
    } else {
        dec_str(v)
    }
}

/// The confirmation body a successful delete responds with.
pub open spec fn delete_message(id: int) -> Seq<char> {
    "Successfully deleted resource "@ + int_str(id)
}

/// Relies on std's `String::push`: it appends exactly the given character to
/// the end of the string.
#[verifier::external_body]
fn push_char(s: &mut String, c: char)
    ensures
        final(s)@ == old(s)@.push(c),
{
    s.push(c);
}

/// The character of a decimal digit value.
fn digit_to_char(d: u32) -> (c: char)
    requires
        d < 10,
    ensures
        c == digit_char(d as int),
{
    if d == 0 {
        '0'
    } else if d == 1 {
        '1'
    } else if d == 2 {
        '2'
    } else if d == 3 {
        '3'
    } else if d == 4 {
        '4'
    } else if d == 5 {
        '5'
    } else if d == 6 {
        '6'
    } else if d == 7 {
        '7'
    } else if d == 8 {
        '8'
    } else {
        '9'
    }
}

/// Appends the decimal rendering of `n`.
fn push_dec(n: u32, out: &mut String)
    ensures
        final(out)@ == old(out)@ + dec_str(n as int),
    decreases n,
{
    if n < 10 {
        push_char(out, digit_to_char(n));
        proof {
            assert(old(out)@.push(digit_char(n as int)) =~= old(out)@ + dec_str(n as int));
        }
    } else {
        push_dec(n / 10, out);
        push_char(out, digit_to_char(n % 10));
        proof {
            assert((old(out)@ + dec_str(n as int / 10)).push(digit_char(n as int % 10)) =~= old(
                out,
            )@ + dec_str(n as int));
        }
    }
}

/// The decimal rendering of a signed 32-bit integer, as [`int_str`] states
/// it.
fn format_i32(v: i32) -> (s: String)
    ensures
        s@ == int_str(v as int),
{
    let mut out = String::new();
    if v < 0 {
        push_char(&mut out, '-');
        let mag: u32 = (-(v as i64)) as u32;
        push_dec(mag, &mut out);
        proof {
            assert(out@ =~= seq!['-'] + dec_str(-(v as int)));
        }
    } else {
        push_dec(v as u32, &mut out);
        proof {
            assert(out@ =~= dec_str(v as int));
        }
    }
    out
}

/// The confirmation body a successful delete responds with, naming the
/// deleted identity.
fn deleted_resource_message(id: i32) -> (s: String)
    ensures
        s@ == delete_message(id as int),
{
    let mut out = ("Successfully deleted resource ").to_owned();
    let num = format_i32(id);
    out.append(num.as_str());
    out
}

/// The generic request handlers: the five HTTP verbs, written once over any
/// entity `T` with mutation shape `M` that satisfies the capability
/// contract. An entity plugs in by implementing [`Model`] and taking these
/// provided bodies as they stand.
///
/// The decoded request body arrives as `Option<M>`: `None` stands for a
/// payload that failed to parse as the mutation shape and is answered with
/// `BadRequest` before the store is touched.
pub trait Controller<T: Model<M>, M: View> {
    /// Creates an entity from the mutation payload: 201 echoing the input,
    /// insert-or-ignore on an identity conflict.
    fn create(db: &mut Db, body: Option<M>) -> (r: Result<HttpResponse<M>, CustomHttpError>)
        requires
            old(db)@.wf(),
        ensures
            final(db)@.wf(),
            match body {
                None => final(db)@ == old(db)@ && r is Err && r->Err_0
                    == CustomHttpError::BadRequest,
                Some(m) => ({
                    let (d2, sr) = T::create_spec(old(db)@, m@);
                    final(db)@ == d2 && match sr {
                        Ok(n) => r is Ok && r->Ok_0.status == 201 && r->Ok_0.body@ == m@,
                        Err(e) => r is Err && r->Err_0 == store_error_to_http(e),
                    }
                }),
            },
    {
        match body {
            None => Err(CustomHttpError::BadRequest),
            Some(m) => {
                match T::create(db, &m) {
                    Ok(_) => Ok(HttpResponse { status: 201, body: m }),
                    Err(e) => Err(map_sql_error(e)),
                }
            },
        }
    }

    /// Reads the entity's whole table: 200 with the rows in store order.
    fn read_all(db: &Db) -> (r: Result<HttpResponse<Vec<T>>, CustomHttpError>)
        requires
            db@.wf(),
        ensures
            r is Ok && r->Ok_0.status == 200,
            r->Ok_0.body@.len() == T::table(db@).len(),
            forall|k: int|
                0 <= k < T::table(db@).len() ==> (#[trigger] r->Ok_0.body@[k])@ == T::table(
                    db@,
                )[k],
    {
        match T::read_all(db) {
            Ok(all) => Ok(HttpResponse { status: 200, body: all }),
            Err(e) => Err(map_sql_error(e)),
        }
    }

    /// Reads one entity by identity: 200 with the row, `NotFound` when no
    /// row matches.
    fn read_one(db: &Db, path: Req) -> (r: Result<HttpResponse<T>, CustomHttpError>)
        requires
            db@.wf(),
        ensures
            match T::find_spec(db@, path.id as int) {
                Some(v) => r is Ok && r->Ok_0.status == 200 && r->Ok_0.body@ == v,
                None => r is Err && r->Err_0 == CustomHttpError::NotFound,
            },
    {
        match T::read_one(db, path.id) {
            Ok(found) => Ok(HttpResponse { status: 200, body: found }),
            Err(e) => Err(map_sql_error(e)),
        }
    }

    /// Updates the entity by identity from the mutation payload: 200 echoing
    /// the input, whether or not a row matched.
    fn update(db: &mut Db, body: Option<M>, path: Req) -> (r: Result<
        HttpResponse<M>,
        CustomHttpError,
    >)
        requires
            old(db)@.wf(),
        ensures
            final(db)@.wf(),
            match body {
                None => final(db)@ == old(db)@ && r is Err && r->Err_0
                    == CustomHttpError::BadRequest,
                Some(m) => ({
                    let (d2, sr) = T::update_spec(old(db)@, path.id as int, m@);
                    final(db)@ == d2 && match sr {
                        Ok(n) => r is Ok && r->Ok_0.status == 200 && r->Ok_0.body@ == m@,
                        Err(e) => r is Err && r->Err_0 == store_error_to_http(e),
                    }
                }),
            },
    {
        match body {
            None => Err(CustomHttpError::BadRequest),
            Some(m) => {
                match T::update(db, path.id, &m) {
                    Ok(_) => Ok(HttpResponse { status: 200, body: m }),
                    Err(e) => Err(map_sql_error(e)),
                }
            },
        }
    }

    /// Deletes the entity by identity: 200 with a confirmation message
    /// naming the identity, whether or not a row matched.
    fn delete(db: &mut Db, path: Req) -> (r: Result<HttpResponse<String>, CustomHttpError>)
        requires
            old(db)@.wf(),
        ensures
            final(db)@.wf(),
            final(db)@ == T::delete_spec(old(db)@, path.id as int).0,
            r is Ok && r->Ok_0.status == 200 && r->Ok_0.body@ == delete_message(path.id as int),
    {
        match T::delete(db, path.id) {
            Ok(_) => Ok(HttpResponse { status: 200, body: deleted_resource_message(path.id) }),
            Err(e) => Err(map_sql_error(e)),
        }
    }
}

} // verus!
