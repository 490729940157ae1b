//! Input-format rules for the values the service accepts: email addresses,
//! user identifiers, passwords, display names and memo bodies.

use vstd::prelude::*;
use vstd::string::*;
use crate::errors::AppError;

verus! {

/// An ASCII letter `a`..`z` or `A`..`Z`.
pub open spec fn is_alpha(b: u8) -> bool {
    (97 <= b <= 122) || (65 <= b <= 90)
}

/// An ASCII decimal digit.
pub open spec fn is_digit(b: u8) -> bool {
    48 <= b <= 57
}

/// A byte allowed in the local part of an email address:
/// letters, digits, or one of `.` `_` `%` `+` `-`.
pub open spec fn is_email_local_byte(b: u8) -> bool {
    is_alpha(b) || is_digit(b) || b == 46 || b == 95 || b == 37 || b == 43 || b == 45
}

/// A byte allowed in the domain part of an email address before the final
/// label: letters, digits, `.` or `-`.
pub open spec fn is_email_domain_byte(b: u8) -> bool {
    is_alpha(b) || is_digit(b) || b == 46 || b == 45
}

/// A byte allowed in a user identifier: letters, digits, `_` or `-`.
pub open spec fn is_user_id_byte(b: u8) -> bool {
    is_alpha(b) || is_digit(b) || b == 95 || b == 45
}

/// The email shape holds with `at` the index of the (unique) `@` and `dot`
/// the index of the last `.`, which introduces the top-level label.
pub open spec fn email_split_ok(s: Seq<u8>, at: int, dot: int) -> bool {
    &&& 0 < at
    &&& at + 1 < dot
    &&& dot + 3 <= s.len()
    &&& s[at] == 64
    &&& s[dot] == 46
    &&& forall|i: int| 0 <= i < at ==> is_email_local_byte(#[trigger] s[i])
    &&& forall|i: int| at < i < dot ==> is_email_domain_byte(#[trigger] s[i])
    &&& forall|i: int| dot < i < s.len() ==> is_alpha(#[trigger] s[i])
}

/// The accepted email shape: `local@domain.tld` where `local` is a non-empty
/// run of local-part bytes, `domain` a non-empty run of domain bytes, and
/// `tld` at least two letters.  Mirrors the case-insensitive pattern
/// `^[a-z0-9._%+-]+@[a-z0-9.-]+\.[a-z]{2,}$`.
pub open spec fn valid_email_bytes(s: Seq<u8>) -> bool {
    exists|at: int, dot: int| #[trigger] email_split_ok(s, at, dot)
}

/// A valid user identifier: 3 to 32 bytes, each a letter, digit, `_` or `-`.
pub open spec fn valid_user_id_bytes(s: Seq<u8>) -> bool {
    &&& 3 <= s.len() <= 32
    &&& forall|i: int| 0 <= i < s.len() ==> is_user_id_byte(#[trigger] s[i])
}

/// A valid password length: 8 to 256 bytes.
pub open spec fn valid_password_len(n: nat) -> bool {
    8 <= n <= 256
}

/// A valid display-name length: 1 to 50 bytes.
pub open spec fn valid_display_name_len(n: nat) -> bool {
    1 <= n <= 50
}

/// A Unicode whitespace character, exactly the set that trimming strips:
/// tab through carriage return, space, next line, no-break space, ogham
/// space mark, the en-quad..hair-space run, the line and paragraph
/// separators, narrow no-break space, medium mathematical space, and
/// ideographic space.
pub open spec fn is_trim_space(c: char) -> bool {
    let u = c as u32;
    (9 <= u <= 13) || u == 32 || u == 133 || u == 160 || u == 0x1680 || (0x2000 <= u <= 0x200A)
        || u == 0x2028 || u == 0x2029 || u == 0x202F || u == 0x205F || u == 0x3000
}

/// Valid memo content: at most 512 bytes, and not blank (at least one
/// character survives trimming).
pub open spec fn valid_memo_content_str(bytes: Seq<u8>, chars: Seq<char>) -> bool {
    &&& bytes.len() <= 512
    &&& exists|i: int| 0 <= i < chars.len() && !is_trim_space(#[trigger] chars[i])
}

fn byte_is_alpha(b: u8) -> (r: bool)
    ensures
        r == is_alpha(b),
{
    (97 <= b && b <= 122) || (65 <= b && b <= 90)
}

fn byte_is_email_local(b: u8) -> (r: bool)
    ensures
        r == is_email_local_byte(b),
{
    byte_is_alpha(b) || (48 <= b && b <= 57) || b == 46 || b == 95 || b == 37 || b == 43
        || b == 45
}

fn byte_is_email_domain(b: u8) -> (r: bool)
    ensures
        r == is_email_domain_byte(b),
{
    byte_is_alpha(b) || (48 <= b && b <= 57) || b == 46 || b == 45
}

fn byte_is_user_id(b: u8) -> (r: bool)
    ensures
        r == is_user_id_byte(b),
{
    byte_is_alpha(b) || (48 <= b && b <= 57) || b == 95 || b == 45
}

/// If the email shape holds at all, it holds at the first `@` and the last
/// `.`; so a scan that finds those positions finds the witness.
proof fn lemma_email_split_unique(s: Seq<u8>, at: int, dot: int)
    requires
        valid_email_bytes(s),
        0 <= at < s.len(),
        s[at] == 64,
        forall|i: int| 0 <= i < at ==> s[i] != 64,
        at < dot < s.len(),
        s[dot] == 46,
        forall|i: int| dot < i < s.len() ==> s[i] != 46,
    ensures
        email_split_ok(s, at, dot),
{
    let (a, d) = choose|a: int, d: int| #[trigger] email_split_ok(s, a, d);
    assert(a == at) by {
        if a < at {
            assert(s[a] != 64);
        }
        if a > at {
            assert(is_email_local_byte(s[at]));
        }
    }
    assert(d == dot) by {
        if d > dot {
            assert(s[d] != 46);
        }
        if d < dot {
            assert(is_alpha(s[dot]));
        }
    }
}

/// Checks the accepted email shape; `Ok(())` exactly on byte strings
/// matching `valid_email_bytes`.
pub fn validate_email_format(email: &str) -> (r: Result<(), AppError>)
    ensures
        r is Ok <==> valid_email_bytes(email.spec_bytes()),
        r is Err ==> r->Err_0 is ValidationError,
{
    let b = email.as_bytes();
    let n = b.len();
    // scan the local part up to the first `@`.
    let mut at: usize = 0;
    while at < n && b[at] != 64
        invariant
            at <= n == b@.len(),
            b@ == email.spec_bytes(),
            forall|i: int| 0 <= i < at ==> b@[i] != 64,
            forall|i: int| 0 <= i < at ==> is_email_local_byte(#[trigger] b@[i]),
        decreases n - at,
    {
        if !byte_is_email_local(b[at]) {
            proof {
                if valid_email_bytes(b@) {
                    let (a, d) = choose|a: int, d: int| #[trigger] email_split_ok(b@, a, d);
                    if a <= at {
                        assert(b@[a] == 64);
                        assert(is_email_local_byte(b@[at as int]) || b@[at as int] == 64);
                    } else {
                        assert(is_email_local_byte(b@[at as int]));
                    }
                    assert(false);
                }
            }
            return Err(AppError::ValidationError("invalid email address format".to_owned()));
        }
        at += 1;
    }
    if at == 0 || at >= n {
        proof {
            if valid_email_bytes(b@) {
                let (a, d) = choose|a: int, d: int| #[trigger] email_split_ok(b@, a, d);
                if at == 0 {
                    assert(is_email_local_byte(b@[0]));
                    assert(b@[0] != 64);
                } else {
                    assert(b@[a] == 64);
                }
                assert(false);
            }
        }
        return Err(AppError::ValidationError("invalid email address format".to_owned()));
    }
    // find the last `.` after the `@`.
    let mut dot: usize = n;
    let mut j: usize = at + 1;
    while j < n
        invariant
            at < j <= n == b@.len(),
            b@ == email.spec_bytes(),
            at < dot,
            dot == n || (dot < j && b@[dot as int] == 46),
            forall|i: int| dot < i < j ==> b@[i] != 46,
            dot == n ==> forall|i: int| at < i < j ==> b@[i] != 46,
        decreases n - j,
    {
        if b[j] == 46 {
            dot = j;
        }
        j += 1;
    }
    if dot == n {
        proof {
            if valid_email_bytes(b@) {
                let (a, d) = choose|a: int, d: int| #[trigger] email_split_ok(b@, a, d);
                assert(a == at) by {
                    if a < at {
                        assert(b@[a] != 64);
                    }
                    if a > at {
                        assert(is_email_local_byte(b@[at as int]));
                    }
                }
                assert(b@[d] == 46);
                assert(false);
            }
        }
        return Err(AppError::ValidationError("invalid email address format".to_owned()));
    }
    if dot < at + 2 || n - dot < 3 {
        proof {
            if valid_email_bytes(b@) {
                lemma_email_split_unique(b@, at as int, dot as int);
                assert(false);
            }
        }
        return Err(AppError::ValidationError("invalid email address format".to_owned()));
    }
    // domain bytes between `@` and the last `.`.
    let mut k: usize = at + 1;
    while k < dot
        invariant
            at < k <= dot < n == b@.len(),
            b@ == email.spec_bytes(),
            b@[at as int] == 64,
            b@[dot as int] == 46,
            forall|i: int| 0 <= i < at ==> b@[i] != 64,
            forall|i: int| dot < i < n ==> b@[i] != 46,
            forall|i: int| at < i < k ==> is_email_domain_byte(#[trigger] b@[i]),
        decreases dot - k,
    {
        if !byte_is_email_domain(b[k]) {
            proof {
                if valid_email_bytes(b@) {
                    lemma_email_split_unique(b@, at as int, dot as int);
                    assert(false);
                }
            }
            return Err(AppError::ValidationError("invalid email address format".to_owned()));
        }
        k += 1;
    }
    // top-level label: at least two bytes, letters only.
    let mut t: usize = dot + 1;
    while t < n
        invariant
            dot < t <= n == b@.len(),
            b@ == email.spec_bytes(),
            b@[at as int] == 64,
            b@[dot as int] == 46,
            0 < at,
            at + 1 < dot,
            dot + 3 <= n,
            forall|i: int| 0 <= i < at ==> b@[i] != 64,
            forall|i: int| dot < i < n ==> b@[i] != 46,
            forall|i: int| dot < i < t ==> is_alpha(#[trigger] b@[i]),
        decreases n - t,
    {
        if !byte_is_alpha(b[t]) {
            proof {
                if valid_email_bytes(b@) {
                    lemma_email_split_unique(b@, at as int, dot as int);
                    assert(false);
                }
            }
            return Err(AppError::ValidationError("invalid email address format".to_owned()));
        }
        t += 1;
    }
    proof {
        assert(email_split_ok(email.spec_bytes(), at as int, dot as int));
    }
    Ok(())
}

/// Checks the user-identifier shape; `Ok(())` exactly on 3-32 bytes of
/// letters, digits, `_` and `-`.
pub fn validate_user_id_format(user_id: &str) -> (r: Result<(), AppError>)
    ensures
        r is Ok <==> valid_user_id_bytes(user_id.spec_bytes()),
        r is Err ==> r->Err_0 is ValidationError,
{
    let b = user_id.as_bytes();
    let n = b.len();
    if n < 3 || n > 32 {
        return Err(AppError::ValidationError("invalid user id format".to_owned()));
    }
    let mut i: usize = 0;
    while i < n
        invariant
            i <= n == b@.len(),
            b@ == user_id.spec_bytes(),
            forall|k: int| 0 <= k < i ==> is_user_id_byte(#[trigger] b@[k]),
        decreases n - i,
    {
        if !byte_is_user_id(b[i]) {
            return Err(AppError::ValidationError("invalid user id format".to_owned()));
        }
        i += 1;
    }
    Ok(())
}

/// Checks the password length; `Ok(())` exactly on 8-256 bytes.
pub fn validate_password_format(password: &str) -> (r: Result<(), AppError>)
    ensures
        r is Ok <==> valid_password_len(password.spec_bytes().len()),
        r is Err ==> r->Err_0 is ValidationError,
{
    let n = password.as_bytes().len();
    if n < 8 || n > 256 {
        return Err(AppError::ValidationError("password must be 8 to 256 bytes".to_owned()));
    }
    Ok(())
}

/// Checks the display-name length; `Ok(())` exactly on 1-50 bytes.
pub fn validate_display_name_format(name: &str) -> (r: Result<(), AppError>)
    ensures
        r is Ok <==> valid_display_name_len(name.spec_bytes().len()),
        r is Err ==> r->Err_0 is ValidationError,
{
    let n = name.as_bytes().len();
    if n < 1 || n > 50 {
        return Err(AppError::ValidationError("display name must be 1 to 50 bytes".to_owned()));
    }
    Ok(())
}

fn char_is_trim_space(c: char) -> (r: bool)
    ensures
        r == is_trim_space(c),
{
    let u = c as u32;
    (9 <= u && u <= 13) || u == 32 || u == 133 || u == 160 || u == 0x1680 || (0x2000 <= u && u
        <= 0x200A) || u == 0x2028 || u == 0x2029 || u == 0x202F || u == 0x205F || u == 0x3000
}

/// Checks memo content: at most 512 bytes and not blank after trimming.
pub fn validate_memo_content(content: &str) -> (r: Result<(), AppError>)
    ensures
        r is Ok <==> valid_memo_content_str(content.spec_bytes(), content@),
        r is Err ==> r->Err_0 is ValidationError,
{
    if content.as_bytes().len() > 512 {
        return Err(AppError::ValidationError("content cannot exceed 512 bytes".to_owned()));
    }
    let n = content.unicode_len();
    let mut i: usize = 0;
    while i < n
        invariant
            i <= n == content@.len(),
            content.spec_bytes().len() <= 512,
            forall|k: int| 0 <= k < i ==> is_trim_space(#[trigger] content@[k]),
        decreases n - i,
    {
        if !char_is_trim_space(content.get_char(i)) {
            proof {
                assert(0 <= i < content@.len() && !is_trim_space(content@[i as int]));
            }
            return Ok(());
        }
        i += 1;
    }
    Err(AppError::ValidationError("content cannot be empty".to_owned()))
}

} // verus!
