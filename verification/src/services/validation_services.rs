//! Field validators: ASCII-only strings, the password strength policy, and
//! payload validation for the request bodies the service accepts.

use vstd::prelude::*;
use vstd::string::*;
use crate::error::AppError;
use crate::payloads::{AuthPayload, ChangePasswordPayload, ChangeUsernamePayload};

verus! {

/// A request body that passed deserialization and field validation.
#[derive(Debug, Clone, Copy, Default)]
pub struct ValidatedJson<T>(pub T);

/// Query parameters that passed deserialization and field validation.
#[derive(Debug, Clone, Copy, Default)]
pub struct ValidatedQuery<T>(pub T);

/// Path parameters that passed deserialization and field validation.
#[derive(Debug, Clone, Copy, Default)]
pub struct ValidatedPath<T>(pub T);

/// An upper-case ASCII letter.
pub open spec fn is_upper(c: char) -> bool {
    65 <= c as u32 <= 90
}

/// A lower-case ASCII letter.
pub open spec fn is_lower(c: char) -> bool {
    97 <= c as u32 <= 122
}

/// An ASCII decimal digit.
pub open spec fn is_digit(c: char) -> bool {
    48 <= c as u32 <= 57
}

/// An ASCII letter or digit.
pub open spec fn is_alnum(c: char) -> bool {
    is_upper(c) || is_lower(c) || is_digit(c)
}

/// Accepts exactly the ASCII-only strings.
pub fn ascii_string(value: &str) -> (r: Result<(), String>)
    ensures
        r is Ok <==> is_ascii(value),
        r matches Err(m) ==> m@ == "must only contain ASCII characters"@,
{
    if value.is_ascii() {
        Ok(())
    } else {
        Err(String::from_str("must only contain ASCII characters"))
    }
}

/// One rule of the password policy.
pub enum PasswordRules {
    Length(usize, usize),
    CapitalLetter,
    Digit,
    SpecialChar,
    Ascii,
}

/// Whether a character sequence satisfies one rule.  Length counts
/// characters; the letter, digit and special-character tests look for ASCII
/// witnesses, and the ASCII rule rejects every string where the two
/// readings could differ.
pub open spec fn rule_holds_chars(rule: PasswordRules, s: Seq<char>) -> bool {
    match rule {
        PasswordRules::Length(lo, hi) => lo <= s.len() <= hi,
        PasswordRules::CapitalLetter => exists|i: int| 0 <= i < s.len() && is_upper(#[trigger] s[i]),
        PasswordRules::Digit => exists|i: int| 0 <= i < s.len() && is_digit(#[trigger] s[i]),
        PasswordRules::SpecialChar => exists|i: int| 0 <= i < s.len() && !is_alnum(#[trigger] s[i]),
        PasswordRules::Ascii => vstd::utf8::is_ascii_chars(s),
    }
}

/// Whether a string satisfies one rule.
pub open spec fn rule_holds(rule: PasswordRules, s: &str) -> bool {
    rule_holds_chars(rule, s@)
}

/// The decimal digit character of a value below ten.
pub open spec fn dec_digit(d: nat) -> char {
    if d == 0 {
        '0'
    } else if d == 1 {
        '1'
    } else if d == 2 {
        '2'
    } else if d == 3 {
        '3'
    } else if d == 4 {
        '4'
    } else if d == 5 {
        '5'
    } else if d == 6 {
        '6'
    } else if d == 7 {
        '7'
    } else if d == 8 {
        '8'
    } else {
        '9'
    }
}

/// The decimal rendering of a natural number.
pub open spec fn dec_str(n: nat) -> Seq<char>
    decreases n,
{
    if n < 10 {
        seq![dec_digit(n)]
    } else {
        dec_str(n / 10).push(dec_digit(n % 10))
    }
}

/// Renders a number in decimal.
pub fn u64_to_string(n: u64) -> (r: String)
    ensures
        r@ == dec_str(n as nat),
    decreases n,
{
    let digit = n % 10;
    let mut s = if n >= 10 {
        u64_to_string(n / 10)
    } else {
        String::new()
    };
    proof {
        reveal_strlit("0");
        reveal_strlit("1");
        reveal_strlit("2");
        reveal_strlit("3");
        reveal_strlit("4");
        reveal_strlit("5");
        reveal_strlit("6");
        reveal_strlit("7");
        reveal_strlit("8");
        reveal_strlit("9");
    }
    if digit == 0 {
        s.append("0");
    } else if digit == 1 {
        s.append("1");
    } else if digit == 2 {
        s.append("2");
    } else if digit == 3 {
        s.append("3");
    } else if digit == 4 {
        s.append("4");
    } else if digit == 5 {
        s.append("5");
    } else if digit == 6 {
        s.append("6");
    } else if digit == 7 {
        s.append("7");
    } else if digit == 8 {
        s.append("8");
    } else {
        s.append("9");
    }
    proof {
        assert(s@ =~= dec_str(n as nat));
    }
    s
}

/// The message a failing rule reports.
pub open spec fn rule_msg(rule: PasswordRules) -> Seq<char> {
    match rule {
        PasswordRules::Length(lo, hi) => "length must be in range ("@ + dec_str(lo as nat) + "..="@
            + dec_str(hi as nat) + ")"@,
        PasswordRules::CapitalLetter => "must include at least one capital letter"@,
        PasswordRules::Digit => "must include at least one digit"@,
        PasswordRules::SpecialChar => "must include at least one special character"@,
        PasswordRules::Ascii => "must only contain ASCII characters"@,
    }
}

impl PasswordRules {
    /// Whether the string satisfies this rule.
    pub fn validate(&self, value: &str) -> (r: bool)
        ensures
            r == rule_holds(*self, value),
    {
        match self {
            PasswordRules::Length(lo, hi) => {
                let n = value.unicode_len();
                *lo <= n && n <= *hi
            },
            PasswordRules::CapitalLetter => {
                let n = value.unicode_len();
                let mut i: usize = 0;
                let mut found = false;
                while i < n
                    invariant
                        n == value@.len(),
                        i <= n,
                        found == exists|j: int| 0 <= j < i && is_upper(#[trigger] value@[j]),
                    decreases n - i,
                {
                    let c = value.get_char(i);
                    let u = c as u32;
                    if 65 <= u && u <= 90 {
                        found = true;
                    }
                    i = i + 1;
                }
                found
            },
            PasswordRules::Digit => {
                let n = value.unicode_len();
                let mut i: usize = 0;
                let mut found = false;
                while i < n
                    invariant
                        n == value@.len(),
                        i <= n,
                        found == exists|j: int| 0 <= j < i && is_digit(#[trigger] value@[j]),
                    decreases n - i,
                {
                    let c = value.get_char(i);
                    let u = c as u32;
                    if 48 <= u && u <= 57 {
                        found = true;
                    }
                    i = i + 1;
                }
                found
            },
            PasswordRules::SpecialChar => {
                let n = value.unicode_len();
                let mut i: usize = 0;
                let mut found = false;
                while i < n
                    invariant
                        n == value@.len(),
                        i <= n,
                        found == exists|j: int| 0 <= j < i && !is_alnum(#[trigger] value@[j]),
                    decreases n - i,
                {
                    let c = value.get_char(i);
                    let u = c as u32;
                    if !((65 <= u && u <= 90) || (97 <= u && u <= 122) || (48 <= u && u <= 57)) {
                        found = true;
                    }
                    i = i + 1;
                }
                found
            },
            PasswordRules::Ascii => value.is_ascii(),
        }
    }

    /// The message this rule reports when it fails.
    pub fn msg(&self) -> (m: String)
        ensures
            m@ == rule_msg(*self),
    {
        match self {
            PasswordRules::Length(lo, hi) => {
                let mut s = String::from_str("length must be in range (");
                s.append(u64_to_string(*lo as u64).as_str());
                s.append("..=");
                s.append(u64_to_string(*hi as u64).as_str());
                s.append(")");
                s
            },
            PasswordRules::CapitalLetter => String::from_str(
                "must include at least one capital letter",
            ),
            PasswordRules::Digit => String::from_str("must include at least one digit"),
            PasswordRules::SpecialChar => String::from_str(
                "must include at least one special character",
            ),
            PasswordRules::Ascii => String::from_str("must only contain ASCII characters"),
        }
    }
}

/// Whether a password satisfies the whole policy, over its characters.
pub open spec fn strong_password_chars(s: Seq<char>) -> bool {
    &&& rule_holds_chars(PasswordRules::Length(8, 256), s)
    &&& rule_holds_chars(PasswordRules::CapitalLetter, s)
    &&& rule_holds_chars(PasswordRules::Digit, s)
    &&& rule_holds_chars(PasswordRules::Ascii, s)
    &&& rule_holds_chars(PasswordRules::SpecialChar, s)
}

/// Whether a password string satisfies the whole policy.
pub open spec fn strong_password_ok(s: &str) -> bool {
    strong_password_chars(s@)
}

/// Accepts exactly the passwords that satisfy every rule of the policy; a
/// rejection reports the first rule broken, in policy order.
pub fn strong_password(value: &str) -> (r: Result<(), String>)
    ensures
        r is Ok <==> strong_password_ok(value),
        !rule_holds(PasswordRules::Length(8, 256), value) ==> (r matches Err(m) && m@ == rule_msg(
            PasswordRules::Length(8, 256),
        )),
        rule_holds(PasswordRules::Length(8, 256), value) && !rule_holds(
            PasswordRules::CapitalLetter,
            value,
        ) ==> (r matches Err(m) && m@ == rule_msg(PasswordRules::CapitalLetter)),
        rule_holds(PasswordRules::Length(8, 256), value) && rule_holds(
            PasswordRules::CapitalLetter,
            value,
        ) && !rule_holds(PasswordRules::Digit, value) ==> (r matches Err(m) && m@ == rule_msg(
            PasswordRules::Digit,
        )),
        rule_holds(PasswordRules::Length(8, 256), value) && rule_holds(
            PasswordRules::CapitalLetter,
            value,
        ) && rule_holds(PasswordRules::Digit, value) && !rule_holds(PasswordRules::Ascii, value)
            ==> (r matches Err(m) && m@ == rule_msg(PasswordRules::Ascii)),
        rule_holds(PasswordRules::Length(8, 256), value) && rule_holds(
            PasswordRules::CapitalLetter,
            value,
        ) && rule_holds(PasswordRules::Digit, value) && rule_holds(PasswordRules::Ascii, value)
            && !rule_holds(PasswordRules::SpecialChar, value) ==> (r matches Err(m) && m@
            == rule_msg(PasswordRules::SpecialChar)),
{
    if !(PasswordRules::Length(8, 256).validate(value)) {
        return Err(PasswordRules::Length(8, 256).msg());
    }
    if !(PasswordRules::CapitalLetter.validate(value)) {
        return Err(PasswordRules::CapitalLetter.msg());
    }
    if !(PasswordRules::Digit.validate(value)) {
        return Err(PasswordRules::Digit.msg());
    }
    if !(PasswordRules::Ascii.validate(value)) {
        return Err(PasswordRules::Ascii.msg());
    }
    if !(PasswordRules::SpecialChar.validate(value)) {
        return Err(PasswordRules::SpecialChar.msg());
    }
    Ok(())
}

/// Whether a username is acceptable: four to thirty-two characters, all
/// ASCII.
pub open spec fn valid_username(s: Seq<char>) -> bool {
    &&& 4 <= s.len() <= 32
    &&& vstd::utf8::is_ascii_chars(s)
}

/// Validates a username field: length in range, ASCII only.  A rejection
/// reports the rule broken, length first.
pub fn validate_username(username: &str) -> (r: Result<(), AppError>)
    ensures
        r is Ok <==> valid_username(username@),
        r is Err ==> (r matches Err(e) && e is Validation),
{
    let n = username.unicode_len();
    if n < 4 || n > 32 {
        return Err(AppError::Validation(String::from_str("length must be in range (4..=32)")));
    }
    match ascii_string(username) {
        Ok(_) => Ok(()),
        Err(m) => Err(AppError::Validation(m)),
    }
}

/// Validates a registration or login body: the username rules and the
/// password policy, fields in order.
pub fn validate_auth_payload(payload: &AuthPayload) -> (r: Result<(), AppError>)
    ensures
        r is Ok <==> valid_username(payload.username@) && strong_password_chars(
            payload.password@,
        ),
        r is Err ==> (r matches Err(e) && e is Validation),
{
    match validate_username(payload.username.as_str()) {
        Ok(_) => {},
        Err(e) => {
            return Err(e);
        },
    }
    match strong_password(payload.password.as_str()) {
        Ok(_) => Ok(()),
        Err(m) => Err(AppError::Validation(m)),
    }
}

/// Validates a username-change body.
pub fn validate_change_username_payload(payload: &ChangeUsernamePayload) -> (r: Result<
    (),
    AppError,
>)
    ensures
        r is Ok <==> valid_username(payload.username@),
        r is Err ==> (r matches Err(e) && e is Validation),
{
    validate_username(payload.username.as_str())
}

/// Validates a password-change body: only the new password is held to the
/// policy; the old one is checked against the stored digest instead.
pub fn validate_change_password_payload(payload: &ChangePasswordPayload) -> (r: Result<
    (),
    AppError,
>)
    ensures
        r is Ok <==> strong_password_chars(payload.new_password@),
        r is Err ==> (r matches Err(e) && e is Validation),
{
    match strong_password(payload.new_password.as_str()) {
        Ok(_) => Ok(()),
        Err(m) => Err(AppError::Validation(m)),
    }
}

} // verus!
