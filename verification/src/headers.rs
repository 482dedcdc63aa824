//! Interpretation of the request header that selects the target platform.
//! Reading the header out of a request stays with the HTTP layer; the value's
//! meaning is decided here: it names a platform up to ASCII case, anything
//! else is invalid.

use vstd::prelude::*;

use crate::umdb::System;

verus! {

#[derive(PartialEq, Eq, Structural, Clone, Copy, Debug)]
pub enum ReadSystemHeaderError {
    HeaderMissing,
    InvalidValue,
}

/// `a` reads as `b` once ASCII upper case is folded away.
pub open spec fn lower_char_match(a: char, b: char) -> bool {
    a == b || (65 <= a as int <= 90 && a as int + 32 == b as int)
}

/// `s` equals `target` up to ASCII case, character by character.
pub open spec fn matches_ignoring_ascii_case(s: Seq<char>, target: Seq<char>) -> bool {
    s.len() == target.len() && forall|i: int|
        0 <= i < s.len() ==> lower_char_match(s[i], #[trigger] target[i])
}

pub fn eq_ignore_ascii_case(s: &str, target: &str) -> (r: bool)
    ensures
        r == matches_ignoring_ascii_case(s@, target@),
{
    let n = s.unicode_len();
    let m = target.unicode_len();
    if n != m {
        return false;
    }
    let mut j: usize = 0;
    while j < n
        invariant
            j <= n,
            n == s@.len(),
            n == target@.len(),
            forall|k: int| 0 <= k < j ==> lower_char_match(s@[k], #[trigger] target@[k]),
        decreases n - j,
    {
        let a = s.get_char(j) as u32;
        let b = target.get_char(j) as u32;
        if !(a == b || (65 <= a && a <= 90 && a + 32 == b)) {
            return false;
        }
        j = j + 1;
    }
    true
}

pub fn parse_system(value: &str) -> (r: Result<System, ReadSystemHeaderError>)
    ensures
        matches_ignoring_ascii_case(value@, "android"@) ==> r == Ok::<
            System,
            ReadSystemHeaderError,
        >(System::Android),
        matches_ignoring_ascii_case(value@, "ios"@) ==> r == Ok::<
            System,
            ReadSystemHeaderError,
        >(System::Ios),
        !matches_ignoring_ascii_case(value@, "android"@) && !matches_ignoring_ascii_case(
            value@,
            "ios"@,
        ) ==> r == Err::<System, ReadSystemHeaderError>(ReadSystemHeaderError::InvalidValue),
{
    proof {
        reveal_strlit("android");
        reveal_strlit("ios");
    }
    if eq_ignore_ascii_case(value, "android") {
        Ok(System::Android)
    } else if eq_ignore_ascii_case(value, "ios") {
        Ok(System::Ios)
    } else {
        Err(ReadSystemHeaderError::InvalidValue)
    }
}

} // verus!
