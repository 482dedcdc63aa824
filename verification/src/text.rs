//! Character-level text utilities: trimming, splitting, prefix and substring
//! tests, and unsigned-integer parsing. Each executable function is proved
//! against a specification function over the string's view.

use vstd::prelude::*;

verus! {

/// The ASCII whitespace characters that trimming removes.
pub open spec fn is_space_char(c: char) -> bool {
    c == ' ' || c == '\t' || c == '\n' || c == '\r' || c == '\u{b}' || c == '\u{c}'
}

pub fn is_space(c: char) -> (r: bool)
    ensures
        r == is_space_char(c),
{
    c == ' ' || c == '\t' || c == '\n' || c == '\r' || c == '\u{b}' || c == '\u{c}'
}

pub open spec fn spec_trim_end(s: Seq<char>) -> Seq<char>
    decreases s.len(),
{
    if s.len() == 0 {
        s
    } else if is_space_char(s.last()) {
        spec_trim_end(s.drop_last())
    } else {
        s
    }
}

pub open spec fn spec_trim_start(s: Seq<char>) -> Seq<char>
    decreases s.len(),
{
    if s.len() == 0 {
        s
    } else if is_space_char(s.first()) {
        spec_trim_start(s.drop_first())
    } else {
        s
    }
}

pub open spec fn spec_trim(s: Seq<char>) -> Seq<char> {
    spec_trim_start(spec_trim_end(s))
}

pub fn trim_end_str(s: &str) -> (r: String)
    ensures
        r@ == spec_trim_end(s@),
{
    let n = s.unicode_len();
    let mut end: usize = n;
    proof {
        assert(s@.subrange(0, n as int) =~= s@);
    }
    while end > 0 && is_space(s.get_char(end - 1))
        invariant
            end <= n,
            n == s@.len(),
            spec_trim_end(s@.subrange(0, end as int)) == spec_trim_end(s@),
        decreases end,
    {
        proof {
            assert(s@.subrange(0, end as int).drop_last() =~= s@.subrange(0, end - 1));
            assert(s@.subrange(0, end as int).last() == s@[end - 1]);
        }
        end = end - 1;
    }
    proof {
        if end == 0 {
            assert(s@.subrange(0, 0) =~= Seq::<char>::empty());
        } else {
            assert(s@.subrange(0, end as int).last() == s@[end - 1]);
        }
    }
    String::from_str(s.substring_char(0, end))
}

pub fn trim_start_str(s: &str) -> (r: String)
    ensures
        r@ == spec_trim_start(s@),
{
    let n = s.unicode_len();
    let mut start: usize = 0;
    proof {
        assert(s@.subrange(0, n as int) =~= s@);
    }
    while start < n && is_space(s.get_char(start))
        invariant
            start <= n,
            n == s@.len(),
            spec_trim_start(s@.subrange(start as int, n as int)) == spec_trim_start(s@),
        decreases n - start,
    {
        proof {
            assert(s@.subrange(start as int, n as int).drop_first() =~= s@.subrange(
                start + 1,
                n as int,
            ));
            assert(s@.subrange(start as int, n as int).first() == s@[start as int]);
        }
        start = start + 1;
    }
    proof {
        if start == n {
            assert(s@.subrange(n as int, n as int) =~= Seq::<char>::empty());
        } else {
            assert(s@.subrange(start as int, n as int).first() == s@[start as int]);
        }
    }
    String::from_str(s.substring_char(start, n))
}

pub fn trim_str(s: &str) -> (r: String)
    ensures
        r@ == spec_trim(s@),
{
    let e = trim_end_str(s);
    trim_start_str(e.as_str())
}

/// Splitting on a separator character, with the semantics of `str::split`:
/// the result always has one more element than the number of separators, and
/// an empty input yields one empty element.
pub open spec fn spec_split(s: Seq<char>, sep: char) -> Seq<Seq<char>>
    decreases s.len(),
{
    if s.len() == 0 {
        seq![s]
    } else if s.last() == sep {
        spec_split(s.drop_last(), sep).push(Seq::empty())
    } else {
        let r = spec_split(s.drop_last(), sep);
        r.update(r.len() - 1, r.last().push(s.last()))
    }
}

pub proof fn lemma_split_nonempty(s: Seq<char>, sep: char)
    ensures
        spec_split(s, sep).len() >= 1,
    decreases s.len(),
{
    if s.len() > 0 {
        lemma_split_nonempty(s.drop_last(), sep);
    }
}

pub open spec fn seq_views(v: Seq<String>) -> Seq<Seq<char>> {
    v.map_values(|t: String| t@)
}

pub fn split_char(s: &str, sep: char) -> (r: Vec<String>)
    ensures
        seq_views(r@) == spec_split(s@, sep),
{
    let n = s.unicode_len();
    let mut parts: Vec<String> = Vec::new();
    let mut seg_start: usize = 0;
    let mut i: usize = 0;
    proof {
        assert(s@.subrange(0, 0) =~= Seq::<char>::empty());
        assert(seq_views(parts@).push(s@.subrange(0, 0)) =~~= spec_split(s@.subrange(0, 0), sep));
    }
    while i < n
        invariant
            seg_start <= i <= n,
            n == s@.len(),
            seq_views(parts@).push(s@.subrange(seg_start as int, i as int)) == spec_split(
                s@.subrange(0, i as int),
                sep,
            ),
        decreases n - i,
    {
        let c = s.get_char(i);
        proof {
            assert(s@.subrange(0, i + 1).drop_last() =~= s@.subrange(0, i as int));
            assert(s@.subrange(0, i + 1).last() == s@[i as int]);
        }
        if c == sep {
            let piece = String::from_str(s.substring_char(seg_start, i));
            let ghost old_parts = parts@;
            parts.push(piece);
            proof {
                assert(seq_views(parts@) =~~= seq_views(old_parts).push(
                    s@.subrange(seg_start as int, i as int),
                ));
                assert(spec_split(s@.subrange(0, i + 1), sep) =~~= seq_views(parts@).push(
                    s@.subrange(i + 1, i + 1),
                ));
            }
            seg_start = i + 1;
        } else {
            proof {
                let r = spec_split(s@.subrange(0, i as int), sep);
                assert(r == seq_views(parts@).push(s@.subrange(seg_start as int, i as int)));
                assert(r.last() == s@.subrange(seg_start as int, i as int));
                assert(r.last().push(s@[i as int]) =~= s@.subrange(seg_start as int, i + 1));
                assert(r.update(r.len() - 1, s@.subrange(seg_start as int, i + 1)) =~~= seq_views(
                    parts@,
                ).push(s@.subrange(seg_start as int, i + 1)));
            }
        }
        i = i + 1;
    }
    let piece = String::from_str(s.substring_char(seg_start, n));
    let ghost old_parts = parts@;
    parts.push(piece);
    proof {
        assert(s@.subrange(0, n as int) =~= s@);
        assert(seq_views(parts@) =~~= seq_views(old_parts).push(
            s@.subrange(seg_start as int, n as int),
        ));
    }
    parts
}

pub open spec fn spec_find_char(s: Seq<char>, c: char) -> Option<int>
    decreases s.len(),
{
    if s.len() == 0 {
        None
    } else if s[0] == c {
        Some(0int)
    } else {
        match spec_find_char(s.drop_first(), c) {
            None => None,
            Some(i) => Some(i + 1),
        }
    }
}

pub proof fn lemma_find_char_spec(s: Seq<char>, c: char)
    ensures
        match spec_find_char(s, c) {
            None => forall|j: int| 0 <= j < s.len() ==> s[j] != c,
            Some(i) => 0 <= i < s.len() && s[i] == c && (forall|j: int| 0 <= j < i ==> s[j] != c),
        },
    decreases s.len(),
{
    if s.len() > 0 && s[0] != c {
        lemma_find_char_spec(s.drop_first(), c);
        assert(forall|j: int| 1 <= j < s.len() ==> #[trigger] s[j] == s.drop_first()[j - 1]);
    }
}

pub fn find_char(s: &str, c: char) -> (r: Option<usize>)
    ensures
        match r {
            None => spec_find_char(s@, c) is None,
            Some(i) => spec_find_char(s@, c) == Some(i as int),
        },
{
    let n = s.unicode_len();
    let mut j: usize = 0;
    while j < n
        invariant
            j <= n,
            n == s@.len(),
            forall|k: int| 0 <= k < j ==> s@[k] != c,
        decreases n - j,
    {
        if s.get_char(j) == c {
            proof {
                lemma_find_char_spec(s@, c);
            }
            return Some(j);
        }
        j = j + 1;
    }
    proof {
        lemma_find_char_spec(s@, c);
    }
    None
}

pub open spec fn spec_starts_with(s: Seq<char>, p: Seq<char>) -> bool {
    p.len() <= s.len() && s.subrange(0, p.len() as int) == p
}

pub fn str_starts_with(s: &str, prefix: &str) -> (r: bool)
    ensures
        r == spec_starts_with(s@, prefix@),
{
    let n = s.unicode_len();
    let m = prefix.unicode_len();
    if m > n {
        return false;
    }
    let mut j: usize = 0;
    while j < m
        invariant
            j <= m <= n,
            m == prefix@.len(),
            n == s@.len(),
            forall|k: int| 0 <= k < j ==> s@[k] == prefix@[k],
        decreases m - j,
    {
        if s.get_char(j) != prefix.get_char(j) {
            proof {
                assert(s@.subrange(0, m as int)[j as int] == s@[j as int]);
            }
            return false;
        }
        j = j + 1;
    }
    proof {
        assert(s@.subrange(0, m as int) =~= prefix@);
    }
    true
}

pub fn str_equal(a: &str, b: &str) -> (r: bool)
    ensures
        r == (a@ == b@),
{
    let n = a.unicode_len();
    let m = b.unicode_len();
    if n != m {
        return false;
    }
    let mut j: usize = 0;
    while j < n
        invariant
            j <= n,
            n == a@.len(),
            n == b@.len(),
            forall|k: int| 0 <= k < j ==> a@[k] == b@[k],
        decreases n - j,
    {
        if a.get_char(j) != b.get_char(j) {
            return false;
        }
        j = j + 1;
    }
    proof {
        assert(a@ =~= b@);
    }
    true
}

pub open spec fn spec_contains_seq(s: Seq<char>, p: Seq<char>) -> bool {
    exists|k: int| 0 <= k && k + p.len() <= s.len() && #[trigger] s.subrange(k, k + p.len()) == p
}

pub fn str_contains(s: &str, needle: &str) -> (r: bool)
    ensures
        r == spec_contains_seq(s@, needle@),
{
    let n = s.unicode_len();
    let m = needle.unicode_len();
    if m > n {
        return false;
    }
    if m == 0 {
        proof {
            let kk: int = 0;
            assert(s@.subrange(kk, kk + needle@.len()) =~= needle@);
            assert(spec_contains_seq(s@, needle@));
        }
        return true;
    }
    let mut k: usize = 0;
    while k <= n - m
        invariant
            k <= n - m + 1,
            0 < m <= n,
            m == needle@.len(),
            n == s@.len(),
            forall|j: int| 0 <= j < k ==> #[trigger] s@.subrange(j, j + needle@.len()) != needle@,
        decreases n - k,
    {
        if str_starts_with(s.substring_char(k, n), needle) {
            proof {
                assert(s@.subrange(k as int, n as int).subrange(0, m as int) =~= s@.subrange(
                    k as int,
                    k + m,
                ));
            }
            return true;
        }
        proof {
            assert(s@.subrange(k as int, n as int).subrange(0, m as int) =~= s@.subrange(
                k as int,
                k + m,
            ));
        }
        k = k + 1;
    }
    false
}

pub open spec fn is_digit_char(c: char) -> bool {
    48 <= c as int <= 57
}

pub open spec fn digit_value(c: char) -> int {
    c as int - 48
}

pub open spec fn all_digits(s: Seq<char>) -> bool {
    forall|i: int| 0 <= i < s.len() ==> is_digit_char(s[i])
}

pub open spec fn digits_value(s: Seq<char>) -> int
    decreases s.len(),
{
    if s.len() == 0 {
        0
    } else {
        digits_value(s.drop_last()) * 10 + digit_value(s.last())
    }
}

/// The value of `str::parse::<u16>`: an optional leading `+`, then at least
/// one decimal digit, and a value that fits in sixteen bits.
pub open spec fn spec_parse_u16(s: Seq<char>) -> Option<u16> {
    let t = if s.len() > 0 && s[0] == '+' {
        s.drop_first()
    } else {
        s
    };
    if t.len() > 0 && all_digits(t) && 0 <= digits_value(t) <= 65535 {
        Some(digits_value(t) as u16)
    } else {
        None
    }
}

pub fn parse_u16(s: &str) -> (r: Option<u16>)
    ensures
        r == spec_parse_u16(s@),
{
    let n = s.unicode_len();
    let start: usize = if n > 0 && s.get_char(0) == '+' {
        1
    } else {
        0
    };
    let ghost t = if s@.len() > 0 && s@[0] == '+' {
        s@.drop_first()
    } else {
        s@
    };
    proof {
        assert(t =~= s@.subrange(start as int, n as int));
    }
    if start == n {
        return None;
    }
    let mut acc: u32 = 0;
    let mut overflow: bool = false;
    let mut i: usize = start;
    proof {
        assert(s@.subrange(start as int, start as int) =~= Seq::<char>::empty());
    }
    while i < n
        invariant
            start <= i <= n,
            n == s@.len(),
            t == s@.subrange(start as int, n as int),
            t == (if s@.len() > 0 && s@[0] == '+' {
                s@.drop_first()
            } else {
                s@
            }),
            all_digits(s@.subrange(start as int, i as int)),
            !overflow ==> acc as int == digits_value(s@.subrange(start as int, i as int)) && acc
                <= 65535,
            overflow ==> digits_value(s@.subrange(start as int, i as int)) > 65535,
        decreases n - i,
    {
        let c = s.get_char(i);
        let u = c as u32;
        if !(48 <= u && u <= 57) {
            proof {
                assert(t[i - start] == s@[i as int]);
                assert(!is_digit_char(t[i - start]));
                assert(!all_digits(t));
            }
            return None;
        }
        proof {
            assert(s@.subrange(start as int, i + 1).drop_last() =~= s@.subrange(
                start as int,
                i as int,
            ));
            assert(s@.subrange(start as int, i + 1).last() == s@[i as int]);
        }
        if !overflow {
            acc = acc * 10 + (u - 48);
            if acc > 65535 {
                overflow = true;
            }
        } else {
            proof {
                let prev = digits_value(s@.subrange(start as int, i as int));
                assert(digit_value(s@[i as int]) >= 0);
                assert(prev * 10 + digit_value(s@[i as int]) > 65535) by (nonlinear_arith)
                    requires
                        prev > 65535,
                        digit_value(s@[i as int]) >= 0,
                ;
            }
        }
        i = i + 1;
    }
    proof {
        assert(s@.subrange(start as int, n as int) == t);
    }
    if overflow {
        None
    } else {
        Some(acc as u16)
    }
}

} // verus!
