//! Parsing of the property dump that a device prints: each useful line reads
//! `[key]: [value]`, the brackets being stripped by dropping the first and
//! last character of each raw token. The human-readable model string joins
//! whichever of the manufacturer and model properties are present, and falls
//! back to a placeholder when neither is.

use vstd::prelude::*;

use crate::text::{
    find_char, lemma_find_char_spec, seq_views, spec_find_char, spec_split, spec_trim, split_char,
    str_equal, trim_str,
};

verus! {

/// Dropping the first and the last character; one- and zero-character
/// inputs become empty.
pub open spec fn strip_ends(s: Seq<char>) -> Seq<char> {
    if s.len() <= 1 {
        Seq::empty()
    } else {
        s.subrange(1, s.len() - 1)
    }
}

fn strip_ends_str(s: &str) -> (r: String)
    ensures
        r@ == strip_ends(s@),
{
    let n = s.unicode_len();
    if n <= 1 {
        let r = String::new();
        proof {
            assert(r@ =~= strip_ends(s@));
        }
        r
    } else {
        String::from_str(s.substring_char(1, n - 1))
    }
}

/// One property line: trimmed, split at its first colon, both tokens
/// stripped of their enclosing characters (the value trimmed first). Lines
/// without a colon carry no property.
pub open spec fn spec_property_line(line: Seq<char>) -> Option<(Seq<char>, Seq<char>)> {
    let t = spec_trim(line);
    match spec_find_char(t, ':') {
        None => None,
        Some(i) => Some(
            (
                strip_ends(t.subrange(0, i)),
                strip_ends(spec_trim(t.subrange(i + 1, t.len() as int))),
            ),
        ),
    }
}

pub fn parse_property_line(line: &str) -> (r: Option<(String, String)>)
    ensures
        match r {
            None => spec_property_line(line@) is None,
            Some(p) => spec_property_line(line@) == Some((p.0@, p.1@)),
        },
{
    let t = trim_str(line);
    let n = t.as_str().unicode_len();
    match find_char(t.as_str(), ':') {
        None => None,
        Some(i) => {
            proof {
                lemma_find_char_spec(t@, ':');
            }
            let key = strip_ends_str(t.as_str().substring_char(0, i));
            let value_raw = trim_str(t.as_str().substring_char(i + 1, n));
            let value = strip_ends_str(value_raw.as_str());
            Some((key, value))
        },
    }
}

pub open spec fn pair_views(v: Seq<(String, String)>) -> Seq<(Seq<char>, Seq<char>)> {
    v.map_values(|p: (String, String)| (p.0@, p.1@))
}

/// The properties carried by a sequence of lines, in line order.
pub open spec fn spec_property_pairs(lines: Seq<Seq<char>>) -> Seq<(Seq<char>, Seq<char>)>
    decreases lines.len(),
{
    if lines.len() == 0 {
        Seq::empty()
    } else {
        let rest = spec_property_pairs(lines.drop_last());
        match spec_property_line(lines.last()) {
            None => rest,
            Some(p) => rest.push(p),
        }
    }
}

/// The value of the last pair carrying the key, as collecting pairs into an
/// ordered map would leave it.
pub open spec fn spec_lookup(pairs: Seq<(Seq<char>, Seq<char>)>, key: Seq<char>) -> Option<
    Seq<char>,
>
    decreases pairs.len(),
{
    if pairs.len() == 0 {
        None
    } else if pairs.last().0 == key {
        Some(pairs.last().1)
    } else {
        spec_lookup(pairs.drop_last(), key)
    }
}

pub fn lookup_property(pairs: &Vec<(String, String)>, key: &str) -> (r: Option<String>)
    ensures
        match r {
            None => spec_lookup(pair_views(pairs@), key@) is None,
            Some(v) => spec_lookup(pair_views(pairs@), key@) == Some(v@),
        },
{
    let n = pairs.len();
    let mut latest: Option<String> = None;
    let mut i: usize = 0;
    proof {
        assert(pair_views(pairs@).subrange(0, 0) =~= Seq::<(Seq<char>, Seq<char>)>::empty());
    }
    while i < n
        invariant
            i <= n,
            n == pairs@.len(),
            match latest {
                None => spec_lookup(pair_views(pairs@).subrange(0, i as int), key@) is None,
                Some(v) => spec_lookup(pair_views(pairs@).subrange(0, i as int), key@) == Some(v@),
            },
        decreases n - i,
    {
        proof {
            assert(pair_views(pairs@).subrange(0, i + 1).drop_last() =~= pair_views(
                pairs@,
            ).subrange(0, i as int));
            assert(pair_views(pairs@).subrange(0, i + 1).last() == pair_views(pairs@)[i as int]);
            assert(pair_views(pairs@)[i as int] == (pairs@[i as int].0@, pairs@[i as int].1@));
        }
        if str_equal(pairs[i].0.as_str(), key) {
            latest = Some(pairs[i].1.clone());
        }
        i = i + 1;
    }
    proof {
        assert(pair_views(pairs@).subrange(0, n as int) =~= pair_views(pairs@));
    }
    latest
}

/// The model string for a property dump: `<manufacturer> <model>` joined by
/// one space when both are present, the one that is present alone otherwise,
/// and the placeholder when neither is.
pub open spec fn spec_model_string(stdout: Seq<char>) -> Seq<char> {
    let lines = spec_split(spec_trim(stdout), '\n');
    let pairs = spec_property_pairs(lines);
    let manufacturer = spec_lookup(pairs, "ro.product.manufacturer"@);
    let model = spec_lookup(pairs, "ro.product.model"@);
    match (manufacturer, model) {
        (Some(a), Some(b)) => a + " "@ + b,
        (Some(a), None) => a,
        (None, Some(b)) => b,
        (None, None) => "<Unknown>"@,
    }
}

/// Computes the model string of a device from the raw property dump its
/// property command printed.
pub fn find_device_model(stdout: &str) -> (r: String)
    ensures
        r@ == spec_model_string(stdout@),
{
    let trimmed = trim_str(stdout);
    let lines = split_char(trimmed.as_str(), '\n');
    let ghost line_views = seq_views(lines@);
    let n = lines.len();
    let mut pairs: Vec<(String, String)> = Vec::new();
    let mut i: usize = 0;
    proof {
        assert(line_views.subrange(0, 0) =~~= Seq::<Seq<char>>::empty());
        assert(pair_views(pairs@) =~= spec_property_pairs(line_views.subrange(0, 0)));
    }
    while i < n
        invariant
            i <= n,
            n == lines@.len(),
            line_views == seq_views(lines@),
            pair_views(pairs@) == spec_property_pairs(line_views.subrange(0, i as int)),
        decreases n - i,
    {
        proof {
            assert(line_views.subrange(0, i + 1).drop_last() =~~= line_views.subrange(0, i as int));
            assert(line_views.subrange(0, i + 1).last() == line_views[i as int]);
            assert(line_views[i as int] == lines@[i as int]@);
        }
        match parse_property_line(lines[i].as_str()) {
            Some(p) => {
                let ghost old_pairs = pairs@;
                pairs.push(p);
                proof {
                    assert(pair_views(pairs@) =~~= pair_views(old_pairs).push(
                        (pairs@[pairs@.len() - 1].0@, pairs@[pairs@.len() - 1].1@),
                    ));
                }
            },
            None => {},
        }
        i = i + 1;
    }
    proof {
        assert(line_views.subrange(0, n as int) =~~= line_views);
    }
    let manufacturer = lookup_property(&pairs, "ro.product.manufacturer");
    let model = lookup_property(&pairs, "ro.product.model");
    match (manufacturer, model) {
        (Some(a), Some(b)) => {
            let mut r = a;
            r.append(" ");
            r.append(b.as_str());
            r
        },
        (Some(a), None) => a,
        (None, Some(b)) => b,
        (None, None) => String::from_str("<Unknown>"),
    }
}

} // verus!
