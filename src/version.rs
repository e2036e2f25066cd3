//! Dotted version numbers ("1.4.12") and which of two is newer.
use vstd::prelude::*;

verus! {

/// The pieces of `s` between occurrences of `sep`; always at least one.
pub open spec fn split_on(s: Seq<char>, sep: char) -> Seq<Seq<char>>
    decreases s.len(),
{
    if s.len() == 0 {
        seq![Seq::<char>::empty()]
    } else {
        let r = split_on(s.drop_last(), sep);
        if s.last() == sep {
            r.push(Seq::<char>::empty())
        } else {
            r.update(r.len() - 1, r.last().push(s.last()))
        }
    }
}

/// Every character is an ASCII decimal digit.
pub open spec fn all_digits(s: Seq<char>) -> bool {
    forall|i: int| 0 <= i < s.len() ==> '0' <= #[trigger] s[i] <= '9'
}

/// The number the decimal digits `s` write.
pub open spec fn digits_value(s: Seq<char>) -> int
    decreases s.len(),
{
    if s.len() == 0 {
        0
    } else {
        digits_value(s.drop_last()) * 10 + (s.last() as int - '0' as int)
    }
}

/// A number of at most `max` as text: an optional `+`, then one or more
/// decimal digits whose value is at most `max`.
pub open spec fn decimal_of_text(s: Seq<char>, max: u64) -> Option<u64> {
    let d = if s.len() > 0 && s[0] == '+' {
        s.drop_first()
    } else {
        s
    };
    if d.len() > 0 && all_digits(d) && digits_value(d) <= max {
        Some(digits_value(d) as u64)
    } else {
        None
    }
}

/// An unsigned 32-bit number as text, as `u32::from_str` reads it.
pub open spec fn u32_of_text(s: Seq<char>) -> Option<u32> {
    match decimal_of_text(s, u32::MAX as u64) {
        Some(v) => Some(v as u32),
        None => None,
    }
}

/// An unsigned 64-bit number as text, as `u64::from_str` reads it.
pub open spec fn u64_of_text(s: Seq<char>) -> Option<u64> {
    decimal_of_text(s, u64::MAX)
}

/// The numbers of a dotted version, or `None` where a piece is not a number.
pub open spec fn version_numbers(s: Seq<char>) -> Option<Seq<u32>> {
    let pieces = split_on(s, '.');
    if forall|i: int| 0 <= i < pieces.len() ==> (#[trigger] u32_of_text(pieces[i])) is Some {
        Some(Seq::new(pieces.len(), |i: int| u32_of_text(pieces[i])->0))
    } else {
        None
    }
}

/// `latest` is newer than `current`: at the first position where they
/// differ it is larger, or, equal on their common length, it is longer.
pub open spec fn newer(latest: Seq<u32>, current: Seq<u32>) -> bool
    decreases latest.len(),
{
    if latest.len() == 0 || current.len() == 0 {
        latest.len() > current.len()
    } else if latest[0] > current[0] {
        true
    } else if latest[0] < current[0] {
        false
    } else {
        newer(latest.drop_first(), current.drop_first())
    }
}

proof fn lemma_split_nonempty(s: Seq<char>, sep: char)
    ensures
        split_on(s, sep).len() >= 1,
    decreases s.len(),
{
    if s.len() > 0 {
        lemma_split_nonempty(s.drop_last(), sep);
    }
}

proof fn lemma_digits_value_nonneg(s: Seq<char>)
    requires
        all_digits(s),
    ensures
        digits_value(s) >= 0,
    decreases s.len(),
{
    if s.len() > 0 {
        lemma_digits_value_nonneg(s.drop_last());
    }
}

/// A digit string's value is never below the value of one of its prefixes.
proof fn lemma_digits_value_grows(s: Seq<char>, k: int)
    requires
        all_digits(s),
        0 <= k <= s.len(),
    ensures
        digits_value(s.take(k)) <= digits_value(s),
    decreases s.len() - k,
{
    if k < s.len() {
        lemma_digits_value_grows(s, k + 1);
        assert(s.take(k + 1).drop_last() =~= s.take(k));
        assert(all_digits(s.take(k)));
        lemma_digits_value_nonneg(s.take(k));
    } else {
        assert(s.take(k) =~= s);
    }
}

/// Parses a number of at most `max` written as an optional `+` and decimal
/// digits.
pub fn parse_decimal(s: &Vec<char>, max: u64) -> (r: Option<u64>)
    ensures
        r == decimal_of_text(s@, max),
{
    let ghost d = if s@.len() > 0 && s@[0] == '+' {
        s@.drop_first()
    } else {
        s@
    };
    let start: usize = if s.len() > 0 && s[0] == '+' {
        1
    } else {
        0
    };
    if start >= s.len() {
        return None;
    }
    proof {
        assert(d =~= s@.skip(start as int));
        assert(d.take(0) =~= Seq::<char>::empty());
    }
    let mut value: u64 = 0;
    let mut k: usize = start;
    while k < s.len()
        invariant
            d == (if s@.len() > 0 && s@[0] == '+' {
                s@.drop_first()
            } else {
                s@
            }),
            start <= k <= s@.len(),
            start < s@.len(),
            d == s@.skip(start as int),
            all_digits(d.take(k - start)),
            value == digits_value(d.take(k - start)),
            value <= max,
        decreases s@.len() - k,
    {
        let c = s[k];
        proof {
            assert(d.take(k - start + 1).drop_last() =~= d.take(k - start));
            assert(d[k - start] == c);
            assert(d.take(k - start + 1).last() == c);
        }
        if c < '0' || c > '9' {
            proof {
                assert(!all_digits(d));
            }
            return None;
        }
        let digit = (c as u32 - '0' as u32) as u64;
        if digit > max || value > (max - digit) / 10 {
            proof {
                if digit <= max {
                    assert(value * 10 + digit > max) by (nonlinear_arith)
                        requires
                            value > (max - digit) / 10,
                            digit <= max,
                    ;
                }
                assert(all_digits(d.take(k - start + 1)));
                if all_digits(d) {
                    lemma_digits_value_grows(d, k - start + 1);
                }
            }
            return None;
        }
        let next = value * 10 + digit;
        if next > max {
            proof {
                assert(all_digits(d.take(k - start + 1)));
                if all_digits(d) {
                    lemma_digits_value_grows(d, k - start + 1);
                }
            }
            return None;
        }
        value = next;
        k = k + 1;
        proof {
            assert(all_digits(d.take(k - start)));
        }
    }
    proof {
        assert(d.take(k - start) =~= d);
    }
    Some(value)
}

/// Parses an unsigned 32-bit number as `u32::from_str` reads it.
pub fn parse_u32_text(s: &Vec<char>) -> (r: Option<u32>)
    ensures
        r == u32_of_text(s@),
{
    match parse_decimal(s, u32::MAX as u64) {
        Some(v) => Some(v as u32),
        None => None,
    }
}

/// Parses an unsigned 64-bit number as `u64::from_str` reads it.
pub fn parse_u64_text(s: &Vec<char>) -> (r: Option<u64>)
    ensures
        r == u64_of_text(s@),
{
    parse_decimal(s, u64::MAX)
}

/// The characters of `s`, in order.
pub fn chars_of(s: &str) -> (r: Vec<char>)
    ensures
        r@ == s@,
{
    let n = s.unicode_len();
    let mut out: Vec<char> = Vec::new();
    let mut k: usize = 0;
    while k < n
        invariant
            n == s@.len(),
            k <= n,
            out@ == s@.take(k as int),
        decreases n - k,
    {
        out.push(s.get_char(k));
        k = k + 1;
        proof {
            assert(out@ =~= s@.take(k as int));
        }
    }
    proof {
        assert(s@.take(n as int) =~= s@);
    }
    out
}

/// The numbers of the dotted version `s`, or `None` where a piece between
/// dots is not a number.
pub fn parse_version(s: &str) -> (r: Option<Vec<u32>>)
    ensures
        match r {
            Some(v) => version_numbers(s@) == Some(v@),
            None => version_numbers(s@) is None,
        },
{
    proof {
        lemma_split_nonempty(s@, '.');
    }
    let cs = chars_of(s);
    let ghost full = cs@;
    let mut done: Vec<u32> = Vec::new();
    let mut piece: Vec<char> = Vec::new();
    let mut k: usize = 0;
    proof {
        lemma_split_nonempty(full, '.');
        assert(full.take(0) =~= Seq::<char>::empty());
    }
    while k < cs.len()
        invariant
            full == cs@,
            full == s@,
            k <= full.len(),
            split_on(full.take(k as int), '.').len() == done@.len() + 1,
            split_on(full.take(k as int), '.').last() == piece@,
            forall|i: int|
                0 <= i < done@.len() ==> u32_of_text(split_on(full.take(k as int), '.')[i])
                    == Some(#[trigger] done@[i]),
        decreases full.len() - k,
    {
        let c = cs[k];
        let ghost before = split_on(full.take(k as int), '.');
        proof {
            assert(full.take(k + 1).drop_last() =~= full.take(k as int));
            assert(full.take(k + 1).last() == c);
        }
        if c == '.' {
            match parse_u32_text(&piece) {
                None => {
                    proof {
                        let pieces = split_on(full, '.');
                        lemma_split_prefix_pieces(full, k as int + 1);
                        assert(split_on(full.take(k + 1), '.') == before.push(Seq::<char>::empty()));
                        assert(pieces[done@.len() as int] == piece@);
                        assert(u32_of_text(pieces[done@.len() as int]) is None);
                    }
                    return None;
                },
                Some(v) => {
                    done.push(v);
                    piece = Vec::new();
                    proof {
                        assert(split_on(full.take(k + 1), '.') == before.push(Seq::<char>::empty()));
                    }
                },
            }
        } else {
            piece.push(c);
            proof {
                assert(split_on(full.take(k + 1), '.') == before.update(
                    before.len() - 1,
                    before.last().push(c),
                ));
            }
        }
        k = k + 1;
        proof {
            let after = split_on(full.take(k as int), '.');
            assert forall|i: int| 0 <= i < done@.len() implies u32_of_text(after[i]) == Some(
                #[trigger] done@[i],
            ) by {
                if i < before.len() - 1 {
                    assert(after[i] == before[i]);
                }
            }
            assert(after.last() =~= piece@);
        }
    }
    proof {
        assert(full.take(k as int) =~= full);
    }
    match parse_u32_text(&piece) {
        None => {
            proof {
                let pieces = split_on(full, '.');
                assert(pieces[done@.len() as int] == piece@);
                assert(u32_of_text(pieces[done@.len() as int]) is None);
            }
            None
        },
        Some(v) => {
            done.push(v);
            proof {
                let pieces = split_on(full, '.');
                assert forall|i: int| 0 <= i < pieces.len() implies (#[trigger] u32_of_text(
                    pieces[i],
                )) is Some by {
                    assert(u32_of_text(pieces[i]) == Some(done@[i]));
                }
                assert(Seq::new(pieces.len(), |i: int| u32_of_text(pieces[i])->0) =~= done@);
            }
            Some(done)
        },
    }
}

/// The completed pieces of a prefix that ends with a separator are pieces
/// of the whole.
proof fn lemma_split_prefix_pieces(s: Seq<char>, k: int)
    requires
        0 <= k <= s.len(),
    ensures
        forall|i: int|
            0 <= i < split_on(s.take(k), '.').len() - 1 ==> #[trigger] split_on(s, '.')[i]
                == split_on(s.take(k), '.')[i],
        split_on(s.take(k), '.').len() <= split_on(s, '.').len(),
    decreases s.len() - k,
{
    lemma_split_nonempty(s.take(k), '.');
    if k < s.len() {
        lemma_split_prefix_pieces(s, k + 1);
        assert(s.take(k + 1).drop_last() =~= s.take(k));
        lemma_split_nonempty(s.take(k + 1), '.');
    } else {
        assert(s.take(k) =~= s);
    }
}

/// Compares two dotted versions: `Ok(true)` where `latest` is newer than
/// `current`, `Ok(false)` otherwise, and an error where either does not
/// parse.
pub fn is_newer_version(latest: &str, current: &str) -> (r: Result<bool, String>)
    ensures
        match (version_numbers(latest@), version_numbers(current@)) {
            (Some(l), Some(c)) => r == Ok::<bool, String>(newer(l, c)),
            _ => r is Err,
        },
{
    let latest_parts = match parse_version(latest) {
        Some(v) => v,
        None => {
            return Err(String::from_str("版本号格式错误"));
        },
    };
    let current_parts = match parse_version(current) {
        Some(v) => v,
        None => {
            return Err(String::from_str("版本号格式错误"));
        },
    };
    let mut k: usize = 0;
    proof {
        assert(latest_parts@.skip(0) =~= latest_parts@);
        assert(current_parts@.skip(0) =~= current_parts@);
    }
    while k < latest_parts.len() && k < current_parts.len()
        invariant
            version_numbers(latest@) == Some(latest_parts@),
            version_numbers(current@) == Some(current_parts@),
            k <= latest_parts@.len(),
            k <= current_parts@.len(),
            newer(latest_parts@, current_parts@) == newer(
                latest_parts@.skip(k as int),
                current_parts@.skip(k as int),
            ),
        decreases latest_parts@.len() - k,
    {
        let l = latest_parts[k];
        let c = current_parts[k];
        proof {
            assert(latest_parts@.skip(k as int)[0] == l);
            assert(current_parts@.skip(k as int)[0] == c);
            assert(latest_parts@.skip(k as int).drop_first() =~= latest_parts@.skip(k + 1));
            assert(current_parts@.skip(k as int).drop_first() =~= current_parts@.skip(k + 1));
        }
        proof {
            let a = latest_parts@.skip(k as int);
            let b = current_parts@.skip(k as int);
            assert(newer(a, b) == if l > c {
                true
            } else if l < c {
                false
            } else {
                newer(a.drop_first(), b.drop_first())
            });
        }
        if l > c {
            return Ok(true);
        } else if l < c {
            return Ok(false);
        }
        k = k + 1;
    }
    Ok(latest_parts.len() > current_parts.len())
}

/// The prefix of the application's release tags.
pub const RELEASE_TAG_PREFIX: &'static str = "app-v";

/// The version a release tag names: the text after `app-v`.
pub open spec fn release_version(tag: Seq<char>) -> Option<Seq<char>> {
    let p = RELEASE_TAG_PREFIX@;
    if tag.len() >= p.len() && tag.take(p.len() as int) == p {
        Some(tag.skip(p.len() as int))
    } else {
        None
    }
}

/// Whether the latest release, named by its tag, is newer than the running
/// version `current`: `Ok(Some(tag))` where it is, `Ok(None)` where it is
/// not, and an error where the tag or either version cannot be read.
pub fn update_available(latest_tag: &str, current: &str) -> (r: Result<Option<String>, String>)
    ensures
        match release_version(latest_tag@) {
            None => r is Err,
            Some(v) => match (version_numbers(v), version_numbers(current@)) {
                (Some(l), Some(c)) => match r {
                    Ok(Some(t)) => newer(l, c) && t@ == latest_tag@,
                    Ok(None) => !newer(l, c),
                    Err(_) => false,
                },
                _ => r is Err,
            },
        },
{
    let prefix_len = RELEASE_TAG_PREFIX.unicode_len();
    let n = latest_tag.unicode_len();
    if n < prefix_len {
        return Err(String::from_str("版本标签格式错误"));
    }
    let head = latest_tag.substring_char(0, prefix_len);
    if !(String::from_str(head) == String::from_str(RELEASE_TAG_PREFIX)) {
        return Err(String::from_str("版本标签格式错误"));
    }
    let rest = latest_tag.substring_char(prefix_len, n);
    proof {
        assert(rest@ == latest_tag@.skip(prefix_len as int));
    }
    match is_newer_version(rest, current) {
        Ok(true) => Ok(Some(String::from_str(latest_tag))),
        Ok(false) => Ok(None),
        Err(e) => Err(e),
    }
}

} // verus!
