//! Text building: decimal numbers, joined lists, trimming and replacing.
use vstd::prelude::*;
#[allow(unused_imports)]
use vstd::string::*;

verus! {

/// The decimal digit of `d`.
pub open spec fn digit(d: nat) -> char {
    if d == 0 {
        '0'
    } else if d == 1 {
        '1'
    } else if d == 2 {
        '2'
    } else if d == 3 {
        '3'
    } else if d == 4 {
        '4'
    } else if d == 5 {
        '5'
    } else if d == 6 {
        '6'
    } else if d == 7 {
        '7'
    } else if d == 8 {
        '8'
    } else {
        '9'
    }
}

/// Decimal spelling of a number, without leading zeros.
pub open spec fn decimal(n: nat) -> Seq<char>
    decreases n,
{
    if n < 10 {
        seq![digit(n)]
    } else {
        decimal(n / 10).push(digit(n % 10))
    }
}

/// The number that decimal digits spell.
pub open spec fn spelled_number(s: Seq<char>) -> nat
    decreases s.len(),
{
    if s.len() == 0 {
        0
    } else {
        10 * spelled_number(s.drop_last()) + (s.last() as nat - '0' as nat) as nat
    }
}

/// Decimal digits spell the number that they were made from, without a zero in front.
pub proof fn decimals_spell_their_number(n: nat)
    ensures
        spelled_number(decimal(n)) == n,
        decimal(n).len() > 0,
        decimal(n)[0] == '0' ==> n == 0,
        forall|i: int| 0 <= i < decimal(n).len() ==> '0' <= #[trigger] decimal(n)[i] <= '9',
    decreases n,
{
    reveal_with_fuel(spelled_number, 2);
    if n < 10 {
        assert(decimal(n).drop_last() == Seq::<char>::empty());
    } else {
        decimals_spell_their_number(n / 10);
        assert(decimal(n).drop_last() == decimal(n / 10));
        assert(decimal(n).last() == digit(n % 10));
        assert(decimal(n)[0] == decimal(n / 10)[0]);
    }
}

/// The decimal digit of `d` as text.
fn digit_text(d: u64) -> (s: &'static str)
    requires
        d < 10,
    ensures
        s@ == seq![digit(d as nat)],
{
    proof {
        reveal_strlit("0");
        reveal_strlit("1");
        reveal_strlit("2");
        reveal_strlit("3");
        reveal_strlit("4");
        reveal_strlit("5");
        reveal_strlit("6");
        reveal_strlit("7");
        reveal_strlit("8");
        reveal_strlit("9");
    }
    if d == 0 {
        "0"
    } else if d == 1 {
        "1"
    } else if d == 2 {
        "2"
    } else if d == 3 {
        "3"
    } else if d == 4 {
        "4"
    } else if d == 5 {
        "5"
    } else if d == 6 {
        "6"
    } else if d == 7 {
        "7"
    } else if d == 8 {
        "8"
    } else {
        "9"
    }
}

/// Appends the decimal spelling of `n`.
pub fn push_decimal(out: &mut String, n: u64)
    ensures
        final(out)@ == old(out)@ + decimal(n as nat),
    decreases n,
{
    if n >= 10 {
        push_decimal(out, n / 10);
    }
    out.append(digit_text(n % 10));
}

/// The parts, separated by `sep`.
pub open spec fn joined(parts: Seq<Seq<char>>, sep: Seq<char>) -> Seq<char>
    decreases parts.len(),
{
    if parts.len() == 0 {
        Seq::empty()
    } else if parts.len() == 1 {
        parts[0]
    } else {
        joined(parts.drop_last(), sep) + sep + parts.last()
    }
}

/// The characters of every string.
pub open spec fn texts(parts: Seq<String>) -> Seq<Seq<char>> {
    parts.map_values(|s: String| s@)
}

/// Joins the parts with a separator.
pub fn join(parts: &Vec<String>, sep: &str) -> (out: String)
    ensures
        out@ == joined(texts(parts@), sep@),
{
    let mut out = String::new();
    let ghost all = texts(parts@);
    assert(all.subrange(0, 0) == Seq::<Seq<char>>::empty());
    for i in 0..parts.len()
        invariant
            all == texts(parts@),
            out@ == joined(all.subrange(0, i as int), sep@),
    {
        if i > 0 {
            out.append(sep);
        }
        out.append(parts[i].as_str());
        proof {
            let next = all.subrange(0, i + 1);
            assert(next.drop_last() == all.subrange(0, i as int));
            assert(next.last() == parts@[i as int]@);
            if i == 0 {
                assert(next[0] == parts@[0]@);
            }
        }
    }
    assert(all.subrange(0, all.len() as int) == all);
    out
}

/// Unicode white space, as `char::is_whitespace` counts it.
pub open spec fn is_white(c: char) -> bool {
    let v = c as int;
    ||| 0x9 <= v <= 0xD
    ||| v == 0x20
    ||| v == 0x85
    ||| v == 0xA0
    ||| v == 0x1680
    ||| 0x2000 <= v <= 0x200A
    ||| v == 0x2028
    ||| v == 0x2029
    ||| v == 0x202F
    ||| v == 0x205F
    ||| v == 0x3000
}

/// `s` without trailing white space.
pub open spec fn trimmed_end(s: Seq<char>) -> Seq<char>
    decreases s.len(),
{
    if s.len() > 0 && is_white(s.last()) {
        trimmed_end(s.drop_last())
    } else {
        s
    }
}

/// `s` without line feeds at its end.
pub open spec fn chomped_end(s: Seq<char>) -> Seq<char>
    decreases s.len(),
{
    if s.len() > 0 && s.last() == '\n' {
        chomped_end(s.drop_last())
    } else {
        s
    }
}

/// `s` without line feeds at its beginning.
pub open spec fn chomped_start(s: Seq<char>) -> Seq<char>
    decreases s.len(),
{
    if s.len() > 0 && s[0] == '\n' {
        chomped_start(s.drop_first())
    } else {
        s
    }
}

/// `s` without line feeds at its edges.
pub open spec fn chomped(s: Seq<char>) -> Seq<char> {
    chomped_end(chomped_start(s))
}

/// Whether `c` is Unicode white space.
fn white(c: char) -> (yes: bool)
    ensures
        yes == is_white(c),
{
    let v: u32 = c as u32;
    (0x9 <= v && v <= 0xD) || v == 0x20 || v == 0x85 || v == 0xA0 || v == 0x1680 || (0x2000 <= v
        && v <= 0x200A) || v == 0x2028 || v == 0x2029 || v == 0x202F || v == 0x205F || v == 0x3000
}

/// The text without trailing white space.
pub fn trim_end<'a>(s: &'a str) -> (out: &'a str)
    ensures
        out@ == trimmed_end(s@),
{
    let mut end: usize = s.unicode_len();
    assert(s@.subrange(0, end as int) == s@);
    while end > 0 && white(s.get_char(end - 1))
        invariant
            end <= s@.len(),
            trimmed_end(s@.subrange(0, end as int)) == trimmed_end(s@),
        decreases end,
    {
        assert(s@.subrange(0, end as int).drop_last() == s@.subrange(0, end - 1));
        end = end - 1;
    }
    s.substring_char(0, end)
}

/// The text without line feeds at its edges.
pub fn trim_newlines<'a>(s: &'a str) -> (out: &'a str)
    ensures
        out@ == chomped(s@),
{
    let len: usize = s.unicode_len();
    let mut start: usize = 0;
    assert(s@.subrange(0, len as int) == s@);
    while start < len && s.get_char(start) == '\n'
        invariant
            len == s@.len(),
            start <= len,
            chomped_start(s@.subrange(start as int, len as int)) == chomped_start(s@),
        decreases len - start,
    {
        assert(s@.subrange(start as int, len as int).drop_first() == s@.subrange(
            start + 1,
            len as int,
        ));
        start = start + 1;
    }
    let ghost rest = s@.subrange(start as int, len as int);
    assert(chomped_start(rest) == rest);
    let mut end: usize = len;
    while end > start && s.get_char(end - 1) == '\n'
        invariant
            len == s@.len(),
            start <= end <= len,
            chomped_end(s@.subrange(start as int, end as int)) == chomped_end(
                s@.subrange(start as int, len as int),
            ),
        decreases end - start,
    {
        assert(s@.subrange(start as int, end as int).drop_last() == s@.subrange(
            start as int,
            end - 1,
        ));
        end = end - 1;
    }
    s.substring_char(start, end)
}

/// `needle` stands in `hay` at position `at`.
pub open spec fn occurs_at(hay: Seq<char>, needle: Seq<char>, at: int) -> bool {
    0 <= at && at + needle.len() <= hay.len() && hay.subrange(at, at + needle.len()) == needle
}

/// `hay` with every occurrence of `needle` replaced, found from left to right without overlap.
pub open spec fn replaced(hay: Seq<char>, needle: Seq<char>, by: Seq<char>) -> Seq<char>
    decreases hay.len(),
{
    if hay.len() == 0 || needle.len() == 0 {
        hay
    } else if occurs_at(hay, needle, 0) {
        by + replaced(hay.subrange(needle.len() as int, hay.len() as int), needle, by)
    } else {
        seq![hay[0]] + replaced(hay.drop_first(), needle, by)
    }
}

/// Whether `needle` stands in `hay` at position `at`.
fn stands_at(hay: &str, needle: &str, at: usize) -> (yes: bool)
    requires
        at <= hay@.len(),
    ensures
        yes == occurs_at(hay@, needle@, at as int),
{
    let len: usize = hay.unicode_len();
    let size: usize = needle.unicode_len();
    if size > len - at {
        return false;
    }
    for k in 0..size
        invariant
            len == hay@.len(),
            size == needle@.len(),
            at <= len,
            size <= len - at,
            forall|j: int| 0 <= j < k ==> hay@[at + j] == #[trigger] needle@[j],
    {
        if hay.get_char(at + k) != needle.get_char(k) {
            assert(hay@.subrange(at as int, at + size)[k as int] == hay@[at + k]);
            return false;
        }
    }
    assert(hay@.subrange(at as int, at + size) == needle@);
    true
}

/// The text with every occurrence of `needle` replaced, found from left to right without overlap.
pub fn replace(hay: &str, needle: &str, by: &str) -> (out: String)
    requires
        needle@.len() > 0,
    ensures
        out@ == replaced(hay@, needle@, by@),
{
    let len: usize = hay.unicode_len();
    let size: usize = needle.unicode_len();
    let mut out = String::new();
    let mut at: usize = 0;
    assert(hay@.subrange(0, len as int) == hay@);
    assert(out@ + replaced(hay@, needle@, by@) == replaced(hay@, needle@, by@));
    while at < len
        invariant
            len == hay@.len(),
            size == needle@.len(),
            size > 0,
            at <= len,
            out@ + replaced(hay@.subrange(at as int, len as int), needle@, by@) == replaced(
                hay@,
                needle@,
                by@,
            ),
        decreases len - at,
    {
        let ghost rest = hay@.subrange(at as int, len as int);
        let ghost before = out@;
        let found = stands_at(hay, needle, at);
        proof {
            if at + size <= len {
                assert(rest.subrange(0, size as int) == hay@.subrange(at as int, at + size));
            }
            assert(found == occurs_at(rest, needle@, 0));
        }
        if found {
            out.append(by);
            proof {
                let later = hay@.subrange(at + size, len as int);
                assert(rest.subrange(size as int, rest.len() as int) == later);
                assert(before + (by@ + replaced(later, needle@, by@)) == (before + by@) + replaced(
                    later,
                    needle@,
                    by@,
                ));
            }
            at = at + size;
        } else {
            out.append(hay.substring_char(at, at + 1));
            proof {
                let later = hay@.subrange(at + 1, len as int);
                assert(rest.drop_first() == later);
                assert(hay@.subrange(at as int, at + 1) == seq![rest[0]]);
                assert(before + (seq![rest[0]] + replaced(later, needle@, by@)) == (before
                    + seq![rest[0]]) + replaced(later, needle@, by@));
            }
            at = at + 1;
        }
    }
    assert(hay@.subrange(at as int, len as int) == Seq::<char>::empty());
    assert(out@ + Seq::<char>::empty() == out@);
    out
}

} // verus!
