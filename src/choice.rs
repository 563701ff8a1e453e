//! Choosing the source port: a line of text read from the user is parsed as
//! an index into the list of available output ports.
use vstd::prelude::*;
use vstd::string::StrSliceExecFns;

verus! {

/// Why a port choice was refused.
#[derive(Copy, Clone, Debug, PartialEq, Eq, Structural)]
pub enum ChoiceError {
    /// The line is not a decimal index.
    Malformed,
    /// The index names no port of the list.
    OutOfRange,
}

/// The Unicode white space characters.
#[verifier::opaque]
pub open spec fn is_space(c: char) -> bool {
    c == ' ' || c == '\t' || c == '\n' || c == '\u{0B}' || c == '\u{0C}' || c == '\r'
        || c == '\u{85}' || c == '\u{A0}' || c == '\u{1680}' || c == '\u{2000}' || c == '\u{2001}'
        || c == '\u{2002}' || c == '\u{2003}' || c == '\u{2004}' || c == '\u{2005}'
        || c == '\u{2006}' || c == '\u{2007}' || c == '\u{2008}' || c == '\u{2009}'
        || c == '\u{200A}' || c == '\u{2028}' || c == '\u{2029}' || c == '\u{202F}'
        || c == '\u{205F}' || c == '\u{3000}'
}

/// `s` without its leading white space.
pub open spec fn trim_start(s: Seq<char>) -> Seq<char>
    decreases s.len(),
{
    if s.len() > 0 && is_space(s[0]) {
        trim_start(s.drop_first())
    } else {
        s
    }
}

/// `s` without its trailing white space.
pub open spec fn trim_end(s: Seq<char>) -> Seq<char>
    decreases s.len(),
{
    if s.len() > 0 && is_space(s.last()) {
        trim_end(s.drop_last())
    } else {
        s
    }
}

pub open spec fn is_digit(c: char) -> bool {
    '0' <= c && c <= '9'
}

pub open spec fn all_digits(s: Seq<char>) -> bool {
    forall|i: int| 0 <= i < s.len() ==> is_digit(#[trigger] s[i])
}

/// `t` without a leading `+`.
pub open spec fn unsigned_part(t: Seq<char>) -> Seq<char> {
    if t.len() > 0 && t[0] == '+' {
        t.drop_first()
    } else {
        t
    }
}

/// The value of a string of decimal digits.
pub open spec fn digits_value(s: Seq<char>) -> nat
    decreases s.len(),
{
    if s.len() == 0 {
        0
    } else {
        digits_value(s.drop_last()) * 10 + ((s.last() as u32) - ('0' as u32)) as nat
    }
}

/// The index that `line` gives: after white space is trimmed from both
/// ends, an optional `+` and one or more decimal digits whose value fits
/// in a `usize`.
pub open spec fn parsed_index(line: Seq<char>) -> Option<nat> {
    let d = unsigned_part(trim_end(trim_start(line)));
    if d.len() > 0 && all_digits(d) && digits_value(d) <= usize::MAX {
        Some(digits_value(d))
    } else {
        None
    }
}

fn is_space_char(c: char) -> (r: bool)
    ensures
        r == is_space(c),
{
    reveal(is_space);
    c == ' ' || c == '\t' || c == '\n' || c == '\u{0B}' || c == '\u{0C}' || c == '\r'
        || c == '\u{85}' || c == '\u{A0}' || c == '\u{1680}' || c == '\u{2000}' || c == '\u{2001}'
        || c == '\u{2002}' || c == '\u{2003}' || c == '\u{2004}' || c == '\u{2005}'
        || c == '\u{2006}' || c == '\u{2007}' || c == '\u{2008}' || c == '\u{2009}'
        || c == '\u{200A}' || c == '\u{2028}' || c == '\u{2029}' || c == '\u{202F}'
        || c == '\u{205F}' || c == '\u{3000}'
}

/// A string of digits is worth at least as much as any of its prefixes.
proof fn lemma_digits_value_grows(s: Seq<char>, k: int)
    requires
        0 <= k <= s.len(),
    ensures
        digits_value(s.subrange(0, k)) <= digits_value(s),
    decreases s.len(),
{
    if k < s.len() {
        lemma_digits_value_grows(s.drop_last(), k);
        assert(s.drop_last().subrange(0, k) =~= s.subrange(0, k));
    } else {
        assert(s.subrange(0, k) =~= s);
    }
}

/// Parses a line typed by the user as a port index.
pub fn parse_choice(line: &str) -> (r: Option<usize>)
    ensures
        r matches Some(v) ==> parsed_index(line@) == Some(v as nat),
        r is None ==> parsed_index(line@) is None,
{
    let n = line.unicode_len();
    let ghost s = line@;
    let mut start: usize = 0;
    assert(s.subrange(0, n as int) =~= s);
    while start < n && is_space_char(line.get_char(start))
        invariant
            n == s.len(),
            s == line@,
            start <= n,
            trim_start(s) == trim_start(s.subrange(start as int, n as int)),
        decreases n - start,
    {
        assert(s.subrange(start as int, n as int).drop_first() =~= s.subrange(start + 1, n as int));
        start = start + 1;
    }
    assert(trim_start(s) == s.subrange(start as int, n as int));
    let mut end: usize = n;
    while end > start && is_space_char(line.get_char(end - 1))
        invariant
            n == s.len(),
            s == line@,
            start <= end <= n,
            trim_end(trim_start(s)) == trim_end(s.subrange(start as int, end as int)),
        decreases end,
    {
        assert(s.subrange(start as int, end as int).drop_last() =~= s.subrange(
            start as int,
            end - 1,
        ));
        end = end - 1;
    }
    let ghost t = s.subrange(start as int, end as int);
    assert(trim_end(trim_start(s)) == t);
    let mut first = start;
    if first < end && line.get_char(first) == '+' {
        first = first + 1;
    }
    let ghost d = s.subrange(first as int, end as int);
    assert(d =~= unsigned_part(t));
    if first == end {
        return None;
    }
    let mut acc: usize = 0;
    let mut k: usize = first;
    while k < end
        invariant
            n == s.len(),
            s == line@,
            first <= k <= end <= n,
            d == s.subrange(first as int, end as int),
            d == unsigned_part(trim_end(trim_start(s))),
            forall|i: int| first <= i < k ==> is_digit(#[trigger] s[i]),
            acc as nat == digits_value(s.subrange(first as int, k as int)),
        decreases end - k,
    {
        let c = line.get_char(k);
        if !('0' <= c && c <= '9') {
            assert(!is_digit(d[k - first]));
            assert(!all_digits(d));
            return None;
        }
        let digit = (c as u32 - '0' as u32) as usize;
        let ghost pre = s.subrange(first as int, k as int);
        let ghost next = s.subrange(first as int, k + 1);
        assert(next.drop_last() =~= pre);
        if acc > (usize::MAX - digit) / 10 {
            assert(digits_value(next) > usize::MAX) by (nonlinear_arith)
                requires
                    acc > (usize::MAX - digit) / 10,
                    digits_value(next) == acc * 10 + digit,
            ;
            proof {
                lemma_digits_value_grows(d, k + 1 - first);
                assert(d.subrange(0, k + 1 - first) =~= next);
            }
            return None;
        }
        assert(acc * 10 + digit <= usize::MAX) by (nonlinear_arith)
            requires
                acc <= (usize::MAX - digit) / 10,
                digit <= 9,
        ;
        acc = acc * 10 + digit;
        k = k + 1;
    }
    assert(s.subrange(first as int, k as int) =~= d);
    assert forall|i: int| 0 <= i < d.len() implies is_digit(#[trigger] d[i]) by {
        assert(d[i] == s[first + i]);
    }
    assert(all_digits(d));
    Some(acc)
}

/// The port at `index` of `ports`, if there is one.
pub fn select_port(ports: &Vec<String>, index: usize) -> (r: Option<String>)
    ensures
        index < ports@.len() ==> (r matches Some(p) && p@ == ports@[index as int]@),
        index >= ports@.len() ==> r is None,
{
    if index < ports.len() {
        Some(ports[index].clone())
    } else {
        None
    }
}

/// The port that a line typed by the user chooses from `ports`.
pub fn choose_port(ports: &Vec<String>, line: &str) -> (r: Result<String, ChoiceError>)
    ensures
        match parsed_index(line@) {
            None => r == Err::<String, ChoiceError>(ChoiceError::Malformed),
            Some(i) => if i < ports@.len() {
                (r matches Ok(p) && p@ == ports@[i as int]@)
            } else {
                r == Err::<String, ChoiceError>(ChoiceError::OutOfRange)
            },
        },
{
    match parse_choice(line) {
        None => Err(ChoiceError::Malformed),
        Some(i) => match select_port(ports, i) {
            Some(p) => Ok(p),
            None => Err(ChoiceError::OutOfRange),
        },
    }
}

} // verus!
