use vstd::prelude::*;

verus! {

/// The position of the first `": "` in `s` that starts at or after `from`;
/// `s.len()` when there is none.
pub open spec fn separator_from(s: Seq<char>, from: int) -> int
    decreases s.len() - from,
{
    if from < 0 || from + 1 >= s.len() {
        s.len() as int
    } else if s[from] == ':' && s[from + 1] == ' ' {
        from
    } else {
        separator_from(s, from + 1)
    }
}

/// `s` holds at least one `": "`, so splitting it on `": "` gives two fields.
pub open spec fn has_separator(s: Seq<char>) -> bool {
    separator_from(s, 0) < s.len()
}

/// The text before the first `": "`.
pub open spec fn first_field(s: Seq<char>) -> Seq<char> {
    s.subrange(0, separator_from(s, 0))
}

/// The text between the first `": "` and the next one (or the end).
pub open spec fn second_field(s: Seq<char>) -> Seq<char> {
    let start = separator_from(s, 0) + 2;
    s.subrange(start, separator_from(s, start))
}

/// What `separator_from` finds: a `": "` at the position it gives (when it
/// finds one), and no `": "` starting anywhere before that from `from` on.
pub proof fn lemma_separator_from(s: Seq<char>, from: int)
    requires
        0 <= from <= s.len(),
    ensures
        from <= separator_from(s, from) <= s.len(),
        separator_from(s, from) < s.len() ==> {
            &&& separator_from(s, from) + 1 < s.len()
            &&& s[separator_from(s, from)] == ':'
            &&& s[separator_from(s, from) + 1] == ' '
        },
        forall|j: int|
            from <= j < separator_from(s, from) && j + 1 < s.len() ==> !(#[trigger] s[j] == ':'
                && s[j + 1] == ' '),
    decreases s.len() - from,
{
    if from + 1 < s.len() && !(s[from] == ':' && s[from + 1] == ' ') {
        lemma_separator_from(s, from + 1);
    }
}

/// The product of a line is the whole text before its first `": "`: the line
/// is the product, then `": "`, then the rest, and no `": "` starts inside
/// the product.
pub proof fn lemma_first_field(s: Seq<char>)
    requires
        has_separator(s),
    ensures
        s == first_field(s) + seq![':', ' '] + s.subrange(first_field(s).len() + 2int, s.len() as int),
        forall|j: int|
            0 <= j < first_field(s).len() ==> !(#[trigger] s[j] == ':' && s[j + 1] == ' '),
{
    lemma_separator_from(s, 0);
    let p = separator_from(s, 0);
    assert(first_field(s).len() == p);
    assert(s =~= first_field(s) + seq![':', ' '] + s.subrange(p + 2, s.len() as int));
}

/// The quantity text of a line is everything after the first `": "` up to the
/// next `": "` or the end of the line, and no `": "` starts inside it.
pub proof fn lemma_second_field(s: Seq<char>)
    requires
        has_separator(s),
    ensures
        second_field(s) == s.subrange(
            first_field(s).len() + 2int,
            first_field(s).len() + 2int + second_field(s).len(),
        ),
        first_field(s).len() + 2 + second_field(s).len() == s.len() || {
            &&& first_field(s).len() + 2 + second_field(s).len() + 1 < s.len()
            &&& s[first_field(s).len() + 2int + second_field(s).len()] == ':'
            &&& s[first_field(s).len() + 3int + second_field(s).len()] == ' '
        },
        forall|j: int|
            first_field(s).len() + 2 <= j < first_field(s).len() + 2 + second_field(s).len() && j
                + 1 < s.len() ==> !(#[trigger] s[j] == ':' && s[j + 1] == ' '),
{
    lemma_separator_from(s, 0);
    let p = separator_from(s, 0);
    lemma_separator_from(s, p + 2);
    let q = separator_from(s, p + 2);
    assert(second_field(s).len() == q - (p + 2));
}

/// An ASCII decimal digit.
pub open spec fn is_digit(c: char) -> bool {
    '0' <= c && c <= '9'
}

/// The value of a decimal digit.
pub open spec fn digit_value(c: char) -> nat {
    ((c as int) - ('0' as int)) as nat
}

/// The value of a string of decimal digits, most significant first.
pub open spec fn decimal_value(d: Seq<char>) -> nat
    decreases d.len(),
{
    if d.len() == 0 {
        0
    } else {
        decimal_value(d.drop_last()) * 10 + digit_value(d.last())
    }
}

/// The digits of an unsigned number: the text without one leading `+`.
pub open spec fn unsigned_digits(f: Seq<char>) -> Seq<char> {
    if f.len() > 0 && f[0] == '+' {
        f.drop_first()
    } else {
        f
    }
}

/// `f` is the text of a `usize`: an optional `+`, then one or more decimal
/// digits whose value fits in a `usize`.
pub open spec fn parses_as_usize(f: Seq<char>) -> bool {
    let d = unsigned_digits(f);
    &&& d.len() > 0
    &&& forall|i: int| 0 <= i < d.len() ==> is_digit(#[trigger] d[i])
    &&& decimal_value(d) <= usize::MAX
}

/// The `usize` that `f` spells (meaningful when `parses_as_usize(f)`).
pub open spec fn parsed_usize(f: Seq<char>) -> usize {
    decimal_value(unsigned_digits(f)) as usize
}

/// A prefix of a string of digits is worth no more than the whole string.
proof fn lemma_decimal_prefix(d: Seq<char>, i: int)
    requires
        0 <= i <= d.len(),
        forall|j: int| 0 <= j < d.len() ==> is_digit(#[trigger] d[j]),
    ensures
        decimal_value(d.subrange(0, i)) <= decimal_value(d),
    decreases d.len(),
{
    if i == d.len() {
        assert(d.subrange(0, i) =~= d);
    } else {
        let shorter = d.drop_last();
        assert forall|j: int| 0 <= j < shorter.len() implies is_digit(#[trigger] shorter[j]) by {
            assert(shorter[j] == d[j]);
        }
        lemma_decimal_prefix(shorter, i);
        assert(shorter.subrange(0, i) =~= d.subrange(0, i));
    }
}

/// The position of the first `": "` at or after `from` in `s`, or its length.
pub fn find_separator(s: &str, from: usize) -> (pos: usize)
    requires
        from <= s@.len(),
    ensures
        pos as int == separator_from(s@, from as int),
        from <= pos <= s@.len(),
        s@.len() <= usize::MAX,
        pos < s@.len() ==> pos + 2 <= s@.len(),
{
    let n = s.unicode_len();
    let mut i = from;
    while n - i >= 2
        invariant
            n == s@.len(),
            from <= i <= n,
            separator_from(s@, from as int) == separator_from(s@, i as int),
        decreases n - i,
    {
        if s.get_char(i) == ':' && s.get_char(i + 1) == ' ' {
            return i;
        }
        i = i + 1;
    }
    n
}

/// Reads a `usize` written in decimal, with an optional leading `+`, as
/// `str::parse::<usize>` does; `None` for anything else and on overflow.
pub fn parse_usize(field: &str) -> (value: Option<usize>)
    ensures
        value == (if parses_as_usize(field@) {
            Some(parsed_usize(field@))
        } else {
            None
        }),
{
    let n = field.unicode_len();
    let start: usize = if n > 0 && field.get_char(0) == '+' {
        1
    } else {
        0
    };
    let ghost f = field@;
    let ghost d = unsigned_digits(f);
    assert(d =~= f.subrange(start as int, n as int));
    if start == n {
        return None;
    }
    let mut acc: usize = 0;
    let mut i = start;
    while i < n
        invariant
            f == field@,
            d == unsigned_digits(f),
            n == f.len(),
            start <= i <= n,
            d =~= f.subrange(start as int, n as int),
            forall|j: int| 0 <= j < i - start ==> is_digit(#[trigger] d[j]),
            acc == decimal_value(d.subrange(0, i - start)),
        decreases n - i,
    {
        let c = field.get_char(i);
        assert(d[i - start] == c);
        if !('0' <= c && c <= '9') {
            assert(!is_digit(d[i - start]));
            return None;
        }
        let digit = ((c as u32) - ('0' as u32)) as usize;
        assert(d.subrange(0, i + 1 - start).drop_last() =~= d.subrange(0, i - start));
        assert(d.subrange(0, i + 1 - start).last() == c);
        match acc.checked_mul(10) {
            Some(tens) => match tens.checked_add(digit) {
                Some(next) => {
                    acc = next;
                },
                None => {
                    proof {
                        if forall|j: int| 0 <= j < d.len() ==> is_digit(#[trigger] d[j]) {
                            lemma_decimal_prefix(d, i + 1 - start);
                        }
                    }
                    return None;
                },
            },
            None => {
                proof {
                    if forall|j: int| 0 <= j < d.len() ==> is_digit(#[trigger] d[j]) {
                        lemma_decimal_prefix(d, i + 1 - start);
                    }
                }
                return None;
            },
        }
        i = i + 1;
    }
    assert(d.subrange(0, n - start) =~= d);
    Some(acc)
}

} // verus!
