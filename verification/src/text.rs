use vstd::prelude::*;

verus! {

/// Character-by-character equality of two string slices.
pub fn str_eq(a: &str, b: &str) -> (r: bool)
    ensures
        r == (a@ == b@),
{
    let na = a.unicode_len();
    let nb = b.unicode_len();
    if na != nb {
        return false;
    }
    let mut i: usize = 0;
    while i < na
        invariant
            na == a@.len(),
            nb == b@.len(),
            na == nb,
            i <= na,
            forall|j: int| 0 <= j < i ==> a@[j] == b@[j],
        decreases na - i,
    {
        if a.get_char(i) != b.get_char(i) {
            return false;
        }
        i += 1;
    }
    proof {
        assert(a@ =~= b@);
    }
    true
}

/// Equality of the range [from, to) of `s` with the whole of `t`.
pub fn range_eq(s: &str, from: usize, to: usize, t: &str) -> (r: bool)
    requires
        from <= to <= s@.len(),
    ensures
        r == (s@.subrange(from as int, to as int) == t@),
{
    let nt = t.unicode_len();
    if to - from != nt {
        return false;
    }
    let mut i: usize = 0;
    while i < nt
        invariant
            from <= to <= s@.len(),
            nt == t@.len(),
            to - from == nt,
            i <= nt,
            forall|j: int| 0 <= j < i ==> s@[from + j] == t@[j],
        decreases nt - i,
    {
        if s.get_char(from + i) != t.get_char(i) {
            proof {
                assert(s@.subrange(from as int, to as int)[i as int] != t@[i as int]);
            }
            return false;
        }
        i += 1;
    }
    proof {
        assert(s@.subrange(from as int, to as int) =~= t@);
    }
    true
}

/// A ">>" separator starts at index `i` of `s`.
pub open spec fn sep2_at(s: Seq<char>, i: int) -> bool {
    0 <= i && i + 2 <= s.len() && s[i] == '>' && s[i + 1] == '>'
}

/// The first index at or after `from` where a ">>" separator starts.
pub open spec fn first_sep2(s: Seq<char>, from: int) -> Option<int>
    decreases s.len() - from,
{
    if from < 0 || from + 2 > s.len() {
        None
    } else if s[from] == '>' && s[from + 1] == '>' {
        Some(from)
    } else {
        first_sep2(s, from + 1)
    }
}

proof fn lemma_first_sep2_skip(s: Seq<char>, from: int, i: int)
    requires
        0 <= from <= i,
        forall|j: int| from <= j < i ==> !sep2_at(s, j),
    ensures
        first_sep2(s, from) == first_sep2(s, i),
    decreases i - from,
{
    if from < i {
        if from + 2 <= s.len() {
            assert(!sep2_at(s, from));
        }
        lemma_first_sep2_skip(s, from + 1, i);
    }
}

/// Find the first ">>" separator at or after `from`.
pub fn find_sep2(s: &str, from: usize) -> (r: Option<usize>)
    requires
        from <= s@.len(),
    ensures
        match r {
            Some(k) => from <= k && k + 2 <= s@.len() && first_sep2(s@, from as int) == Some(
                k as int,
            ),
            None => first_sep2(s@, from as int) is None,
        },
{
    let n = s.unicode_len();
    if n < 2 {
        return None;
    }
    let mut i: usize = from;
    while i <= n - 2
        invariant
            from <= i,
            n == s@.len(),
            2 <= n,
            i <= n,
            forall|j: int| from <= j < i ==> !sep2_at(s@, j),
        decreases n - i,
    {
        if s.get_char(i) == '>' && s.get_char(i + 1) == '>' {
            proof {
                lemma_first_sep2_skip(s@, from as int, i as int);
            }
            return Some(i);
        }
        i += 1;
    }
    proof {
        lemma_first_sep2_skip(s@, from as int, i as int);
    }
    None
}

/// The first index in [from, to) of `s` holding the character `c`.
pub open spec fn first_char(s: Seq<char>, from: int, to: int, c: char) -> Option<int>
    decreases to - from,
{
    if from < 0 || from >= to || to > s.len() {
        None
    } else if s[from] == c {
        Some(from)
    } else {
        first_char(s, from + 1, to, c)
    }
}

proof fn lemma_first_char_skip(s: Seq<char>, from: int, to: int, c: char, i: int)
    requires
        0 <= from <= i <= to,
        forall|j: int| from <= j < i ==> s[j] != c || !(0 <= j < s.len()),
    ensures
        first_char(s, from, to, c) == first_char(s, i, to, c),
    decreases i - from,
{
    if from < i {
        lemma_first_char_skip(s, from + 1, to, c, i);
    }
}

/// Find the first occurrence of `c` in the range [from, to) of `s`.
pub fn find_char(s: &str, from: usize, to: usize, c: char) -> (r: Option<usize>)
    requires
        from <= to <= s@.len(),
    ensures
        match r {
            Some(k) => from <= k < to && first_char(s@, from as int, to as int, c) == Some(k as int),
            None => first_char(s@, from as int, to as int, c) is None,
        },
{
    let mut i: usize = from;
    while i < to
        invariant
            from <= i <= to <= s@.len(),
            forall|j: int| from <= j < i ==> s@[j] != c,
        decreases to - i,
    {
        if s.get_char(i) == c {
            proof {
                lemma_first_char_skip(s@, from as int, to as int, c, i as int);
            }
            return Some(i);
        }
        i += 1;
    }
    proof {
        lemma_first_char_skip(s@, from as int, to as int, c, i as int);
    }
    None
}

/// `c` is a decimal digit.
pub open spec fn is_digit(c: char) -> bool {
    48 <= c as u32 && c as u32 <= 57
}

/// The numeric value of a decimal digit.
pub open spec fn digit_val(c: char) -> nat {
    (c as u32 - 48) as nat
}

/// Every character of `s` is a decimal digit.
pub open spec fn all_digits(s: Seq<char>) -> bool {
    forall|i: int| 0 <= i < s.len() ==> is_digit(s[i])
}

/// The value of a digit string, most significant digit first.
pub open spec fn dec_value(s: Seq<char>) -> nat
    decreases s.len(),
{
    if s.len() == 0 {
        0
    } else {
        dec_value(s.drop_last()) * 10 + digit_val(s.last())
    }
}

/// The digits of `t` after std's optional leading '+'.
pub open spec fn digits_part(t: Seq<char>) -> Seq<char> {
    if t.len() > 0 && t[0] == '+' {
        t.drop_first()
    } else {
        t
    }
}

/// `t` is accepted by `str::parse::<u64>`: an optional leading '+', then at
/// least one digit, with a value that fits in a u64.
pub open spec fn u64_str_ok(t: Seq<char>) -> bool {
    &&& digits_part(t).len() > 0
    &&& all_digits(digits_part(t))
    &&& dec_value(digits_part(t)) <= u64::MAX
}

/// The value `str::parse::<u64>` yields for an accepted `t`.
pub open spec fn u64_str_val(t: Seq<char>) -> nat {
    dec_value(digits_part(t))
}

proof fn lemma_dec_value_prefix(s: Seq<char>, k: int)
    requires
        0 <= k <= s.len(),
    ensures
        dec_value(s.take(k)) <= dec_value(s),
    decreases s.len() - k,
{
    if k < s.len() {
        assert(s.take(k + 1).drop_last() =~= s.take(k));
        assert(dec_value(s.take(k + 1)) == dec_value(s.take(k)) * 10 + digit_val(s.take(k + 1).last()));
        lemma_dec_value_prefix(s, k + 1);
    } else {
        assert(s.take(k) =~= s);
    }
}

/// Parse the range [from, to) of `s` exactly as `str::parse::<u64>` would:
/// `Some` with the decimal value on an accepted string, `None` otherwise.
#[verifier::rlimit(50)]
pub fn parse_u64_range(s: &str, from: usize, to: usize) -> (r: Option<u64>)
    requires
        from <= to <= s@.len(),
    ensures
        u64_str_ok(s@.subrange(from as int, to as int)) ==> r == Some(
            u64_str_val(s@.subrange(from as int, to as int)) as u64,
        ),
        !u64_str_ok(s@.subrange(from as int, to as int)) ==> r is None,
{
    let ghost t = s@.subrange(from as int, to as int);
    let mut start = from;
    if from < to && s.get_char(from) == '+' {
        start = from + 1;
    }
    let ghost d = s@.subrange(start as int, to as int);
    proof {
        if from < to && s@[from as int] == '+' {
            assert(t.drop_first() =~= d);
        } else {
            assert(t =~= d);
        }
        assert(digits_part(t) == d);
    }
    if start == to {
        return None;
    }
    let mut acc: u64 = 0;
    let mut i = start;
    while i < to
        invariant
            from <= start <= i <= to <= s@.len(),
            t == s@.subrange(from as int, to as int),
            d == s@.subrange(start as int, to as int),
            digits_part(t) == d,
            all_digits(d.take(i - start)),
            acc as nat == dec_value(d.take(i - start)),
        decreases to - i,
    {
        let c = s.get_char(i);
        let u = c as u32;
        if !(48 <= u && u <= 57) {
            proof {
                assert(d[i - start] == s@[i as int]);
                assert(!is_digit(d[i - start]));
                assert(!all_digits(d));
                assert(!u64_str_ok(t));
            }
            return None;
        }
        let dv: u64 = (u - 48) as u64;
        let ghost prev = d.take(i - start);
        let ghost cur = d.take(i + 1 - start);
        proof {
            assert(cur.drop_last() =~= prev);
            assert(cur.last() == s@[i as int]);
            assert(dec_value(cur) == dec_value(prev) * 10 + digit_val(cur.last()));
        }
        let step = match acc.checked_mul(10) {
            Some(m) => m.checked_add(dv),
            None => None,
        };
        match step {
            Some(v) => {
                acc = v;
            },
            None => {
                proof {
                    assert(dec_value(cur) > u64::MAX);
                    lemma_dec_value_prefix(d, i + 1 - start);
                    assert(d.take(d.len() as int) =~= d);
                    assert(dec_value(d) > u64::MAX);
                    assert(!u64_str_ok(t));
                }
                return None;
            },
        }
        i += 1;
    }
    proof {
        assert(d.take(i - start) =~= d);
    }
    Some(acc)
}

pub proof fn lemma_first_char_bounds(s: Seq<char>, from: int, to: int, c: char)
    ensures
        first_char(s, from, to, c) matches Some(k) ==> from <= k < to && to <= s.len(),
    decreases to - from,
{
    if !(from < 0 || from >= to || to > s.len()) && s[from] != c {
        lemma_first_char_bounds(s, from + 1, to, c);
    }
}

/// The nonempty lines of a read buffer from position `i` on: the maximal
/// '\n'-free segments, in order, empty segments dropped.
pub open spec fn spec_lines(s: Seq<char>, i: int) -> Seq<Seq<char>>
    decreases s.len() - i,
    via spec_lines_decreases
{
    if i < 0 || i >= s.len() {
        Seq::<Seq<char>>::empty()
    } else {
        match first_char(s, i, s.len() as int, '\n') {
            Some(k) => if k > i {
                seq![s.subrange(i, k)] + spec_lines(s, k + 1)
            } else {
                spec_lines(s, k + 1)
            },
            None => seq![s.subrange(i, s.len() as int)],
        }
    }
}

#[via_fn]
proof fn spec_lines_decreases(s: Seq<char>, i: int) {
    lemma_first_char_bounds(s, i, s.len() as int, '\n');
}

/// The views of a list of lines.
pub open spec fn lines_view(ls: Seq<String>) -> Seq<Seq<char>> {
    ls.map_values(|l: String| l@)
}

/// Split a read buffer into its nonempty lines, in order, exactly as the
/// daemon consumes them.
pub fn split_lines(s: &str) -> (r: Vec<String>)
    ensures
        lines_view(r@) == spec_lines(s@, 0),
{
    let n = s.unicode_len();
    let mut r: Vec<String> = Vec::new();
    let mut i: usize = 0;
    while i < n
        invariant
            n == s@.len(),
            i <= n,
            lines_view(r@) + spec_lines(s@, i as int) == spec_lines(s@, 0),
        decreases n - i,
    {
        let ghost before = lines_view(r@);
        match find_char(s, i, n, '\n') {
            Some(k) => {
                if k > i {
                    let seg = s.substring_char(i, k).to_owned();
                    r.push(seg);
                    proof {
                        assert(lines_view(r@) =~= before + seq![s@.subrange(i as int, k as int)]);
                        assert(lines_view(r@) + spec_lines(s@, k + 1) =~= before + spec_lines(
                            s@,
                            i as int,
                        ));
                    }
                }
                i = k + 1;
            },
            None => {
                let seg = s.substring_char(i, n).to_owned();
                r.push(seg);
                proof {
                    assert(lines_view(r@) =~= before + seq![s@.subrange(i as int, n as int)]);
                    assert(lines_view(r@) + spec_lines(s@, n as int) =~= before + spec_lines(
                        s@,
                        i as int,
                    ));
                }
                i = n;
            },
        }
    }
    proof {
        assert(lines_view(r@) + spec_lines(s@, i as int) =~= lines_view(r@));
    }
    r
}

/// The character for one decimal digit.
pub open spec fn digit_char(d: nat) -> char {
    if d == 0 {
        '0'
    } else if d == 1 {
        '1'
    } else if d == 2 {
        '2'
    } else if d == 3 {
        '3'
    } else if d == 4 {
        '4'
    } else if d == 5 {
        '5'
    } else if d == 6 {
        '6'
    } else if d == 7 {
        '7'
    } else if d == 8 {
        '8'
    } else {
        '9'
    }
}

/// The decimal representation of `n`, most significant digit first.
pub open spec fn dec_str(n: nat) -> Seq<char>
    decreases n,
{
    if n < 10 {
        seq![digit_char(n)]
    } else {
        dec_str(n / 10).push(digit_char(n % 10))
    }
}

fn digit_string(d: u64) -> (r: String)
    requires
        d < 10,
    ensures
        r@ == seq![digit_char(d as nat)],
{
    let s: &str = if d == 0 {
        "0"
    } else if d == 1 {
        "1"
    } else if d == 2 {
        "2"
    } else if d == 3 {
        "3"
    } else if d == 4 {
        "4"
    } else if d == 5 {
        "5"
    } else if d == 6 {
        "6"
    } else if d == 7 {
        "7"
    } else if d == 8 {
        "8"
    } else {
        "9"
    };
    proof {
        reveal_strlit("0");
        reveal_strlit("1");
        reveal_strlit("2");
        reveal_strlit("3");
        reveal_strlit("4");
        reveal_strlit("5");
        reveal_strlit("6");
        reveal_strlit("7");
        reveal_strlit("8");
        reveal_strlit("9");
        assert(s@ =~= seq![digit_char(d as nat)]);
    }
    s.to_owned()
}

/// Render `n` in decimal, as `format!("{}", n)` would.
pub fn u64_to_string(n: u64) -> (r: String)
    ensures
        r@ == dec_str(n as nat),
    decreases n,
{
    if n < 10 {
        digit_string(n)
    } else {
        let mut s = u64_to_string(n / 10);
        let d = digit_string(n % 10);
        s.append(d.as_str());
        proof {
            assert(dec_str((n / 10) as nat).push(digit_char((n % 10) as nat)) =~= dec_str(
                (n / 10) as nat,
            ) + seq![digit_char((n % 10) as nat)]);
        }
        s
    }
}

} // verus!
