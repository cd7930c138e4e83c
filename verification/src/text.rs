use vstd::prelude::*;
use vstd::string::*;

verus! {

/// Character-wise string equality, decided executably and reflected exactly
/// into the views.
pub fn str_eq(a: &str, b: &str) -> (r: bool)
    ensures
        r == (a@ == b@),
{
    let na = a.unicode_len();
    let nb = b.unicode_len();
    if na != nb {
        return false;
    }
    let mut i: usize = 0;
    while i < na
        invariant
            i <= na,
            na == a@.len(),
            nb == b@.len(),
            na == nb,
            forall|k: int| 0 <= k < i ==> a@[k] == b@[k],
        decreases na - i,
    {
        if a.get_char(i) != b.get_char(i) {
            return false;
        }
        i = i + 1;
    }
    proof {
        assert(a@ =~= b@);
    }
    true
}

/// The views of a sequence of strings.
pub open spec fn string_views(ss: Seq<String>) -> Seq<Seq<char>> {
    ss.map_values(|s: String| s@)
}

/// The given parts joined by the separator: nothing between zero parts, no
/// separator around a single part.
pub open spec fn spec_join(parts: Seq<Seq<char>>, sep: Seq<char>) -> Seq<char>
    decreases parts.len(),
{
    if parts.len() == 0 {
        Seq::empty()
    } else if parts.len() == 1 {
        parts[0]
    } else {
        parts[0] + sep + spec_join(parts.drop_first(), sep)
    }
}

/// Joins strings with single spaces, as `echo` prints its arguments.
pub fn join_spaces(parts: &Vec<String>) -> (r: String)
    ensures
        r@ == spec_join(string_views(parts@), " "@),
{
    let ghost views = string_views(parts@);
    let ghost sep = " "@;
    let n = parts.len();
    let mut out = String::new();
    let mut i: usize = 0;
    proof {
        assert(views.len() == n);
        assert(views.skip(0) =~= views);
        assert(Seq::<char>::empty() + spec_join(views, sep) =~= spec_join(views, sep));
    }
    while i < n
        invariant
            i <= n,
            n == parts@.len(),
            views == string_views(parts@),
            sep == " "@,
            spec_join(views, sep) == out@ + spec_join(views.skip(i as int), sep),
        decreases n - i,
    {
        let ghost before = out@;
        out.append(parts[i].as_str());
        proof {
            assert(views.skip(i as int)[0] == views[i as int]);
        }
        if i + 1 < n {
            out.append(" ");
            proof {
                assert(views.skip(i as int).len() >= 2);
                assert(views.skip(i as int).drop_first() =~= views.skip(i + 1));
                assert(spec_join(views.skip(i as int), sep) == views[i as int] + sep + spec_join(
                    views.skip(i + 1),
                    sep,
                ));
                assert(before + (views[i as int] + sep + spec_join(views.skip(i + 1), sep)) =~= (
                before + views[i as int] + sep) + spec_join(views.skip(i + 1), sep));
            }
        } else {
            proof {
                assert(views.skip(i as int).len() == 1);
                assert(spec_join(views.skip(i as int), sep) == views[i as int]);
                assert(views.skip(i + 1) =~= Seq::<Seq<char>>::empty());
                assert(spec_join(views.skip(i + 1), sep) == Seq::<char>::empty());
                assert(before + (views[i as int] + Seq::<char>::empty()) =~= (before
                    + views[i as int]) + Seq::<char>::empty());
                assert(views[i as int] + Seq::<char>::empty() =~= views[i as int]);
            }
        }
        i = i + 1;
    }
    proof {
        assert(views.skip(n as int) =~= Seq::<Seq<char>>::empty());
        assert(spec_join(views.skip(n as int), sep) == Seq::<char>::empty());
        assert(out@ + Seq::<char>::empty() =~= out@);
    }
    out
}

// ---------------------------------------------------------------------------
// Decimal integers in text.
// ---------------------------------------------------------------------------

/// The numeric value of a decimal digit character, if it is one.
pub open spec fn digit_of(c: char) -> Option<int> {
    if c == '0' {
        Some(0)
    } else if c == '1' {
        Some(1)
    } else if c == '2' {
        Some(2)
    } else if c == '3' {
        Some(3)
    } else if c == '4' {
        Some(4)
    } else if c == '5' {
        Some(5)
    } else if c == '6' {
        Some(6)
    } else if c == '7' {
        Some(7)
    } else if c == '8' {
        Some(8)
    } else if c == '9' {
        Some(9)
    } else {
        None
    }
}

/// The value of a nonempty all-digit sequence; `None` if it is empty or any
/// character is not a digit.
pub open spec fn digits_value(s: Seq<char>) -> Option<int>
    decreases s.len(),
{
    if s.len() == 0 {
        None
    } else if s.len() == 1 {
        digit_of(s[0])
    } else {
        match (digits_value(s.drop_last()), digit_of(s.last())) {
            (Some(v), Some(d)) => Some(v * 10 + d),
            _ => None,
        }
    }
}

/// What `exit` accepts as a status: an optional sign, then digits, within
/// the range of a 32-bit status.
pub open spec fn spec_parse_i32(s: Seq<char>) -> Option<int> {
    let signed = s.len() >= 1 && (s[0] == '+' || s[0] == '-');
    let body = if signed {
        s.skip(1)
    } else {
        s
    };
    let negative = s.len() >= 1 && s[0] == '-';
    match digits_value(body) {
        Some(v) => {
            let val = if negative {
                -v
            } else {
                v
            };
            if i32::MIN <= val <= i32::MAX {
                Some(val)
            } else {
                None
            }
        },
        None => None,
    }
}

proof fn lemma_digits_value_nonneg(s: Seq<char>)
    ensures
        match digits_value(s) {
            Some(v) => v >= 0,
            None => true,
        },
    decreases s.len(),
{
    if s.len() > 1 {
        lemma_digits_value_nonneg(s.drop_last());
    }
}

/// Once a prefix fails to be all digits, every extension fails too.
proof fn lemma_digits_value_none(s: Seq<char>, j: int, m: int)
    requires
        0 < j <= m <= s.len(),
        digits_value(s.subrange(0, j)) is None,
    ensures
        digits_value(s.subrange(0, m)) is None,
    decreases m - j,
{
    if j < m {
        assert(s.subrange(0, j + 1).drop_last() =~= s.subrange(0, j));
        lemma_digits_value_none(s, j + 1, m);
    }
}

fn digit_exec(c: char) -> (r: Option<u32>)
    ensures
        match r {
            Some(d) => digit_of(c) == Some(d as int),
            None => digit_of(c) is None,
        },
{
    match c {
        '0' => Some(0),
        '1' => Some(1),
        '2' => Some(2),
        '3' => Some(3),
        '4' => Some(4),
        '5' => Some(5),
        '6' => Some(6),
        '7' => Some(7),
        '8' => Some(8),
        '9' => Some(9),
        _ => None,
    }
}

/// Reads a 32-bit integer out of text exactly where `spec_parse_i32` allows
/// one: an optional `+` or `-`, then one or more decimal digits, the value in
/// range.  Anything else is rejected.
pub fn parse_i32(s: &str) -> (r: Option<i32>)
    ensures
        match r {
            Some(v) => spec_parse_i32(s@) == Some(v as int),
            None => spec_parse_i32(s@) is None,
        },
{
    let n = s.unicode_len();
    if n == 0 {
        return None;
    }
    let first = s.get_char(0);
    let negative = first == '-';
    let start: usize = if first == '-' || first == '+' {
        1
    } else {
        0
    };
    let ghost body = if start == 1 {
        s@.skip(1)
    } else {
        s@
    };
    proof {
        assert(body.len() == n - start);
        assert(forall|k: int| 0 <= k < body.len() ==> body[k] == s@[k + start]);
    }
    if start >= n {
        proof {
            assert(body.len() == 0);
        }
        return None;
    }
    let mut acc: i64 = 0;
    let mut i = start;
    while i < n
        invariant
            start <= i <= n,
            start < n,
            n == s@.len(),
            body == (if start == 1 {
                s@.skip(1)
            } else {
                s@
            }),
            body.len() == n - start,
            (start == 1) <==> (s@[0] == '+' || s@[0] == '-'),
            forall|k: int| 0 <= k < body.len() ==> body[k] == s@[k + start],
            i == start ==> acc == 0,
            i > start ==> match digits_value(body.subrange(0, i - start)) {
                Some(v) => v >= 0 && (v <= 2147483648 ==> acc == v) && (v > 2147483648 ==> acc
                    == 2147483649),
                None => false,
            },
            0 <= acc <= 2147483649,
        decreases n - i,
    {
        let c = s.get_char(i);
        match digit_exec(c) {
            None => {
                proof {
                    let j = i - start + 1;
                    assert(body.subrange(0, j).last() == body[j - 1]);
                    if i > start {
                        assert(body.subrange(0, j).drop_last() =~= body.subrange(0, j - 1));
                    }
                    assert(digits_value(body.subrange(0, j)) is None);
                    lemma_digits_value_none(body, j, body.len() as int);
                    assert(body.subrange(0, body.len() as int) =~= body);
                }
                return None;
            },
            Some(d) => {
                proof {
                    let j = i - start + 1;
                    assert(body.subrange(0, j).last() == body[j - 1]);
                    if i > start {
                        assert(body.subrange(0, j).drop_last() =~= body.subrange(0, j - 1));
                    }
                }
                let t = acc * 10 + (d as i64);
                if t > 2147483648 {
                    acc = 2147483649;
                } else {
                    acc = t;
                }
                i = i + 1;
            },
        }
    }
    proof {
        assert(body.subrange(0, i - start) =~= body);
        lemma_digits_value_nonneg(body);
    }
    if negative {
        if acc <= 2147483648 {
            Some((-acc) as i32)
        } else {
            None
        }
    } else {
        if acc <= 2147483647 {
            Some(acc as i32)
        } else {
            None
        }
    }
}

/// The decimal digits of a nonnegative number, most significant first.
pub open spec fn dec_rep(n: int) -> Seq<char>
    decreases n
        when n >= 0
{
    if n <= 9 {
        seq![dec_digit(n)]
    } else {
        dec_rep(n / 10).push(dec_digit(n % 10))
    }
}

/// The digit character for one place value.
pub open spec fn dec_digit(d: int) -> char {
    if d == 0 {
        '0'
    } else if d == 1 {
        '1'
    } else if d == 2 {
        '2'
    } else if d == 3 {
        '3'
    } else if d == 4 {
        '4'
    } else if d == 5 {
        '5'
    } else if d == 6 {
        '6'
    } else if d == 7 {
        '7'
    } else if d == 8 {
        '8'
    } else {
        '9'
    }
}

/// The decimal text of a 32-bit integer, with a leading `-` when negative.
pub open spec fn spec_i32_text(n: int) -> Seq<char> {
    if n < 0 {
        seq!['-'] + dec_rep(-n)
    } else {
        dec_rep(n)
    }
}

fn dec_digit_exec(d: u32) -> (r: &'static str)
    requires
        d <= 9,
    ensures
        r@ == seq![dec_digit(d as int)],
{
    proof {
        reveal_strlit("0");
        reveal_strlit("1");
        reveal_strlit("2");
        reveal_strlit("3");
        reveal_strlit("4");
        reveal_strlit("5");
        reveal_strlit("6");
        reveal_strlit("7");
        reveal_strlit("8");
        reveal_strlit("9");
    }
    match d {
        0 => "0",
        1 => "1",
        2 => "2",
        3 => "3",
        4 => "4",
        5 => "5",
        6 => "6",
        7 => "7",
        8 => "8",
        _ => "9",
    }
}

/// Renders a nonnegative number as decimal text.
pub fn u64_text(n: u64) -> (r: String)
    ensures
        r@ == dec_rep(n as int),
    decreases n,
{
    if n <= 9 {
        dec_digit_exec((n as u32) % 10).to_owned()
    } else {
        let mut s = u64_text(n / 10);
        s.append(dec_digit_exec((n % 10) as u32));
        proof {
            assert(dec_rep((n / 10) as int) + seq![dec_digit((n % 10) as int)] =~= dec_rep(
                (n / 10) as int,
            ).push(dec_digit((n % 10) as int)));
        }
        s
    }
}

/// Renders a 32-bit integer as decimal text.
pub fn i32_text(n: i32) -> (r: String)
    ensures
        r@ == spec_i32_text(n as int),
{
    if n >= 0 {
        u64_text(n as u64)
    } else {
        let m: u64 = (-(n as i64)) as u64;
        proof {
            assert(m as int == -(n as int));
        }
        let mut s = String::new();
        s.append("-");
        s.append(u64_text(m).as_str());
        proof {
            reveal_strlit("-");
            assert(Seq::<char>::empty() + "-"@ =~= "-"@);
            assert("-"@ =~= seq!['-']);
        }
        s
    }
}

} // verus!
