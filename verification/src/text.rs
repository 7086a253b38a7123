//! Character-level string helpers: splitting on a separator, decimal
//! numbers (parsing and printing) and string comparison.

use vstd::prelude::*;

verus! {

/// The pieces of `s` between occurrences of `sep`, as `str::split` yields
/// them: one more piece than there are separators, possibly empty.
pub open spec fn split_on(s: Seq<char>, sep: char) -> Seq<Seq<char>>
    decreases s.len(),
{
    if s.len() == 0 {
        seq![Seq::<char>::empty()]
    } else {
        let prev = split_on(s.drop_last(), sep);
        if s.last() == sep {
            prev.push(Seq::<char>::empty())
        } else {
            prev.update(prev.len() - 1, prev.last().push(s.last()))
        }
    }
}

/// `split_on` never yields an empty list of pieces.
pub proof fn lemma_split_on_nonempty(s: Seq<char>, sep: char)
    ensures
        split_on(s, sep).len() >= 1,
    decreases s.len(),
{
    if s.len() > 0 {
        lemma_split_on_nonempty(s.drop_last(), sep);
    }
}

/// No piece of a split holds the separator.
pub proof fn lemma_split_pieces_free(s: Seq<char>, sep: char)
    ensures
        forall|j: int, k: int|
            0 <= j < split_on(s, sep).len() && 0 <= k < split_on(s, sep)[j].len() ==> #[trigger] split_on(s, sep)[j][k]
                != sep,
    decreases s.len(),
{
    if s.len() > 0 {
        lemma_split_pieces_free(s.drop_last(), sep);
        lemma_split_on_nonempty(s.drop_last(), sep);
        let prev = split_on(s.drop_last(), sep);
        if s.last() != sep {
            let cur = split_on(s, sep);
            assert forall|j: int, k: int| 0 <= j < cur.len() && 0 <= k < cur[j].len() implies #[trigger] cur[j][k] != sep by {
                if j < prev.len() - 1 {
                    assert(cur[j] == prev[j]);
                } else {
                    assert(cur[j] == prev.last().push(s.last()));
                    if k < prev.last().len() {
                        assert(prev.last()[k] == prev[prev.len() - 1][k]);
                    }
                }
            }
        } else {
            let cur = split_on(s, sep);
            assert forall|j: int, k: int| 0 <= j < cur.len() && 0 <= k < cur[j].len() implies #[trigger] cur[j][k] != sep by {
                assert(cur[j] == prev[j]);
            }
        }
    }
}

/// Character-wise equality of two string slices.
pub fn str_eq(a: &str, b: &str) -> (res: bool)
    ensures
        res == (a@ == b@),
{
    let n = a.unicode_len();
    let m = b.unicode_len();
    if n != m {
        return false;
    }
    let mut i: usize = 0;
    while i < n
        invariant
            n == a@.len(),
            m == b@.len(),
            n == m,
            i <= n,
            forall|j: int| 0 <= j < i ==> a@[j] == b@[j],
        decreases n - i,
    {
        if a.get_char(i) != b.get_char(i) {
            return false;
        }
        i = i + 1;
    }
    assert(a@ =~= b@);
    true
}


/// The piece of `q` (split on '/') that is `index` places from the back:
/// the last piece for `index` 0 or 1, the one before it for 2, and so on;
/// `None` when there are fewer than `index` pieces.
pub open spec fn spec_element_from_back(q: Seq<char>, index: int) -> Option<Seq<char>> {
    let parts = split_on(q, '/');
    if parts.len() < index {
        None
    } else if index == 0 {
        Some(parts.last())
    } else {
        Some(parts[parts.len() - index])
    }
}

/// Where the pieces of `q.take(i)` start, one entry per piece of
/// `split_on(q.take(i), '/')`.
pub open spec fn piece_starts_agree(q: Seq<char>, i: int, starts: Seq<usize>) -> bool {
    let parts = split_on(q.take(i), '/');
    &&& starts.len() == parts.len()
    &&& starts.len() >= 1
    &&& starts[0] == 0
    &&& forall|j: int| 0 <= j < starts.len() ==> #[trigger] starts[j] <= i
    &&& forall|j: int|
        0 <= j < starts.len() - 1 ==> 1 <= #[trigger] starts[j + 1] && starts[j] <= starts[j + 1] - 1
    &&& forall|j: int|
        0 <= j < starts.len() - 1 ==> #[trigger] parts[j] == q.subrange(
            starts[j] as int,
            starts[j + 1] - 1,
        )
    &&& parts.last() == q.subrange(starts.last() as int, i)
}

proof fn lemma_piece_starts_step(q: Seq<char>, i: int, starts: Seq<usize>)
    requires
        0 <= i < q.len(),
        i + 1 <= usize::MAX,
        piece_starts_agree(q, i, starts),
    ensures
        q[i] == '/' ==> piece_starts_agree(q, i + 1, starts.push((i + 1) as usize)),
        q[i] != '/' ==> piece_starts_agree(q, i + 1, starts),
{
    let t = q.take(i + 1);
    assert(t.drop_last() =~= q.take(i));
    assert(t.last() == q[i]);
    let prev = split_on(q.take(i), '/');
    if q[i] == '/' {
        let ns = starts.push((i + 1) as usize);
        assert(split_on(t, '/') == prev.push(Seq::<char>::empty()));
        assert(q.subrange(i + 1, i + 1) =~= Seq::<char>::empty());
        assert forall|j: int| 0 <= j < ns.len() - 1 implies #[trigger] split_on(t, '/')[j]
            == q.subrange(ns[j] as int, ns[j + 1] - 1) by {
            if j < starts.len() - 1 {
            } else {
                assert(j == starts.len() - 1);
            }
        }
    } else {
        assert(split_on(t, '/') == prev.update(prev.len() - 1, prev.last().push(q[i])));
        assert(q.subrange(starts.last() as int, i + 1) =~= q.subrange(starts.last() as int, i).push(
            q[i],
        ));
        assert forall|j: int| 0 <= j < starts.len() - 1 implies #[trigger] split_on(t, '/')[j]
            == q.subrange(starts[j] as int, starts[j + 1] - 1) by {}
    }
}

/// The piece of `query`, split on '/', that stands `index` places from the
/// back (see `spec_element_from_back`); `Err` when there are fewer than
/// `index` pieces.
pub fn get_element_from_back(query: &str, index: usize) -> (res: Result<&str, ()>)
    ensures
        match spec_element_from_back(query@, index as int) {
            Some(piece) => res matches Ok(r) && r@ == piece,
            None => res is Err,
        },
        res matches Ok(r) ==> (exists|i: int, j: int| 0 <= i <= j <= query@.len() && r@ == query@.subrange(i, j))
            && (forall|k: int| 0 <= k < r@.len() ==> r@[k] != '/'),
{
    let n = query.unicode_len();
    let mut starts: Vec<usize> = Vec::new();
    starts.push(0);
    let mut i: usize = 0;
    proof {
        assert(query@.take(0) =~= Seq::<char>::empty());
        assert(query@.subrange(0, 0) =~= Seq::<char>::empty());
    }
    while i < n
        invariant
            n == query@.len(),
            i <= n,
            piece_starts_agree(query@, i as int, starts@),
        decreases n - i,
    {
        let c = query.get_char(i);
        proof {
            lemma_piece_starts_step(query@, i as int, starts@);
        }
        if c == '/' {
            starts.push(i + 1);
        }
        i = i + 1;
    }
    proof {
        assert(query@.take(n as int) =~= query@);
    }
    let p = starts.len();
    if p < index {
        return Err(());
    }
    let k = if index == 0 { p - 1 } else { p - index };
    let from = starts[k];
    let to = if k + 1 < p { starts[k + 1] - 1 } else { n };
    let r = query.substring_char(from, to);
    proof {
        lemma_split_pieces_free(query@, '/');
        let parts = split_on(query@, '/');
        assert(r@ == parts[k as int]);
        assert forall|t: int| 0 <= t < r@.len() implies r@[t] != '/' by {
            assert(parts[k as int][t] != '/');
        }
    }
    Ok(r)
}


/// An ASCII decimal digit.
pub open spec fn is_digit(c: char) -> bool {
    '0' <= c && c <= '9'
}

/// The value of a decimal digit character.
pub open spec fn digit_value(c: char) -> int {
    c as int - '0' as int
}

/// Every character of `s` is a decimal digit.
pub open spec fn all_digits(s: Seq<char>) -> bool {
    forall|i: int| 0 <= i < s.len() ==> #[trigger] is_digit(s[i])
}

/// The number that a string of decimal digits spells (leading zeros allowed).
pub open spec fn digits_value(s: Seq<char>) -> int
    decreases s.len(),
{
    if s.len() == 0 {
        0
    } else {
        digits_value(s.drop_last()) * 10 + digit_value(s.last())
    }
}

/// What `str::parse::<i64>` gives back, as the standard library documents
/// it: an optional `+` or `-` followed by one or more decimal digits, whose
/// value fits in an `i64`; anything else (empty text, a lone sign, any other
/// character, overflow) is an error.
pub open spec fn spec_parse_i64(s: Seq<char>) -> Option<int> {
    let neg = s.len() > 0 && s[0] == '-';
    let body = if s.len() > 0 && (s[0] == '-' || s[0] == '+') {
        s.skip(1)
    } else {
        s
    };
    if body.len() > 0 && all_digits(body) {
        let v = if neg {
            -digits_value(body)
        } else {
            digits_value(body)
        };
        if i64::MIN <= v <= i64::MAX {
            Some(v)
        } else {
            None
        }
    } else {
        None
    }
}

proof fn lemma_digits_value_nonneg(s: Seq<char>)
    requires
        all_digits(s),
    ensures
        digits_value(s) >= 0,
    decreases s.len(),
{
    if s.len() > 0 {
        assert(is_digit(s[s.len() - 1]));
        assert(all_digits(s.drop_last()));
        lemma_digits_value_nonneg(s.drop_last());
    }
}

/// A digit string is worth at least as much as any of its prefixes.
proof fn lemma_digits_value_prefix(s: Seq<char>, k: int)
    requires
        all_digits(s),
        0 <= k <= s.len(),
    ensures
        digits_value(s.take(k)) <= digits_value(s),
    decreases s.len(),
{
    if k < s.len() {
        assert(is_digit(s[s.len() - 1]));
        assert(all_digits(s.drop_last()));
        assert(s.drop_last().take(k) =~= s.take(k));
        lemma_digits_value_prefix(s.drop_last(), k);
        lemma_digits_value_nonneg(s.drop_last());
    } else {
        assert(s.take(k) =~= s);
    }
}

/// Parses a decimal `i64` the way `str::parse::<i64>` does
/// (see `spec_parse_i64`); `None` on every input it rejects.
pub fn parse_i64(s: &str) -> (res: Option<i64>)
    ensures
        match spec_parse_i64(s@) {
            Some(v) => res == Some(v as i64),
            None => res is None,
        },
{
    let n = s.unicode_len();
    let mut start: usize = 0;
    let mut neg = false;
    if n > 0 {
        let c0 = s.get_char(0);
        if c0 == '-' {
            neg = true;
            start = 1;
        } else if c0 == '+' {
            start = 1;
        }
    }
    let ghost body = if s@.len() > 0 && (s@[0] == '-' || s@[0] == '+') {
        s@.skip(1)
    } else {
        s@
    };
    assert(body =~= s@.skip(start as int));
    if start >= n {
        assert(body.len() == 0);
        return None;
    }
    let limit: u128 = if neg { 9223372036854775808 } else { 9223372036854775807 };
    let mut acc: u128 = 0;
    let mut i: usize = start;
    assert(body.take(0) =~= Seq::<char>::empty());
    while i < n
        invariant
            n == s@.len(),
            start <= i <= n,
            body =~= s@.skip(start as int),
            body == (if s@.len() > 0 && (s@[0] == '-' || s@[0] == '+') {
                s@.skip(1)
            } else {
                s@
            }),
            neg == (s@.len() > 0 && s@[0] == '-'),
            all_digits(body.take(i - start)),
            acc as int == digits_value(body.take(i - start)),
            acc <= limit,
            limit == (if neg { 9223372036854775808u128 } else { 9223372036854775807u128 }),
        decreases n - i,
    {
        let c = s.get_char(i);
        let ghost k = i - start;
        assert(body[k] == c);
        assert(body.take(k + 1).drop_last() =~= body.take(k));
        if c < '0' || c > '9' {
            assert(!all_digits(body)) by {
                assert(!is_digit(body[k]));
            }
            assert(body.len() > 0);
            return None;
        }
        let d = (c as u32 - '0' as u32) as u128;
        let next = acc * 10 + d;
        assert(all_digits(body.take(k + 1))) by {
            assert forall|j: int| 0 <= j < k + 1 implies #[trigger] is_digit(body.take(k + 1)[j]) by {
                if j < k {
                    assert(body.take(k + 1)[j] == body.take(k)[j]);
                }
            }
        }
        assert(next as int == digits_value(body.take(k + 1)));
        if next > limit {
            proof {
                if all_digits(body) {
                    lemma_digits_value_prefix(body, k + 1);
                }
            }
            return None;
        }
        acc = next;
        i = i + 1;
    }
    assert(body.take(n - start) =~= body);
    if neg {
        let v: i128 = -(acc as i128);
        Some(v as i64)
    } else {
        Some(acc as i64)
    }
}


/// The character of a decimal digit `d` (0 to 9).
pub open spec fn digit_char(d: int) -> char {
    "0123456789"@[d]
}

/// The decimal digits of `n`, most significant first, without leading zeros.
pub open spec fn nat_decimal(n: nat) -> Seq<char>
    decreases n,
{
    if n < 10 {
        seq![digit_char(n as int)]
    } else {
        nat_decimal(n / 10).push(digit_char((n % 10) as int))
    }
}

/// How `Display` writes an integer: its decimal digits, after a `-` when it
/// is negative.
pub open spec fn int_decimal(n: int) -> Seq<char> {
    if n < 0 {
        seq!['-'] + nat_decimal((-n) as nat)
    } else {
        nat_decimal(n as nat)
    }
}

proof fn lemma_digit_char(d: int)
    requires
        0 <= d < 10,
    ensures
        is_digit(digit_char(d)),
        digit_value(digit_char(d)) == d,
{
    reveal_strlit("0123456789");
    if d == 0 {
    } else if d == 1 {
    } else if d == 2 {
    } else if d == 3 {
    } else if d == 4 {
    } else if d == 5 {
    } else if d == 6 {
    } else if d == 7 {
    } else if d == 8 {
    } else {
    }
}

/// The decimal digits of `n` are digits, at least one, and spell `n`.
pub proof fn lemma_nat_decimal(n: nat)
    ensures
        nat_decimal(n).len() >= 1,
        all_digits(nat_decimal(n)),
        digits_value(nat_decimal(n)) == n,
    decreases n,
{
    if n < 10 {
        lemma_digit_char(n as int);
        let one = seq![digit_char(n as int)];
        assert(one.drop_last() =~= Seq::<char>::empty());
        assert(digits_value(one.drop_last()) == 0);
        assert(nat_decimal(n) == one);
        assert(digits_value(one) == digits_value(one.drop_last()) * 10 + digit_value(one.last()));
    } else {
        lemma_nat_decimal(n / 10);
        lemma_digit_char((n % 10) as int);
        let prev = nat_decimal(n / 10);
        let cur = prev.push(digit_char((n % 10) as int));
        assert(cur.drop_last() =~= prev);
        assert(nat_decimal(n) == cur);
        assert(cur.last() == digit_char((n % 10) as int));
        assert(n == (n / 10) * 10 + n % 10) by (nonlinear_arith);
        assert(digits_value(cur) == digits_value(prev) * 10 + digit_value(cur.last()));
        assert forall|i: int| 0 <= i < cur.len() implies #[trigger] is_digit(cur[i]) by {
            if i < prev.len() {
                assert(cur[i] == prev[i]);
            }
        }
    }
}

fn digit_str(d: u64) -> (s: &'static str)
    requires
        d < 10,
    ensures
        s@ == seq![digit_char(d as int)],
{
    let digits = "0123456789";
    proof {
        reveal_strlit("0123456789");
    }
    let r = digits.substring_char(d as usize, (d + 1) as usize);
    assert(r@ =~= seq![digit_char(d as int)]);
    r
}

fn nat_to_decimal(n: u64) -> (s: String)
    ensures
        s@ == nat_decimal(n as nat),
    decreases n,
{
    if n < 10 {
        String::from_str(digit_str(n))
    } else {
        let mut s = nat_to_decimal(n / 10);
        s.append(digit_str(n % 10));
        s
    }
}

/// Writes `n` in decimal, as `n.to_string()` does.
pub fn i64_to_decimal(n: i64) -> (s: String)
    ensures
        s@ == int_decimal(n as int),
{
    if n < 0 {
        let m: u64 = (-(n as i128)) as u64;
        let digits = nat_to_decimal(m);
        let mut s = String::from_str("-");
        proof {
            reveal_strlit("-");
        }
        s.append(digits.as_str());
        assert(s@ =~= int_decimal(n as int));
        s
    } else {
        nat_to_decimal(n as u64)
    }
}

/// Writes `n` in decimal, as `n.to_string()` does.
pub fn i32_to_decimal(n: i32) -> (s: String)
    ensures
        s@ == int_decimal(n as int),
{
    i64_to_decimal(n as i64)
}

/// Parsing the decimal text of an `i64` gives the number back.
pub proof fn lemma_parse_decimal_roundtrip(n: int)
    requires
        i64::MIN <= n <= i64::MAX,
    ensures
        spec_parse_i64(int_decimal(n)) == Some(n),
{
    if n < 0 {
        let m = (-n) as nat;
        lemma_nat_decimal(m);
        let s = int_decimal(n);
        assert(s[0] == '-');
        assert(s.skip(1) =~= nat_decimal(m));
    } else {
        lemma_nat_decimal(n as nat);
        let s = int_decimal(n);
        assert(is_digit(s[0]));
    }
}

} // verus!
