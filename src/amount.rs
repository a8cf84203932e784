use vstd::prelude::*;

verus! {

/// The largest whole part, in currency units, that an amount may have.
pub const MAX_WHOLE: u64 = 1_000_000_000_000_000;

/// Why text is not an amount.
#[derive(Clone, Copy, Debug, PartialEq, Eq, Structural)]
pub enum AmountError {
    /// The text is not a decimal number.
    Malformed,
    /// The whole part exceeds `MAX_WHOLE`.
    OutOfRange,
}

pub open spec fn is_digit(b: u8) -> bool {
    48 <= b <= 57
}

/// The number that a run of decimal digits spells.
pub open spec fn digits_value(s: Seq<u8>) -> int
    decreases s.len(),
{
    if s.len() == 0 {
        0
    } else {
        digits_value(s.drop_last()) * 10 + (s.last() - 48)
    }
}

/// The text after an optional leading `+` or `-`.
pub open spec fn unsigned_part(s: Seq<u8>) -> Seq<u8> {
    if s.len() > 0 && (s[0] == 45 || s[0] == 43) {
        s.drop_first()
    } else {
        s
    }
}

pub open spec fn is_negative(s: Seq<u8>) -> bool {
    s.len() > 0 && s[0] == 45
}

/// `body` is digits with a decimal point at `k`, or only digits when
/// `k == body.len()`, and holds at least one digit.
pub open spec fn point_at(body: Seq<u8>, k: int) -> bool {
    &&& 0 <= k <= body.len()
    &&& k < body.len() ==> body[k] == 46
    &&& forall|i: int| 0 <= i < body.len() && i != k ==> is_digit(#[trigger] body[i])
    &&& body.len() > (if k < body.len() { 1int } else { 0 })
}

/// The text is a decimal number: an optional sign, digits, and at most one point.
pub open spec fn is_decimal(s: Seq<u8>) -> bool {
    exists|k: int| point_at(unsigned_part(s), k)
}

pub open spec fn whole_part(body: Seq<u8>, k: int) -> Seq<u8> {
    body.take(k)
}

pub open spec fn fraction_part(body: Seq<u8>, k: int) -> Seq<u8> {
    if k < body.len() { body.skip(k + 1) } else { Seq::empty() }
}

pub open spec fn fraction_digit(f: Seq<u8>, i: int) -> int {
    if i < f.len() { f[i] - 48 } else { 0 }
}

/// The magnitude in cents of the number with whole part `w` and fraction
/// digits `f`, rounded to the nearest cent, halves away from zero.
pub open spec fn cents_of(w: Seq<u8>, f: Seq<u8>) -> int {
    digits_value(w) * 100 + fraction_digit(f, 0) * 10 + fraction_digit(f, 1) + (if f.len() > 2
        && f[2] >= 53 { 1int } else { 0 })
}

/// The signed amount in cents that decimal text with its point at `k` denotes.
pub open spec fn amount_at(s: Seq<u8>, k: int) -> int {
    let body = unsigned_part(s);
    let c = cents_of(whole_part(body, k), fraction_part(body, k));
    if is_negative(s) { -c } else { c }
}

pub open spec fn whole_in_range(s: Seq<u8>, k: int) -> bool {
    digits_value(whole_part(unsigned_part(s), k)) <= MAX_WHOLE
}

/// The text is a decimal number whose whole part is in range.
pub open spec fn is_amount(s: Seq<u8>) -> bool {
    exists|k: int| point_at(unsigned_part(s), k) && whole_in_range(s, k)
}

/// The text is a decimal number in range that denotes `v` cents.
pub open spec fn denotes(s: Seq<u8>, v: int) -> bool {
    exists|k: int| point_at(unsigned_part(s), k) && whole_in_range(s, k) && v == amount_at(s, k)
}

proof fn lemma_point_unique(body: Seq<u8>, k: int, j: int)
    requires
        point_at(body, k),
        point_at(body, j),
    ensures
        k == j,
{
    if k < j {
        assert(!is_digit(body[k]));
    } else if j < k {
        assert(!is_digit(body[j]));
    }
}

proof fn lemma_digits_value_nonneg(s: Seq<u8>)
    requires
        forall|i: int| 0 <= i < s.len() ==> is_digit(#[trigger] s[i]),
    ensures
        digits_value(s) >= 0,
    decreases s.len(),
{
    if s.len() > 0 {
        lemma_digits_value_nonneg(s.drop_last());
    }
}

/// Reads decimal text as an amount in cents: an optional `+` or `-`, digits,
/// and at most one decimal point, with at least one digit. Digits past the
/// cents are rounded, halves away from zero.
pub fn parse_amount(s: &[u8]) -> (r: Result<i64, AmountError>)
    ensures
        !is_decimal(s@) <==> r == Err::<i64, AmountError>(AmountError::Malformed),
        r == Err::<i64, AmountError>(AmountError::OutOfRange) <==> exists|k: int|
            point_at(unsigned_part(s@), k) && !whole_in_range(s@, k),
        r is Ok <==> is_amount(s@),
        forall|v: i64| r == Ok::<i64, AmountError>(v) ==> denotes(s@, v as int),
{
    let n = s.len();
    let start: usize = if n > 0 && (s[0] == 45 || s[0] == 43) { 1 } else { 0 };
    let ghost body = unsigned_part(s@);
    assert(body =~= s@.skip(start as int));
    // Find the point and check that everything else is a digit.
    let mut point: usize = n;
    let mut i: usize = start;
    while i < n
        invariant
            start <= i <= n,
            n == s@.len(),
            body =~= s@.skip(start as int),
            body == unsigned_part(s@),
            point == n || (start <= point < i && s@[point as int] == 46),
            forall|j: int| start <= j < i && j != point ==> is_digit(#[trigger] s@[j]),
        decreases n - i,
    {
        if s[i] == 46 {
            if point < n {
                proof {
                    assert forall|k: int| !point_at(body, k) by {
                        if point_at(body, k) {
                            if k != point - start {
                                assert(is_digit(body[point - start]));
                            } else {
                                assert(is_digit(body[i - start]));
                            }
                        }
                    }
                }
                return Err(AmountError::Malformed);
            }
            point = i;
        } else if !(48 <= s[i] && s[i] <= 57) {
            proof {
                assert forall|k: int| !point_at(body, k) by {
                    if point_at(body, k) {
                        if k != i - start {
                            assert(is_digit(body[i - start]));
                        } else if k < body.len() {
                            assert(body[k] == 46);
                        }
                    }
                }
            }
            return Err(AmountError::Malformed);
        }
        i = i + 1;
    }
    let digits: usize = if point < n { n - start - 1 } else { n - start };
    let ghost k: int = point - start;
    if digits == 0 {
        proof {
            assert forall|j: int| !point_at(body, j) by {
                if point_at(body, j) {
                    if j < body.len() {
                        lemma_point_unique(body, j, k);
                    } else if point < n {
                        assert(is_digit(body[k]));
                    }
                }
            }
        }
        return Err(AmountError::Malformed);
    }
    assert(point_at(body, k));
    proof {
        assert forall|j: int| point_at(body, j) implies j == k by {
            lemma_point_unique(body, j, k);
        }
    }
    // The whole part, saturating just above the largest allowed value.
    let ghost w = whole_part(body, k);
    let mut whole: u64 = 0;
    let mut j: usize = start;
    while j < point
        invariant
            start <= j <= point <= n,
            n == s@.len(),
            body =~= s@.skip(start as int),
            body == unsigned_part(s@),
            k == point - start,
            w == body.take(k),
            point_at(body, k),
            whole <= MAX_WHOLE + 1,
            whole == MAX_WHOLE + 1 || whole == digits_value(w.take(j - start)),
            whole == MAX_WHOLE + 1 ==> digits_value(w.take(j - start)) > MAX_WHOLE,
        decreases point - j,
    {
        assert(is_digit(body[j - start]));
        let d = (s[j] - 48) as u64;
        let ghost t = w.take(j - start + 1);
        assert(t.drop_last() =~= w.take(j - start));
        proof {
            lemma_digits_value_nonneg(w.take(j - start));
        }
        if whole > MAX_WHOLE {
            whole = MAX_WHOLE + 1;
        } else {
            let next = whole * 10 + d;
            whole = if next > MAX_WHOLE { MAX_WHOLE + 1 } else { next };
        }
        j = j + 1;
    }
    assert(w.take(k) =~= w);
    assert(whole_part(body, k) == w);
    if whole > MAX_WHOLE {
        assert(!whole_in_range(s@, k));
        return Err(AmountError::OutOfRange);
    }
    assert(whole == digits_value(w));
    let ghost f = fraction_part(body, k);
    let frac_len: usize = if point < n { n - point - 1 } else { 0 };
    assert(f.len() == frac_len);
    let d0: u64 = if frac_len > 0 { (s[point + 1] - 48) as u64 } else { 0 };
    let d1: u64 = if frac_len > 1 { (s[point + 2] - 48) as u64 } else { 0 };
    let up: u64 = if frac_len > 2 && s[point + 3] >= 53 { 1 } else { 0 };
    proof {
        if frac_len > 0 {
            assert(f[0] == s@[point + 1]);
            assert(is_digit(body[k + 1]));
        }
        if frac_len > 1 {
            assert(f[1] == s@[point + 2]);
            assert(is_digit(body[k + 2]));
        }
        if frac_len > 2 {
            assert(f[2] == s@[point + 3]);
        }
    }
    let cents: u64 = whole * 100 + d0 * 10 + d1 + up;
    let v: i64 = if start == 1 && s[0] == 45 { -(cents as i64) } else { cents as i64 };
    assert(cents == cents_of(w, f));
    assert(v == amount_at(s@, k));
    assert(point_at(unsigned_part(s@), k) && whole_in_range(s@, k));
    Ok(v)
}

} // verus!
