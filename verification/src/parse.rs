//! Base-10 signed integer literals: the spec of what a literal token means
//! and a runtime parser proved against it. A token parses only when its
//! value fits in an `i64`; anything else is handed to label resolution.

use vstd::prelude::*;

verus! {

/// A decimal digit.
pub open spec fn is_digit(c: char) -> bool {
    '0' <= c && c <= '9'
}

/// Numeric value of one digit.
pub open spec fn digit_val(c: char) -> int {
    c as int - 48
}

/// Every character is a decimal digit.
pub open spec fn all_digits(s: Seq<char>) -> bool {
    forall|i: int| 0 <= i < s.len() ==> is_digit(s[i])
}

/// Value of an unsigned digit string, most significant digit first.
pub open spec fn digits_val(s: Seq<char>) -> int
    decreases s.len(),
{
    if s.len() == 0 {
        0
    } else {
        digits_val(s.drop_last()) * 10 + digit_val(s.last())
    }
}

/// The digit portion of a literal: everything after an optional sign.
pub open spec fn int_body(s: Seq<char>) -> Seq<char> {
    if s.len() > 0 && (s[0] == '+' || s[0] == '-') {
        s.drop_first()
    } else {
        s
    }
}

/// The sign of a literal.
pub open spec fn int_sign(s: Seq<char>) -> int {
    if s.len() > 0 && s[0] == '-' {
        -1
    } else {
        1
    }
}

/// An optional sign followed by at least one digit.
pub open spec fn is_int_literal(s: Seq<char>) -> bool {
    int_body(s).len() > 0 && all_digits(int_body(s))
}

/// Mathematical value of a literal.
pub open spec fn int_val(s: Seq<char>) -> int {
    int_sign(s) * digits_val(int_body(s))
}

/// A literal that a 64-bit signed machine word can hold.
pub open spec fn parses_to_i64(s: Seq<char>) -> bool {
    is_int_literal(s) && i64::MIN <= int_val(s) <= i64::MAX
}

/// A digit string has a nonnegative value.
pub proof fn lemma_digits_val_nonneg(s: Seq<char>)
    requires
        all_digits(s),
    ensures
        digits_val(s) >= 0,
    decreases s.len(),
{
    if s.len() > 0 {
        lemma_digits_val_nonneg(s.drop_last());
    }
}

/// Extending a digit string never lowers its value.
pub proof fn lemma_digits_val_prefix(s: Seq<char>, m: int)
    requires
        all_digits(s),
        0 <= m <= s.len(),
    ensures
        digits_val(s.take(m)) <= digits_val(s),
    decreases s.len(),
{
    if m == s.len() {
        assert(s.take(m) =~= s);
    } else {
        assert(all_digits(s.drop_last()));
        lemma_digits_val_prefix(s.drop_last(), m);
        assert(s.drop_last().take(m) =~= s.take(m));
        lemma_digits_val_nonneg(s.drop_last());
        assert(is_digit(s.last()));
    }
}

/// Parses a base-10 signed integer literal, exactly when the token is a
/// well-formed literal whose value fits in an `i64`.
pub fn parse_i64(s: &str) -> (r: Option<i64>)
    ensures
        match r {
            Some(v) => parses_to_i64(s@) && v as int == int_val(s@),
            None => !parses_to_i64(s@),
        },
{
    let n = s.unicode_len();
    if n == 0 {
        return None;
    }
    let first = s.get_char(0);
    let neg = first == '-';
    let start: usize = if first == '-' || first == '+' {
        1
    } else {
        0
    };
    if start == n {
        proof {
            assert(int_body(s@).len() == 0);
        }
        return None;
    }
    proof {
        if start == 1 {
            assert(int_body(s@) =~= s@.subrange(1, n as int));
        } else {
            assert(int_body(s@) =~= s@.subrange(0, n as int));
        }
    }
    let ghost body = s@.subrange(start as int, n as int);
    let mut acc: i128 = 0;
    let mut i: usize = start;
    proof {
        assert(s@.subrange(start as int, start as int) =~= Seq::<char>::empty());
    }
    while i < n
        invariant
            n == s@.len(),
            start <= i <= n,
            start < n,
            body == s@.subrange(start as int, n as int),
            int_body(s@) == body,
            acc == digits_val(s@.subrange(start as int, i as int)),
            all_digits(s@.subrange(start as int, i as int)),
            0 <= acc <= 0x8000_0000_0000_0000i128,
        decreases n - i,
    {
        let ghost pre = s@.subrange(start as int, i as int);
        let c = s.get_char(i);
        let u = c as u32;
        if u < 48 || u > 57 {
            proof {
                assert(body[i - start] == s@[i as int]);
                assert(!is_digit(s@[i as int]));
            }
            return None;
        }
        proof {
            assert(is_digit(s@[i as int]));
        }
        acc = acc * 10 + ((u - 48) as i128);
        proof {
            let cur = s@.subrange(start as int, i as int + 1);
            assert(cur.drop_last() =~= pre);
            assert(cur.last() == s@[i as int]);
            assert(all_digits(cur));
            assert(acc == digits_val(cur));
        }
        if acc > 0x8000_0000_0000_0000i128 {
            proof {
                if is_int_literal(s@) {
                    lemma_digits_val_prefix(body, i as int + 1 - start);
                    assert(body.take(i as int + 1 - start) =~= s@.subrange(
                        start as int,
                        i as int + 1,
                    ));
                    assert(digits_val(body) > 0x8000_0000_0000_0000);
                }
            }
            return None;
        }
        i += 1;
    }
    proof {
        assert(s@.subrange(start as int, n as int) =~= body);
        assert(digits_val(int_body(s@)) == acc);
        if neg {
            assert(int_sign(s@) == -1);
        } else {
            assert(int_sign(s@) == 1);
        }
    }
    if neg {
        Some((-acc) as i64)
    } else {
        if acc > 0x7fff_ffff_ffff_ffffi128 {
            return None;
        }
        Some(acc as i64)
    }
}

} // verus!
