//! Reading a score out of the text of a JSON number, and turning it into a
//! whole percentage, rounded half away from zero and clamped to a machine
//! integer. The text is read as an optional minus sign, an integer part and
//! an optional fraction; a text in exponent form yields no score.

use vstd::prelude::*;

use vstd::string::StrSliceExecFns;

verus! {

broadcast use vstd::seq::group_seq_axioms;

/// Whether a character is a decimal digit.
pub open spec fn is_digit(c: char) -> bool {
    48 <= (c as int) && (c as int) <= 57
}

/// The numeric value of a decimal digit character.
pub open spec fn digit_val(c: char) -> int {
    c as int - 48
}

/// Whether every character of a sequence is a decimal digit.
pub open spec fn all_digits(s: Seq<char>) -> bool {
    forall|i: int| 0 <= i < s.len() ==> is_digit(#[trigger] s[i])
}

/// The integer a digit sequence denotes, most significant digit first.
pub open spec fn spec_digits_val(s: Seq<char>) -> int
    decreases s,
{
    if s.len() == 0 {
        0
    } else {
        spec_digits_val(s.drop_last()) * 10 + digit_val(s.last())
    }
}

/// The index of the first occurrence of a character, or the length when it
/// does not occur.
pub open spec fn find_char(s: Seq<char>, c: char) -> int
    decreases s,
{
    if s.len() == 0 {
        0
    } else if s.first() == c {
        0
    } else {
        1 + find_char(s.drop_first(), c)
    }
}

/// find_char points at the first occurrence: everything before it differs
/// from the character sought.
pub proof fn lemma_find_char(s: Seq<char>, c: char)
    ensures
        0 <= find_char(s, c) <= s.len(),
        find_char(s, c) < s.len() ==> s[find_char(s, c)] == c,
        forall|k: int| 0 <= k < find_char(s, c) ==> s[k] != c,
    decreases s,
{
    if s.len() > 0 && s.first() != c {
        lemma_find_char(s.drop_first(), c);
        let f = find_char(s, c);
        assert forall|k: int| 0 <= k < f implies s[k] != c by {
            if k > 0 {
                assert(s.drop_first()[k - 1] == s[k]);
            }
        }
        if f < s.len() {
            assert(s.drop_first()[f - 1] == s[f]);
        }
    }
}

/// How many zeros a sequence starts with.
pub open spec fn count_zeros(s: Seq<char>) -> int
    decreases s,
{
    if s.len() > 0 && s.first() == '0' {
        1 + count_zeros(s.drop_first())
    } else {
        0
    }
}

/// count_zeros counts the leading zeros: everything before that index is a
/// zero, and the digit there, if any, is not.
pub proof fn lemma_count_zeros(s: Seq<char>)
    ensures
        0 <= count_zeros(s) <= s.len(),
        count_zeros(s) < s.len() ==> s[count_zeros(s)] != '0',
        forall|k: int| 0 <= k < count_zeros(s) ==> s[k] == '0',
    decreases s,
{
    if s.len() > 0 && s.first() == '0' {
        lemma_count_zeros(s.drop_first());
        let z = count_zeros(s);
        assert forall|k: int| 0 <= k < z implies s[k] == '0' by {
            if k > 0 {
                assert(s.drop_first()[k - 1] == s[k]);
            }
        }
        if z < s.len() {
            assert(s.drop_first()[z - 1] == s[z]);
        }
    }
}

/// A digit sequence padded with zeros on the right out to a given length,
/// then cut to that length.
pub open spec fn pad_take(s: Seq<char>, t: int) -> Seq<char> {
    Seq::new(
        t as nat,
        |i: int|
            if i < s.len() {
                s[i]
            } else {
                '0'
            },
    )
}

/// Ten to a small power.
pub open spec fn pow10(k: int) -> int
    decreases k,
{
    if k <= 0 {
        1
    } else {
        10 * pow10(k - 1)
    }
}

/// A sequence of digits denotes less than ten to its length.
pub proof fn lemma_digits_val_bound(s: Seq<char>)
    requires
        all_digits(s),
    ensures
        0 <= spec_digits_val(s) < pow10(s.len() as int),
    decreases s,
{
    if s.len() > 0 {
        assert(all_digits(s.drop_last())) by {
            assert(forall|i: int|
                0 <= i < s.len() - 1 ==> s.drop_last()[i] == #[trigger] s[i]);
        }
        lemma_digits_val_bound(s.drop_last());
        assert(is_digit(s.last()));
    }
}

/// The digits of a value, the decimal point shifted two places right,
/// rounded half away from zero at the point: the digit at the cut decides.
pub open spec fn spec_rounded_mag(ds: Seq<char>, t: int) -> int {
    let base = spec_digits_val(pad_take(ds, t));
    let rd = if t < ds.len() {
        digit_val(ds[t])
    } else {
        0
    };
    base + if rd >= 5 {
        1int
    } else {
        0int
    }
}

/// The whole percentage a score denotes, from its sign, integer digits with
/// leading zeros removed, and fraction digits: one hundred times the value,
/// rounded half away from zero, clamped to the range of an i32.
pub open spec fn spec_percent_core(neg: bool, ip: Seq<char>, fp: Seq<char>) -> int {
    let z = count_zeros(ip);
    let ipt = ip.skip(z);
    let ds = ipt + fp;
    let t = ipt.len() + 2;
    if ipt.len() > 10 {
        if neg {
            -2147483648
        } else {
            2147483647
        }
    } else {
        let mag = spec_rounded_mag(ds, t as int);
        if neg {
            if mag > 2147483648 {
                -2147483648
            } else {
                -mag
            }
        } else {
            if mag > 2147483647 {
                2147483647
            } else {
                mag
            }
        }
    }
}

/// The whole percentage the text of a JSON number denotes, when the text is
/// an optional minus sign, then integer digits, then an optional dot and
/// fraction digits; any other text denotes none.
pub open spec fn spec_percent(s: Seq<char>) -> Option<int> {
    let neg = s.len() > 0 && s[0] == '-';
    let body = if neg {
        s.skip(1)
    } else {
        s
    };
    let d = find_char(body, '.');
    let ip = body.take(d);
    let has_frac = d < body.len();
    let fp = if has_frac {
        body.skip(d + 1)
    } else {
        Seq::empty()
    };
    if ip.len() > 0 && all_digits(ip) && (!has_frac || (fp.len() > 0 && all_digits(fp))) {
        Some(spec_percent_core(neg, ip, fp))
    } else {
        None
    }
}

proof fn lemma_pow10_pos(k: int)
    ensures
        pow10(k) >= 1,
    decreases
            (if k > 0 {
                k
            } else {
                0
            }),
{
    if k > 0 {
        lemma_pow10_pos(k - 1);
    }
}

proof fn lemma_pow10_mono(a: int, b: int)
    requires
        a <= b,
    ensures
        pow10(a) <= pow10(b),
    decreases b - a,
{
    if a < b {
        lemma_pow10_mono(a, b - 1);
        lemma_pow10_pos(b - 1);
    }
}

/// Reads the rounded, hundredfold magnitude out of the digits of a score:
/// the integer digits from z to iend, then the fraction digits after the
/// dot, the decimal point shifted two places.
#[verifier::loop_isolation(false)]
#[verifier::rlimit(100)]
fn scaled_magnitude(
    text: &str,
    z: usize,
    iend: usize,
    dot: usize,
    n: usize,
    Ghost(ds): Ghost<Seq<char>>,
) -> (mag: i64)
    requires
        n == text@.len(),
        z <= iend <= n,
        iend - z <= 10,
        dot <= n,
        dot < n ==> iend == dot && dot + 1 <= n,
        dot == n ==> iend == n,
        ds.len() == (iend - z) + (if dot < n {
            n - dot - 1
        } else {
            0int
        }),
        forall|q: int|
            0 <= q < ds.len() ==> ds[q] == (if q < iend - z {
                text@[z + q]
            } else {
                text@[dot + 1 + q - (iend - z)]
            }),
        forall|q: int| 0 <= q < ds.len() ==> is_digit(#[trigger] ds[q]),
    ensures
        mag == spec_rounded_mag(ds, (iend - z) as int + 2),
        0 <= mag <= pow10(12),
{
    let ipt_len: usize = iend - z;
    let fp_len: usize = if dot < n {
        n - dot - 1
    } else {
        0
    };
    let t: usize = ipt_len + 2;
    let mut mag: i64 = 0;
    let mut k3: usize = 0;
    proof {
        assert(pad_take(ds, 0) =~= Seq::empty());
        assert(pow10(12) == 1000000000000) by {
            reveal_with_fuel(pow10, 13);
        }
    }
    while k3 < t
        invariant
            k3 <= t,
            mag == spec_digits_val(pad_take(ds, k3 as int)),
            0 <= mag < pow10(k3 as int),
        decreases t - k3,
    {
        let c: char = if k3 < ipt_len {
            text.get_char(z + k3)
        } else if dot < n && k3 - ipt_len < fp_len {
            text.get_char(dot + 1 + (k3 - ipt_len))
        } else {
            '0'
        };
        proof {
            assert(c == (if k3 < ds.len() {
                ds[k3 as int]
            } else {
                '0'
            }));
            assert(is_digit(c) || c == '0');
            assert(pad_take(ds, k3 as int + 1).drop_last() =~= pad_take(ds, k3 as int));
            assert(pad_take(ds, k3 as int + 1).last() == c);
            lemma_pow10_mono(k3 as int + 1, 12);
        }
        let d: u32 = (c as u32) - 48;
        mag = mag * 10 + (d as i64);
        k3 = k3 + 1;
    }
    let rc: u32 = if dot < n && t - ipt_len < fp_len {
        text.get_char(dot + 1 + (t - ipt_len)) as u32
    } else {
        48
    };
    proof {
        if t < ds.len() {
            assert(ds[t as int] == text@[dot as int + 1 + (t - ipt_len)]);
        }
        lemma_digits_val_bound(pad_take(ds, t as int));
        lemma_pow10_mono(t as int, 12);
    }
    if rc >= 53 {
        mag = mag + 1;
    }
    mag
}

/// Reads the whole percentage out of the text of a JSON number.
#[verifier::loop_isolation(false)]
#[verifier::rlimit(100)]
pub fn percent_of(text: &str) -> (r: Option<i32>)
    ensures
        (match r {
            Some(p) => spec_percent(text@) == Some(p as int),
            None => spec_percent(text@) is None,
        }),
{
    let n = text.unicode_len();
    let neg = n > 0 && text.get_char(0) == '-';
    let start: usize = if neg {
        1
    } else {
        0
    };
    let ghost body = if neg {
        text@.skip(1)
    } else {
        text@
    };
    proof {
        assert(text@.skip(0) =~= text@);
        assert(forall|k: int| 0 <= k < body.len() ==> body[k] == text@[start as int + k]);
    }
    // the first dot at or after the sign, if any
    let mut dot: usize = n;
    let mut i: usize = start;
    while i < n && dot == n
        invariant
            start <= i <= n,
            dot == n || (start <= dot < n),
            dot == n ==> forall|k: int| start <= k < i ==> text@[k] != '.',
            dot < n ==> text@[dot as int] == '.' && (forall|k: int|
                start <= k < dot ==> text@[k] != '.'),
        decreases n - i,
    {
        if text.get_char(i) == '.' {
            dot = i;
        }
        i = i + 1;
    }
    let ghost fd = find_char(body, '.');
    proof {
        lemma_find_char(body, '.');
        if dot == n {
            assert(fd == body.len()) by {
                if fd < body.len() {
                    assert(body[fd] == '.');
                }
            }
        } else {
            assert(body[dot as int - start as int] == '.');
            assert(fd == dot as int - start as int) by {
                if fd < dot as int - start as int {
                    assert(body[fd] == '.');
                }
            }
        }
    }
    let iend: usize = if dot < n {
        dot
    } else {
        n
    };
    let ghost ip = body.take(fd);
    let ghost has_frac = fd < body.len();
    let ghost fp: Seq<char> = if has_frac {
        body.skip(fd + 1)
    } else {
        Seq::empty()
    };
    proof {
        assert(ip.len() == iend - start);
        assert(forall|q: int| 0 <= q < ip.len() ==> ip[q] == text@[start as int + q]);
        assert(forall|q: int| 0 <= q < fp.len() ==> fp[q] == text@[dot as int + 1 + q]);
    }
    if iend == start {
        return None;
    }
    // every character of the integer part must be a digit
    let mut k: usize = start;
    while k < iend
        invariant
            start <= k <= iend,
            forall|t: int| start <= t < k ==> is_digit(text@[t]),
        decreases iend - k,
    {
        let c = text.get_char(k);
        let u = c as u32;
        if u < 48 || u > 57 {
            proof {
                assert(ip[k as int - start as int] == text@[k as int]);
                assert(!all_digits(ip));
            }
            return None;
        }
        k = k + 1;
    }
    proof {
        assert(all_digits(ip));
    }
    // the fraction, if a dot is there, must be nonempty and all digits
    if dot < n {
        if dot + 1 == n {
            return None;
        }
        let mut k2: usize = dot + 1;
        while k2 < n
            invariant
                dot + 1 <= k2 <= n,
                forall|t: int| dot + 1 <= t < k2 ==> is_digit(text@[t]),
            decreases n - k2,
        {
            let c = text.get_char(k2);
            let u = c as u32;
            if u < 48 || u > 57 {
                proof {
                    assert(fp[k2 as int - (dot as int + 1)] == text@[k2 as int]);
                    assert(!all_digits(fp));
                }
                return None;
            }
            k2 = k2 + 1;
        }
    }
    proof {
        assert(all_digits(fp));
        assert(spec_percent(text@) == Some(spec_percent_core(neg, ip, fp)));
    }
    // skip the leading zeros of the integer part
    let mut z: usize = start;
    while z < iend && text.get_char(z) == '0'
        invariant
            start <= z <= iend,
            forall|t: int| start <= t < z ==> text@[t] == '0',
        decreases iend - z,
    {
        z = z + 1;
    }
    proof {
        lemma_count_zeros(ip);
        assert(count_zeros(ip) == z - start) by {
            if count_zeros(ip) < z - start {
                assert(ip[count_zeros(ip)] == text@[start as int + count_zeros(ip)]);
            }
            if count_zeros(ip) > z - start {
                assert(z < iend);
                assert(ip[z as int - start as int] == text@[z as int]);
            }
        }
    }
    let ghost ipt = ip.skip(z as int - start as int);
    let ghost ds = ipt + fp;
    proof {
        assert(ipt.len() == iend - z);
        assert(forall|q: int| 0 <= q < ipt.len() ==> ipt[q] == text@[z as int + q]);
        assert(forall|q: int|
            0 <= q < ds.len() ==> ds[q] == (if q < ipt.len() {
                text@[z as int + q]
            } else {
                text@[dot as int + 1 + q - ipt.len()]
            }));
        assert(forall|q: int| 0 <= q < ds.len() ==> is_digit(#[trigger] ds[q]));
    }
    let ipt_len: usize = iend - z;
    if ipt_len > 10 {
        if neg {
            return Some(-2147483648);
        } else {
            return Some(2147483647);
        }
    }
    let mag = scaled_magnitude(text, z, iend, dot, n, Ghost(ds));
    let res: i32 = if neg {
        if mag > 2147483648 {
            -2147483648
        } else {
            (0 - mag) as i32
        }
    } else {
        if mag > 2147483647 {
            2147483647
        } else {
            mag as i32
        }
    };
    Some(res)
}

} // verus!
