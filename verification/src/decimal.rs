use vstd::prelude::*;
use vstd::string::StringExecFns;

verus! {

pub open spec fn is_digit_char(c: char) -> bool {
    48 <= c as u32 <= 57
}

pub open spec fn is_nonzero_digit_char(c: char) -> bool {
    49 <= c as u32 <= 57
}

pub open spec fn all_zero_chars(s: Seq<char>) -> bool {
    forall|i: int| 0 <= i < s.len() ==> s[i] == '0'
}

pub open spec fn sign_len(s: Seq<char>) -> int {
    if s.len() > 0 && s[0] == '-' {
        1
    } else {
        0
    }
}

/// The first index at or after `i` holding something other than a digit.
pub open spec fn digits_end(s: Seq<char>, i: int) -> int
    decreases s.len() - i,
{
    if i < 0 || i >= s.len() {
        i
    } else if !is_digit_char(s[i]) {
        i
    } else {
        digits_end(s, i + 1)
    }
}

/// The first index at or after `i` holding something other than a digit 1-9.
pub open spec fn nonzero_end(s: Seq<char>, i: int) -> int
    decreases s.len() - i,
{
    if i < 0 || i >= s.len() {
        i
    } else if !is_nonzero_digit_char(s[i]) {
        i
    } else {
        nonzero_end(s, i + 1)
    }
}

/// The trailing-zero trimming rule: a decimal string made of an optional
/// sign, an integer part, a dot and a fraction loses its trailing zeros when
/// the fraction is nonzero digits followed by zeros, and loses the whole
/// fractional tail when the fraction is all zeros; any other string is kept
/// unchanged.
pub open spec fn trim_result(s: Seq<char>) -> Seq<char> {
    let p = sign_len(s);
    let dot = digits_end(s, p);
    if dot > p && dot < s.len() && s[dot] == '.' {
        let f = dot + 1;
        if f < s.len() && all_zero_chars(s.subrange(f, s.len() as int)) {
            s.take(dot)
        } else {
            let m = nonzero_end(s, f);
            if m > f && m < s.len() && all_zero_chars(s.subrange(m, s.len() as int)) {
                s.take(m)
            } else {
                s
            }
        }
    } else {
        s
    }
}

proof fn lemma_digits_end(s: Seq<char>, i: int)
    requires
        0 <= i <= s.len(),
    ensures
        i <= digits_end(s, i) <= s.len(),
        forall|j: int| i <= j < digits_end(s, i) ==> is_digit_char(s[j]),
        digits_end(s, i) < s.len() ==> !is_digit_char(s[digits_end(s, i)]),
    decreases s.len() - i,
{
    if i < s.len() && is_digit_char(s[i]) {
        lemma_digits_end(s, i + 1);
    }
}

proof fn lemma_nonzero_end(s: Seq<char>, i: int)
    requires
        0 <= i <= s.len(),
    ensures
        i <= nonzero_end(s, i) <= s.len(),
        forall|j: int| i <= j < nonzero_end(s, i) ==> is_nonzero_digit_char(s[j]),
        nonzero_end(s, i) < s.len() ==> !is_nonzero_digit_char(s[nonzero_end(s, i)]),
    decreases s.len() - i,
{
    if i < s.len() && is_nonzero_digit_char(s[i]) {
        lemma_nonzero_end(s, i + 1);
    }
}

fn scan_digits(s: &str, from: usize, n: usize) -> (r: usize)
    requires
        from <= s@.len(),
        n == s@.len(),
    ensures
        r == digits_end(s@, from as int),
{
    proof {
        lemma_digits_end(s@, from as int);
    }
    let mut i: usize = from;
    loop
        invariant
            from <= i <= n,
            n == s@.len(),
            forall|j: int| from <= j < i ==> is_digit_char(s@[j]),
        ensures
            from <= i <= n,
            forall|j: int| from <= j < i ==> is_digit_char(s@[j]),
            i == n || !is_digit_char(s@[i as int]),
        decreases n - i,
    {
        if i == n {
            break ;
        }
        let c = s.get_char(i);
        if !(48 <= c as u32 && c as u32 <= 57) {
            proof {
                assert(!is_digit_char(s@[i as int]));
            }
            break ;
        }
        i += 1;
    }
    proof {
        let d = digits_end(s@, from as int);
        if d < i {
            assert(is_digit_char(s@[d]));
            assert(false);
        }
        if d > i {
            assert(i < s@.len());
            assert(is_digit_char(s@[i as int]));
            assert(false);
        }
    }
    i
}

fn scan_nonzero(s: &str, from: usize, n: usize) -> (r: usize)
    requires
        from <= s@.len(),
        n == s@.len(),
    ensures
        r == nonzero_end(s@, from as int),
{
    proof {
        lemma_nonzero_end(s@, from as int);
    }
    let mut i: usize = from;
    loop
        invariant
            from <= i <= n,
            n == s@.len(),
            forall|j: int| from <= j < i ==> is_nonzero_digit_char(s@[j]),
        ensures
            from <= i <= n,
            forall|j: int| from <= j < i ==> is_nonzero_digit_char(s@[j]),
            i == n || !is_nonzero_digit_char(s@[i as int]),
        decreases n - i,
    {
        if i == n {
            break ;
        }
        let c = s.get_char(i);
        if !(49 <= c as u32 && c as u32 <= 57) {
            proof {
                assert(!is_nonzero_digit_char(s@[i as int]));
            }
            break ;
        }
        i += 1;
    }
    proof {
        let d = nonzero_end(s@, from as int);
        if d < i {
            assert(is_nonzero_digit_char(s@[d]));
            assert(false);
        }
        if d > i {
            assert(i < s@.len());
            assert(is_nonzero_digit_char(s@[i as int]));
            assert(false);
        }
    }
    i
}

fn all_zeros_from(s: &str, from: usize, n: usize) -> (r: bool)
    requires
        from <= s@.len(),
        n == s@.len(),
    ensures
        r == all_zero_chars(s@.subrange(from as int, s@.len() as int)),
{
    let ghost sub = s@.subrange(from as int, s@.len() as int);
    let mut i: usize = from;
    loop
        invariant
            from <= i <= n,
            n == s@.len(),
            sub == s@.subrange(from as int, s@.len() as int),
            forall|j: int| from <= j < i ==> s@[j] == '0',
        ensures
            i == n,
            forall|j: int| from <= j < n ==> s@[j] == '0',
        decreases n - i,
    {
        if i == n {
            break ;
        }
        let c = s.get_char(i);
        if c != '0' {
            proof {
                assert(sub[i - from] == s@[i as int]);
                assert(!all_zero_chars(sub));
            }
            return false;
        }
        i += 1;
    }
    proof {
        assert forall|j: int| 0 <= j < sub.len() implies sub[j] == '0' by {
            assert(sub[j] == s@[j + from]);
        }
    }
    true
}

/// Removes a fraction's trailing zeros, exactly as the trimming rule states.
pub fn cut_trailing_zeros(s: &str) -> (r: String)
    ensures
        r@ == trim_result(s@),
{
    let n = s.unicode_len();
    let p: usize = if n > 0 && s.get_char(0) == '-' {
        1
    } else {
        0
    };
    let dot = scan_digits(s, p, n);
    if !(dot > p && dot < n) {
        return s.to_owned();
    }
    if s.get_char(dot) != '.' {
        return s.to_owned();
    }
    let f = dot + 1;
    if f < n && all_zeros_from(s, f, n) {
        let cut = s.substring_char(0, dot);
        proof {
            assert(cut@ =~= s@.take(dot as int));
        }
        return cut.to_owned();
    }
    let m = scan_nonzero(s, f, n);
    if m > f && m < n && all_zeros_from(s, m, n) {
        let cut = s.substring_char(0, m);
        proof {
            assert(cut@ =~= s@.take(m as int));
        }
        cut.to_owned()
    } else {
        s.to_owned()
    }
}

pub open spec fn pow10(k: nat) -> int
    decreases k,
{
    if k == 0 {
        1
    } else {
        10 * pow10((k - 1) as nat)
    }
}

pub open spec fn digit_char_of(d: int) -> char {
    if d == 0 {
        '0'
    } else if d == 1 {
        '1'
    } else if d == 2 {
        '2'
    } else if d == 3 {
        '3'
    } else if d == 4 {
        '4'
    } else if d == 5 {
        '5'
    } else if d == 6 {
        '6'
    } else if d == 7 {
        '7'
    } else if d == 8 {
        '8'
    } else {
        '9'
    }
}

/// The decimal digits of a nonnegative integer, most significant first.
pub open spec fn nat_digits(n: int) -> Seq<char>
    decreases n,
{
    if n < 10 {
        seq![digit_char_of(n)]
    } else {
        nat_digits(n / 10).push(digit_char_of(n % 10))
    }
}

/// Exactly `k` digits of a nonnegative integer, zero-padded on the left.
pub open spec fn frac_digits(n: int, k: nat) -> Seq<char>
    decreases k,
{
    if k == 0 {
        Seq::empty()
    } else {
        frac_digits(n / 10, (k - 1) as nat).push(digit_char_of(n % 10))
    }
}

/// `v * 10^-scale` in plain decimal notation: an optional sign, the integer
/// part, and for a positive scale a dot followed by exactly `scale` digits.
pub open spec fn scaled_decimal(v: int, scale: nat) -> Seq<char> {
    let a = if v < 0 {
        -v
    } else {
        v
    };
    let sign: Seq<char> = if v < 0 {
        seq!['-']
    } else {
        Seq::empty()
    };
    if scale == 0 {
        sign + nat_digits(a)
    } else {
        sign + nat_digits(a / pow10(scale)) + seq!['.'] + frac_digits(a % pow10(scale), scale)
    }
}

proof fn lemma_pow10_pos(k: nat)
    ensures
        pow10(k) >= 1,
    decreases k,
{
    if k > 0 {
        lemma_pow10_pos((k - 1) as nat);
    }
}

proof fn lemma_pow10_increases(j: nat, k: nat)
    requires
        j <= k,
    ensures
        pow10(j) <= pow10(k),
    decreases k,
{
    if j < k {
        lemma_pow10_increases(j, (k - 1) as nat);
        lemma_pow10_pos((k - 1) as nat);
    }
}

proof fn lemma_pow10_value_19()
    ensures
        pow10(19) == 10_000_000_000_000_000_000,
{
    assert(pow10(0) == 1);
    assert(pow10(1) == 10);
    assert(pow10(2) == 100);
    assert(pow10(3) == 1000);
    assert(pow10(4) == 10000);
    assert(pow10(5) == 100000);
    assert(pow10(6) == 1000000);
    assert(pow10(7) == 10000000);
    assert(pow10(8) == 100000000);
    assert(pow10(9) == 1000000000);
    assert(pow10(10) == 10000000000);
    assert(pow10(11) == 100000000000);
    assert(pow10(12) == 1000000000000);
    assert(pow10(13) == 10000000000000);
    assert(pow10(14) == 100000000000000);
    assert(pow10(15) == 1000000000000000);
    assert(pow10(16) == 10000000000000000);
    assert(pow10(17) == 100000000000000000);
    assert(pow10(18) == 1000000000000000000);
    assert(pow10(19) == 10_000_000_000_000_000_000);
}

proof fn lemma_pow10_value_20()
    ensures
        pow10(20) == 100_000_000_000_000_000_000,
{
    lemma_pow10_value_19();
    assert(pow10(20) == 100_000_000_000_000_000_000);
}

/// The low `k` digits of a nonnegative integer are all its padded fraction
/// rendering looks at.
proof fn lemma_frac_digits_mod(n: int, k: nat)
    requires
        n >= 0,
    ensures
        frac_digits(n % pow10(k), k) == frac_digits(n, k),
    decreases k,
{
    if k > 0 {
        let m = pow10((k - 1) as nat);
        lemma_pow10_pos((k - 1) as nat);
        vstd::arithmetic::div_mod::lemma_mod_breakdown(n, 10, m);
        assert(pow10(k) == 10 * m);
        let w = (n / 10) % m;
        let u = n % 10;
        vstd::arithmetic::div_mod::lemma_mod_bound(n, 10);
        vstd::arithmetic::div_mod::lemma_div_pos_is_pos(n, 10);
        vstd::arithmetic::div_mod::lemma_mod_bound(n / 10, m);
        assert(n % pow10(k) == 10 * w + u);
        vstd::arithmetic::div_mod::lemma_fundamental_div_mod_converse(n % pow10(k), 10, w, u);
        lemma_frac_digits_mod(n / 10, (k - 1) as nat);
        assert(frac_digits(n % pow10(k), k) =~= frac_digits(n, k));
    }
}

fn digit_str(d: u64) -> (r: &'static str)
    requires
        d < 10,
    ensures
        r@ == seq![digit_char_of(d as int)],
{
    if d == 0 {
        proof {
            reveal_strlit("0");
            assert("0"@ =~= seq![digit_char_of(0)]);
        }
        "0"
    } else if d == 1 {
        proof {
            reveal_strlit("1");
            assert("1"@ =~= seq![digit_char_of(1)]);
        }
        "1"
    } else if d == 2 {
        proof {
            reveal_strlit("2");
            assert("2"@ =~= seq![digit_char_of(2)]);
        }
        "2"
    } else if d == 3 {
        proof {
            reveal_strlit("3");
            assert("3"@ =~= seq![digit_char_of(3)]);
        }
        "3"
    } else if d == 4 {
        proof {
            reveal_strlit("4");
            assert("4"@ =~= seq![digit_char_of(4)]);
        }
        "4"
    } else if d == 5 {
        proof {
            reveal_strlit("5");
            assert("5"@ =~= seq![digit_char_of(5)]);
        }
        "5"
    } else if d == 6 {
        proof {
            reveal_strlit("6");
            assert("6"@ =~= seq![digit_char_of(6)]);
        }
        "6"
    } else if d == 7 {
        proof {
            reveal_strlit("7");
            assert("7"@ =~= seq![digit_char_of(7)]);
        }
        "7"
    } else if d == 8 {
        proof {
            reveal_strlit("8");
            assert("8"@ =~= seq![digit_char_of(8)]);
        }
        "8"
    } else {
        proof {
            reveal_strlit("9");
            assert("9"@ =~= seq![digit_char_of(9)]);
        }
        "9"
    }
}

fn push_nat_digits(n: u64, out: &mut String)
    ensures
        final(out)@ == old(out)@ + nat_digits(n as int),
    decreases n,
{
    if n < 10 {
        out.append(digit_str(n));
        proof {
            assert(out@ =~= old(out)@ + nat_digits(n as int));
        }
    } else {
        proof {
            vstd::arithmetic::div_mod::lemma_fundamental_div_mod(n as int, 10);
            vstd::arithmetic::div_mod::lemma_mod_bound(n as int, 10);
            assert(n as int / 10 < n as int);
        }
        push_nat_digits(n / 10, out);
        out.append(digit_str(n % 10));
        proof {
            assert(out@ =~= old(out)@ + nat_digits(n as int));
        }
    }
}

fn push_frac_digits(n: u64, k: u32, out: &mut String)
    ensures
        final(out)@ == old(out)@ + frac_digits(n as int, k as nat),
    decreases k,
{
    if k == 0 {
        proof {
            assert(out@ =~= old(out)@ + frac_digits(n as int, 0));
        }
    } else {
        push_frac_digits(n / 10, k - 1, out);
        out.append(digit_str(n % 10));
        proof {
            assert(out@ =~= old(out)@ + frac_digits(n as int, k as nat));
        }
    }
}

/// `a / 10^scale`, with the quotient of any scale past the width of a 64-bit
/// value collapsing to zero.
fn div_pow10(a: u64, scale: u32) -> (q: u64)
    ensures
        q as int == a as int / pow10(scale as nat),
{
    if scale >= 20 {
        proof {
            lemma_pow10_value_20();
            lemma_pow10_increases(20, scale as nat);
            vstd::arithmetic::div_mod::lemma_basic_div(a as int, pow10(scale as nat));
        }
        0
    } else {
        let mut q = a;
        let mut i: u32 = 0;
        proof {
            vstd::arithmetic::div_mod::lemma_fundamental_div_mod_converse(a as int, 1, a as int, 0);
        }
        while i < scale
            invariant
                i <= scale,
                q as int == a as int / pow10(i as nat),
            decreases scale - i,
        {
            proof {
                lemma_pow10_pos(i as nat);
                vstd::arithmetic::div_mod::lemma_div_denominator(a as int, pow10(i as nat), 10);
                assert(pow10(i as nat) * 10 == pow10((i + 1) as nat));
            }
            q = q / 10;
            i += 1;
        }
        q
    }
}

/// Renders `v * 10^-scale` in plain decimal notation, exactly as the
/// rendering spec states: an optional sign, the integer part's digits, and
/// for a positive scale a dot followed by exactly `scale` digits.
pub fn scaled_int_to_decimal_string(v: i64, scale: u32) -> (r: String)
    ensures
        r@ == scaled_decimal(v as int, scale as nat),
{
    let a: u64 = if v >= 0 {
        v as u64
    } else {
        (-(v as i128)) as u64
    };
    proof {
        assert(a as int == (if v < 0 { -(v as int) } else { v as int }));
    }
    let ghost sign: Seq<char> = if v < 0 {
        seq!['-']
    } else {
        Seq::empty()
    };
    let mut out = String::new();
    if v < 0 {
        proof {
            reveal_strlit("-");
        }
        out.append("-");
    }
    proof {
        assert(out@ =~= sign);
    }
    if scale == 0 {
        push_nat_digits(a, &mut out);
        proof {
            assert(out@ =~= scaled_decimal(v as int, 0));
        }
    } else {
        let q = div_pow10(a, scale);
        push_nat_digits(q, &mut out);
        proof {
            reveal_strlit(".");
        }
        out.append(".");
        push_frac_digits(a, scale, &mut out);
        proof {
            lemma_frac_digits_mod(a as int, scale as nat);
            assert("."@ =~= seq!['.']);
            assert(out@ =~= scaled_decimal(v as int, scale as nat));
        }
    }
    out
}

/// An int64-backed decimal cell rendered for clients: the scaled rendering
/// with its trailing zeros trimmed.
pub fn int64_decimal_string(v: i64, scale: u32) -> (r: String)
    ensures
        r@ == trim_result(scaled_decimal(v as int, scale as nat)),
{
    let raw = scaled_int_to_decimal_string(v, scale);
    cut_trailing_zeros(raw.as_str())
}

} // verus!
