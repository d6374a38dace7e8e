//! Common arithmetic shared by the output analysis and the models.
use vstd::prelude::*;

verus! {

/// `r` is the integer square root of `n`: the largest `r` with `r * r <= n`.
pub open spec fn is_integer_sqrt(n: int, r: int) -> bool {
    &&& 0 <= r
    &&& r * r <= n
    &&& n < (r + 1) * (r + 1)
}

/// One Babylonian step never drops below a square root candidate: for
/// `x > 0` and any `r` with `r * r <= n`, `r <= (x + n / x) / 2`.
proof fn lemma_babylonian_step_bound(n: int, x: int, q: int, r: int)
    requires
        0 <= n,
        1 <= x,
        q == n / x,
        0 <= r,
        r * r <= n,
    ensures
        r <= (x + q) / 2,
{
    assert(n < (q + 1) * x) by (nonlinear_arith)
        requires
            1 <= x,
            q == n / x,
            0 <= n,
    ;
    assert(2 * r <= x + q) by (nonlinear_arith)
        requires
            1 <= x,
            0 <= q,
            0 <= r,
            r * r <= n,
            n < (q + 1) * x,
    {
        if x + q < 2 * r {
            assert(q * x <= (2 * r - 1 - x) * x);
            assert((r - x) * (r - x) >= 0);
        }
    }
}

/// The integer square root of `n`.
pub open spec fn integer_sqrt(n: int) -> int {
    choose|r: int| is_integer_sqrt(n, r)
}

/// Integer square roots are unique, so a root found by any means is the
/// integer square root.
pub proof fn lemma_integer_sqrt_unique(n: int, r: int)
    requires
        is_integer_sqrt(n, r),
    ensures
        integer_sqrt(n) == r,
{
    let c = integer_sqrt(n);
    assert(is_integer_sqrt(n, c));
    assert(c == r) by (nonlinear_arith)
        requires
            0 <= c,
            c * c <= n,
            n < (c + 1) * (c + 1),
            0 <= r,
            r * r <= n,
            n < (r + 1) * (r + 1),
    {
        if c < r {
            assert((c + 1) * (c + 1) <= r * r);
        }
        if r < c {
            assert((r + 1) * (r + 1) <= c * c);
        }
    }
}

/// The square of an integer.
pub open spec fn square(r: int) -> int {
    r * r
}

/// Integer square root calculation, using the Babylonian square-root
/// algorithm.  The midpoint of the current bracket is taken without
/// forming `x + y`, so no input overflows.
pub fn usize_sqrt(n: usize) -> (root: usize)
    ensures
        is_integer_sqrt(n as int, root as int),
        root == integer_sqrt(n as int),
{
    let mut x: usize = n;
    let mut y: usize = 1;
    if n == 0 {
        proof {
            lemma_integer_sqrt_unique(0, 0);
        }
        return 0;
    }
    assert forall|r: int| 0 <= r && #[trigger] square(r) <= n implies r <= x by {
        if r >= 1 {
            assert(r <= r * r) by (nonlinear_arith)
                requires
                    r >= 1,
            ;
        }
    }
    while x > y
        invariant
            1 <= n,
            1 <= x <= n,
            y as int == n as int / x as int,
            forall|r: int| 0 <= r && #[trigger] square(r) <= n ==> r <= x,
        decreases x,
    {
        let ghost old_x = x as int;
        let ghost old_y = y as int;
        x = y + (x - y) / 2;
        assert(x as int == (old_x + old_y) / 2);
        assert forall|r: int| 0 <= r && #[trigger] square(r) <= n implies r <= x by {
            lemma_babylonian_step_bound(n as int, old_x, old_y, r);
        }
        assert(square(1) <= n);
        y = n / x;
    }
    assert(x * x <= n) by (nonlinear_arith)
        requires
            1 <= x,
            x <= y,
            y as int == n as int / x as int,
    {
        assert(x as int * y as int <= n);
    }
    assert(n < (x + 1) * (x + 1)) by {
        if (x + 1) * (x + 1) <= n {
            assert(square(x + 1) <= n);
        }
    }
    proof {
        lemma_integer_sqrt_unique(n as int, x as int);
    }
    x
}

/// The decimal digit character for `d < 10`.
pub open spec fn digit_char(d: nat) -> char {
    (48 + d) as char
}

/// The decimal representation of `n`, most significant digit first, with
/// no leading zeros (zero is "0").
pub open spec fn decimal(n: nat) -> Seq<char>
    decreases n,
{
    if n < 10 {
        seq![digit_char(n)]
    } else {
        decimal(n / 10) + seq![digit_char(n % 10)]
    }
}

/// A decimal representation has at least one digit.
pub proof fn lemma_decimal_nonempty(n: nat)
    ensures
        decimal(n).len() >= 1,
{
    if n >= 10 {
        assert(decimal(n) == decimal(n / 10) + seq![digit_char(n % 10)]);
    }
}

/// Different numbers have different decimal representations.
pub proof fn lemma_decimal_injective(n: nat, m: nat)
    requires
        decimal(n) == decimal(m),
    ensures
        n == m,
    decreases n,
{
    lemma_decimal_nonempty(n / 10);
    lemma_decimal_nonempty(m / 10);
    let dn = decimal(n);
    let dm = decimal(m);
    if n < 10 && m < 10 {
        assert(dn[0] == dm[0]);
        assert((digit_char(n) as int) == 48 + n);
        assert((digit_char(m) as int) == 48 + m);
    } else if n < 10 {
        assert(dm.len() >= 2);
    } else if m < 10 {
        assert(dn.len() >= 2);
    } else {
        assert(dn.last() == dm.last());
        assert((digit_char(n % 10) as int) == 48 + n % 10);
        assert((digit_char(m % 10) as int) == 48 + m % 10);
        assert(dn.drop_last() =~= decimal(n / 10));
        assert(dm.drop_last() =~= decimal(m / 10));
        lemma_decimal_injective(n / 10, m / 10);
    }
}

/// The one-character string of the decimal digit `d`.
fn digit_string(d: usize) -> (s: String)
    requires
        d < 10,
    ensures
        s@ == seq![digit_char(d as nat)],
{
    proof {
        reveal_strlit("0");
        reveal_strlit("1");
        reveal_strlit("2");
        reveal_strlit("3");
        reveal_strlit("4");
        reveal_strlit("5");
        reveal_strlit("6");
        reveal_strlit("7");
        reveal_strlit("8");
        reveal_strlit("9");
    }
    let lit = match d {
        0 => "0",
        1 => "1",
        2 => "2",
        3 => "3",
        4 => "4",
        5 => "5",
        6 => "6",
        7 => "7",
        8 => "8",
        _ => "9",
    };
    assert(lit@ =~= seq![digit_char(d as nat)]);
    let s = lit.to_string();
    proof {
        vstd::string::to_string_from_display_ensures_for_str(lit, s);
    }
    s
}

/// The decimal representation of `n`: its digits, most significant first.
pub fn usize_to_string(n: usize) -> (s: String)
    ensures
        s@ == decimal(n as nat),
    decreases n,
{
    if n < 10 {
        digit_string(n)
    } else {
        let high = usize_to_string(n / 10);
        let s = high.concat(digit_string(n % 10).as_str());
        assert(s@ == decimal(n as nat));
        s
    }
}

} // verus!
