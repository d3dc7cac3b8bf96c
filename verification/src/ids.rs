//! Textual widget identifiers: decimal counters, scope paths and the
//! `"{scope}/{label}_{counter}"` format that widget IDs follow.
use vstd::prelude::*;

verus! {

/// The character of decimal digit `d` (for `d < 10`).
pub open spec fn digit_char(d: nat) -> char {
    if d == 0 {
        '0'
    } else if d == 1 {
        '1'
    } else if d == 2 {
        '2'
    } else if d == 3 {
        '3'
    } else if d == 4 {
        '4'
    } else if d == 5 {
        '5'
    } else if d == 6 {
        '6'
    } else if d == 7 {
        '7'
    } else if d == 8 {
        '8'
    } else {
        '9'
    }
}

/// Whether `c` is one of the ten decimal digit characters.
pub open spec fn is_digit(c: char) -> bool {
    exists|d: nat| d < 10 && digit_char(d) == c
}

/// The decimal representation of `n`, most significant digit first, without
/// leading zeros (as `format!("{}", n)` prints it).
pub open spec fn decimal(n: nat) -> Seq<char>
    decreases n,
{
    if n < 10 {
        seq![digit_char(n)]
    } else {
        decimal(n / 10) + seq![digit_char(n % 10)]
    }
}

/// The parts joined with `'/'` between consecutive parts.
pub open spec fn join_path(parts: Seq<Seq<char>>) -> Seq<char>
    decreases parts.len(),
{
    if parts.len() == 0 {
        Seq::empty()
    } else if parts.len() == 1 {
        parts[0]
    } else {
        join_path(parts.drop_last()) + seq!['/'] + parts.last()
    }
}

/// The widget ID made from a scope stack, a label and a counter:
/// `"{label}_{counter}"` with no scope, `"{scope/...}/{label}_{counter}"` otherwise.
pub open spec fn make_id(stack: Seq<Seq<char>>, label: Seq<char>, counter: nat) -> Seq<char> {
    if stack.len() == 0 {
        label + seq!['_'] + decimal(counter)
    } else {
        join_path(stack) + seq!['/'] + label + seq!['_'] + decimal(counter)
    }
}

/// Digit characters are distinct.
proof fn lemma_digit_char_injective(a: nat, b: nat)
    requires
        a < 10,
        b < 10,
        digit_char(a) == digit_char(b),
    ensures
        a == b,
{
}

/// A decimal representation is made of digits only, and has one character
/// exactly when the number is below ten.
pub proof fn lemma_decimal_digits(n: nat)
    ensures
        decimal(n).len() >= 1,
        decimal(n).len() == 1 <==> n < 10,
        forall|i: int| 0 <= i < decimal(n).len() ==> is_digit(#[trigger] decimal(n)[i]),
    decreases n,
{
    if n < 10 {
        assert(is_digit(decimal(n)[0]));
    } else {
        lemma_decimal_digits(n / 10);
        let d = n % 10;
        assert(is_digit(digit_char(d)));
        assert forall|i: int| 0 <= i < decimal(n).len() implies is_digit(
            #[trigger] decimal(n)[i],
        ) by {
            if i < decimal(n / 10).len() {
                assert(decimal(n)[i] == decimal(n / 10)[i]);
            }
        }
    }
}

/// Different numbers have different decimal representations.
pub proof fn lemma_decimal_injective(a: nat, b: nat)
    requires
        decimal(a) == decimal(b),
    ensures
        a == b,
    decreases a,
{
    lemma_decimal_digits(a);
    lemma_decimal_digits(b);
    let da = decimal(a);
    let db = decimal(b);
    assert(da.last() == db.last());
    if a < 10 {
        assert(b < 10);
        lemma_digit_char_injective(a, b);
    } else {
        assert(b >= 10);
        lemma_digit_char_injective(a % 10, b % 10);
        assert(decimal(a / 10) =~= da.drop_last());
        assert(decimal(b / 10) =~= db.drop_last());
        lemma_decimal_injective(a / 10, b / 10);
    }
}

/// A digit is neither an underscore nor a slash.
proof fn lemma_digit_not_separator(c: char)
    requires
        is_digit(c),
    ensures
        c != '_',
        c != '/',
{
}

/// The counter is what follows the last `'_'` of an ID.
proof fn lemma_id_suffix(x: Seq<char>, n: nat)
    ensures
        (x + seq!['_'] + decimal(n)).subrange(
            (x + seq!['_'] + decimal(n)).len() - decimal(n).len(),
            (x + seq!['_'] + decimal(n)).len() as int,
        ) == decimal(n),
        (x + seq!['_'] + decimal(n))[(x + seq!['_'] + decimal(n)).len() - decimal(n).len() - 1]
            == '_',
{
    let s = x + seq!['_'] + decimal(n);
    assert(s.subrange(s.len() - decimal(n).len(), s.len() as int) =~= decimal(n));
}

/// Two strings ending in `_` and a decimal number are equal only if the numbers are.
proof fn lemma_suffix_unique(x1: Seq<char>, n1: nat, x2: Seq<char>, n2: nat)
    requires
        x1 + seq!['_'] + decimal(n1) == x2 + seq!['_'] + decimal(n2),
    ensures
        n1 == n2,
{
    let s = x1 + seq!['_'] + decimal(n1);
    let d1 = decimal(n1);
    let d2 = decimal(n2);
    lemma_decimal_digits(n1);
    lemma_decimal_digits(n2);
    lemma_id_suffix(x1, n1);
    lemma_id_suffix(x2, n2);
    if d1.len() < d2.len() {
        let p = s.len() - d1.len() - 1;
        let q = p - (s.len() - d2.len());
        assert(s[p] == d2[q]);
        lemma_digit_not_separator(d2[q]);
    } else if d2.len() < d1.len() {
        let p = s.len() - d2.len() - 1;
        let q = p - (s.len() - d1.len());
        assert(s[p] == d1[q]);
        lemma_digit_not_separator(d1[q]);
    } else {
        lemma_decimal_injective(n1, n2);
    }
}

/// IDs built with different counters are different, whatever their scopes
/// and labels: every ID generated within one frame is unique.
pub proof fn law_ids_with_distinct_counters_differ(
    stack1: Seq<Seq<char>>,
    label1: Seq<char>,
    c1: nat,
    stack2: Seq<Seq<char>>,
    label2: Seq<char>,
    c2: nat,
)
    requires
        c1 != c2,
    ensures
        make_id(stack1, label1, c1) != make_id(stack2, label2, c2),
{
    let x1 = if stack1.len() == 0 {
        label1
    } else {
        join_path(stack1) + seq!['/'] + label1
    };
    let x2 = if stack2.len() == 0 {
        label2
    } else {
        join_path(stack2) + seq!['/'] + label2
    };
    assert(make_id(stack1, label1, c1) =~= x1 + seq!['_'] + decimal(c1));
    assert(make_id(stack2, label2, c2) =~= x2 + seq!['_'] + decimal(c2));
    if make_id(stack1, label1, c1) == make_id(stack2, label2, c2) {
        lemma_suffix_unique(x1, c1, x2, c2);
    }
}

/// Popping a scope right after pushing it gives back the scope stack.
pub proof fn law_pop_undoes_push(stack: Seq<Seq<char>>, scope: Seq<char>)
    ensures
        stack.push(scope).len() != 0,
        stack.push(scope).drop_last() == stack,
{
    assert(stack.push(scope).drop_last() =~= stack);
}

/// The one-character string of decimal digit `d`.
fn digit_str(d: usize) -> (r: &'static str)
    requires
        d < 10,
    ensures
        r@ == seq![digit_char(d as nat)],
{
    proof {
        reveal_strlit("0");
        reveal_strlit("1");
        reveal_strlit("2");
        reveal_strlit("3");
        reveal_strlit("4");
        reveal_strlit("5");
        reveal_strlit("6");
        reveal_strlit("7");
        reveal_strlit("8");
        reveal_strlit("9");
    }
    if d == 0 {
        "0"
    } else if d == 1 {
        "1"
    } else if d == 2 {
        "2"
    } else if d == 3 {
        "3"
    } else if d == 4 {
        "4"
    } else if d == 5 {
        "5"
    } else if d == 6 {
        "6"
    } else if d == 7 {
        "7"
    } else if d == 8 {
        "8"
    } else {
        "9"
    }
}

/// Append the decimal representation of `n` to `out`.
pub fn push_decimal(out: &mut String, n: usize)
    ensures
        final(out)@ == old(out)@ + decimal(n as nat),
    decreases n,
{
    if n >= 10 {
        push_decimal(out, n / 10);
    }
    out.append(digit_str(n % 10));
    assert(out@ =~= old(out)@ + decimal(n as nat));
}

/// Append the parts joined with `'/'` to `out`.
pub fn push_joined(out: &mut String, parts: &Vec<String>)
    ensures
        final(out)@ == old(out)@ + join_path(parts@.map_values(|p: String| p@)),
{
    let ghost views = parts@.map_values(|p: String| p@);
    let n = parts.len();
    let mut i: usize = 0;
    proof {
        reveal_strlit("/");
        assert(views.take(0) =~= Seq::<Seq<char>>::empty());
    }
    while i < n
        invariant
            n == parts@.len(),
            i <= n,
            views == parts@.map_values(|p: String| p@),
            out@ == old(out)@ + join_path(views.take(i as int)),
        decreases n - i,
    {
        let ghost before = out@;
        proof {
            reveal_strlit("/");
        }
        if i > 0 {
            out.append("/");
        }
        out.append(parts[i].as_str());
        proof {
            let t = views.take(i + 1);
            assert(t.drop_last() =~= views.take(i as int));
            assert(t.last() == parts@[i as int]@);
            assert(views[i as int] == parts@[i as int]@);
            if i == 0 {
                assert(join_path(t) == t[0]);
            } else {
                assert(join_path(t) == join_path(t.drop_last()) + seq!['/'] + t.last());
            }
            assert(out@ =~= old(out)@ + join_path(t));
        }
        i = i + 1;
    }
    proof {
        assert(views.take(n as int) =~= views);
    }
}

} // verus!
