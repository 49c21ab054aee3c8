//! Plain text building blocks: decimal rendering of machine integers and
//! joining of text fragments with a separator.

use vstd::prelude::*;

verus! {

/// The digit character for a value below ten.
pub open spec fn dec_digit(d: nat) -> char {
    if d == 0 {
        '0'
    } else if d == 1 {
        '1'
    } else if d == 2 {
        '2'
    } else if d == 3 {
        '3'
    } else if d == 4 {
        '4'
    } else if d == 5 {
        '5'
    } else if d == 6 {
        '6'
    } else if d == 7 {
        '7'
    } else if d == 8 {
        '8'
    } else {
        '9'
    }
}

/// The decimal rendering of a natural number, most significant digit first,
/// with no leading zeros (zero itself renders as the single digit `0`).
pub open spec fn dec_rep(n: nat) -> Seq<char>
    decreases n,
{
    if n < 10 {
        seq![dec_digit(n)]
    } else {
        dec_rep(n / 10).push(dec_digit(n % 10))
    }
}

/// One digit as a text fragment.
fn digit_str(d: u64) -> (r: &'static str)
    requires
        d < 10,
    ensures
        r@ == seq![dec_digit(d as nat)],
{
    if d == 0 {
        proof {
            reveal_strlit("0");
        }
        "0"
    } else if d == 1 {
        proof {
            reveal_strlit("1");
        }
        "1"
    } else if d == 2 {
        proof {
            reveal_strlit("2");
        }
        "2"
    } else if d == 3 {
        proof {
            reveal_strlit("3");
        }
        "3"
    } else if d == 4 {
        proof {
            reveal_strlit("4");
        }
        "4"
    } else if d == 5 {
        proof {
            reveal_strlit("5");
        }
        "5"
    } else if d == 6 {
        proof {
            reveal_strlit("6");
        }
        "6"
    } else if d == 7 {
        proof {
            reveal_strlit("7");
        }
        "7"
    } else if d == 8 {
        proof {
            reveal_strlit("8");
        }
        "8"
    } else {
        proof {
            reveal_strlit("9");
        }
        "9"
    }
}

/// Renders a machine integer in decimal.
pub fn dec_string(n: u64) -> (r: String)
    ensures
        r@ == dec_rep(n as nat),
    decreases n,
{
    if n < 10 {
        digit_str(n).to_owned()
    } else {
        let mut s = dec_string(n / 10);
        s.append(digit_str(n % 10));
        proof {
            assert(dec_rep((n / 10) as nat) + seq![dec_digit((n % 10) as nat)] =~= dec_rep(
                (n / 10) as nat,
            ).push(dec_digit((n % 10) as nat)));
        }
        s
    }
}

/// Holds of text that stays on one line: no newline occurs in it.
pub open spec fn line_clean(s: Seq<char>) -> bool {
    forall|k: int| 0 <= k < s.len() ==> s[k] != '\n'
}

/// Newline-free fragments concatenate to a newline-free fragment.
pub proof fn lemma_clean_add(a: Seq<char>, b: Seq<char>)
    requires
        line_clean(a),
        line_clean(b),
    ensures
        line_clean(a + b),
{
    assert forall|k: int| 0 <= k < (a + b).len() implies (a + b)[k] != '\n' by {
        if k < a.len() {
            assert(a[k] != '\n');
        } else {
            assert(b[k - a.len()] != '\n');
        }
    };
}

/// A decimal rendering stays on one line.
pub proof fn lemma_dec_rep_clean(n: nat)
    ensures
        line_clean(dec_rep(n)),
    decreases n,
{
    if n < 10 {
        assert(dec_rep(n)[0] == dec_digit(n));
    } else {
        lemma_dec_rep_clean(n / 10);
        assert forall|k: int| 0 <= k < dec_rep(n).len() implies dec_rep(n)[k] != '\n' by {
            if k < dec_rep(n / 10).len() {
                assert(dec_rep(n)[k] == dec_rep(n / 10)[k]);
            } else {
                assert(dec_rep(n)[k] == dec_digit(n % 10));
            }
        };
    }
}

/// Joining newline-free fragments with a separator other than newline
/// stays on one line.
pub proof fn lemma_join_with_clean(parts: Seq<Seq<char>>, sep: char)
    requires
        sep != '\n',
        forall|i: int| 0 <= i < parts.len() ==> line_clean(#[trigger] parts[i]),
    ensures
        line_clean(join_with(parts, sep)),
    decreases parts.len(),
{
    if parts.len() <= 1 {
    } else {
        lemma_join_with_clean(parts.drop_first(), sep);
        assert(line_clean(parts[0]));
        assert(line_clean(seq![sep]));
        lemma_clean_add(parts[0], seq![sep]);
        lemma_clean_add(parts[0] + seq![sep], join_with(parts.drop_first(), sep));
    }
}

/// A decimal rendering is never empty.
pub proof fn lemma_dec_rep_nonempty(n: nat)
    ensures
        dec_rep(n).len() >= 1,
    decreases n,
{
    if n >= 10 {
        lemma_dec_rep_nonempty(n / 10);
    }
}

/// Distinct numbers render to distinct decimal text.
pub proof fn lemma_dec_rep_injective(m: nat, n: nat)
    requires
        dec_rep(m) == dec_rep(n),
    ensures
        m == n,
    decreases m,
{
    if m < 10 && n < 10 {
        assert(seq![dec_digit(m)][0] == dec_digit(m));
        assert(seq![dec_digit(n)][0] == dec_digit(n));
        assert(dec_digit(m) == dec_digit(n));
    } else if m < 10 {
        lemma_dec_rep_nonempty(n / 10);
        assert(dec_rep(n).len() >= 2);
        assert(false);
    } else if n < 10 {
        lemma_dec_rep_nonempty(m / 10);
        assert(dec_rep(m).len() >= 2);
        assert(false);
    } else {
        assert(dec_rep(m).drop_last() =~= dec_rep(m / 10));
        assert(dec_rep(n).drop_last() =~= dec_rep(n / 10));
        assert(dec_rep(m).last() == dec_digit(m % 10));
        assert(dec_rep(n).last() == dec_digit(n % 10));
        lemma_dec_rep_injective(m / 10, n / 10);
        assert(dec_digit(m % 10) == dec_digit(n % 10));
        assert(m % 10 == n % 10);
        vstd::arithmetic::div_mod::lemma_fundamental_div_mod(m as int, 10);
        vstd::arithmetic::div_mod::lemma_fundamental_div_mod(n as int, 10);
    }
}

/// The fragments joined with a single separator character between
/// neighbours; no separator leads or trails.
pub open spec fn join_with(parts: Seq<Seq<char>>, sep: char) -> Seq<char>
    decreases parts.len(),
{
    if parts.len() == 0 {
        Seq::empty()
    } else if parts.len() == 1 {
        parts[0]
    } else {
        parts[0] + seq![sep] + join_with(parts.drop_first(), sep)
    }
}

/// Joining one more fragment extends the joined text by a separator and the
/// fragment, except that the first fragment enters bare.
pub proof fn lemma_join_with_push(parts: Seq<Seq<char>>, x: Seq<char>, sep: char)
    ensures
        join_with(parts.push(x), sep) == if parts.len() == 0 {
            x
        } else {
            (join_with(parts, sep) + seq![sep] + x)
        },
    decreases parts.len(),
{
    if parts.len() == 0 {
        assert(parts.push(x).len() == 1);
        assert(parts.push(x)[0] == x);
    } else if parts.len() == 1 {
        assert(parts.push(x).drop_first() =~= seq![x]);
        assert(parts.push(x)[0] == parts[0]);
        assert(join_with(seq![x], sep) == seq![x][0]);
        assert(join_with(parts, sep) == parts[0]);
    } else {
        assert(parts.push(x).drop_first() =~= parts.drop_first().push(x));
        lemma_join_with_push(parts.drop_first(), x, sep);
        assert(parts.push(x)[0] == parts[0]);
        assert(join_with(parts.push(x), sep) == parts[0] + seq![sep] + join_with(
            parts.drop_first().push(x),
            sep,
        ));
        assert(parts[0] + seq![sep] + (join_with(parts.drop_first(), sep) + seq![sep] + x) =~= (
        parts[0] + seq![sep] + join_with(parts.drop_first(), sep)) + seq![sep] + x);
    }
}

/// Joins rendered fragments with a one-character separator.
pub fn join_parts(parts: &Vec<String>, sep: &str) -> (r: String)
    requires
        sep@.len() == 1,
    ensures
        r@ == join_with(parts@.map_values(|p: String| p@), sep@[0]),
{
    let ghost viewed = parts@.map_values(|p: String| p@);
    let mut r = String::new();
    let mut i: usize = 0;
    while i < parts.len()
        invariant
            0 <= i <= parts.len(),
            viewed == parts@.map_values(|p: String| p@),
            r@ == join_with(viewed.subrange(0, i as int), sep@[0]),
            sep@.len() == 1,
        decreases parts.len() - i,
    {
        if i > 0 {
            r.append(sep);
            proof {
                assert(sep@ =~= seq![sep@[0]]);
            }
        }
        r.append(parts[i].as_str());
        proof {
            let prev = viewed.subrange(0, i as int);
            lemma_join_with_push(prev, viewed[i as int], sep@[0]);
            assert(prev.push(viewed[i as int]) =~= viewed.subrange(0, i as int + 1));
        }
        i = i + 1;
    }
    proof {
        assert(viewed.subrange(0, parts@.len() as int) =~= viewed);
    }
    r
}

} // verus!
