//! Names as character sequences: the checks and the numbering that node and
//! scope names go through before they reach the graph.

use vstd::prelude::*;

verus! {

/// The character that separates the levels of a qualified name.
pub open spec fn separator() -> char {
    '/'
}

/// The decimal digit for `d`, where `d` is below ten.
pub open spec fn digit_char(d: nat) -> char {
    if d == 0 {
        '0'
    } else if d == 1 {
        '1'
    } else if d == 2 {
        '2'
    } else if d == 3 {
        '3'
    } else if d == 4 {
        '4'
    } else if d == 5 {
        '5'
    } else if d == 6 {
        '6'
    } else if d == 7 {
        '7'
    } else if d == 8 {
        '8'
    } else {
        '9'
    }
}

/// `n` written in base ten, most significant digit first, without leading
/// zeros.
pub open spec fn decimal(n: nat) -> Seq<char>
    decreases n,
{
    if n < 10 {
        seq![digit_char(n)]
    } else {
        decimal(n / 10).push(digit_char(n % 10))
    }
}

/// The `k`-th candidate for a name that starts from `base`: `base` itself,
/// then `base_1`, `base_2` and so on.
pub open spec fn numbered(base: Seq<char>, k: nat) -> Seq<char> {
    if k == 0 {
        base
    } else {
        base.push('_') + decimal(k)
    }
}

/// Whether `text` holds the character that a C string cannot carry.
pub open spec fn holds_nul(text: Seq<char>) -> bool {
    text.contains('\0')
}

/// Whether one of `names` reads `name`.
pub open spec fn listed(names: Seq<String>, name: Seq<char>) -> bool {
    exists|i: int| 0 <= i < names.len() && (#[trigger] names[i])@ == name
}

/// The views of `names`, in order.
pub open spec fn views(names: Seq<String>) -> Seq<Seq<char>> {
    Seq::new(names.len(), |i: int| names[i]@)
}

/// The decimal form of a number has at least one digit.
pub proof fn lemma_decimal_nonempty(n: nat)
    ensures
        decimal(n).len() >= 1,
    decreases n,
{
    if n >= 10 {
        lemma_decimal_nonempty(n / 10);
    }
}

/// Two numbers with the same decimal form are the same number.
pub proof fn lemma_decimal_injective(a: nat, b: nat)
    requires
        decimal(a) == decimal(b),
    ensures
        a == b,
    decreases a,
{
    lemma_decimal_nonempty(a / 10);
    lemma_decimal_nonempty(b / 10);
    if a < 10 {
        if b >= 10 {
            assert(decimal(b).len() >= 2);
        } else {
            assert(decimal(a)[0] == digit_char(a));
        }
    } else {
        if b < 10 {
            assert(decimal(a).len() >= 2);
        } else {
            let da = decimal(a / 10);
            let db = decimal(b / 10);
            assert(decimal(a).last() == digit_char(a % 10));
            assert(decimal(a).drop_last() == da);
            assert(decimal(b).drop_last() == db);
            lemma_decimal_injective(a / 10, b / 10);
        }
    }
}

/// Candidates with different numbers differ.
pub proof fn lemma_numbered_injective(base: Seq<char>, i: nat, j: nat)
    requires
        numbered(base, i) == numbered(base, j),
    ensures
        i == j,
{
    lemma_decimal_nonempty(i);
    lemma_decimal_nonempty(j);
    if i == 0 || j == 0 {
        if i != j {
            assert(numbered(base, i).len() != numbered(base, j).len());
        }
    } else {
        let p = base.push('_');
        let x = p + decimal(i);
        let y = p + decimal(j);
        assert(x.subrange(p.len() as int, x.len() as int) == decimal(i));
        assert(y.subrange(p.len() as int, y.len() as int) == decimal(j));
        lemma_decimal_injective(i, j);
    }
}

/// The one-character string of the digit `d`.
fn digit_str(d: usize) -> (s: &'static str)
    requires
        d < 10,
    ensures
        s@ == seq![digit_char(d as nat)],
{
    proof {
        reveal_strlit("0");
        reveal_strlit("1");
        reveal_strlit("2");
        reveal_strlit("3");
        reveal_strlit("4");
        reveal_strlit("5");
        reveal_strlit("6");
        reveal_strlit("7");
        reveal_strlit("8");
        reveal_strlit("9");
    }
    let s = if d == 0 {
        "0"
    } else if d == 1 {
        "1"
    } else if d == 2 {
        "2"
    } else if d == 3 {
        "3"
    } else if d == 4 {
        "4"
    } else if d == 5 {
        "5"
    } else if d == 6 {
        "6"
    } else if d == 7 {
        "7"
    } else if d == 8 {
        "8"
    } else {
        "9"
    };
    s
}

/// Writes `n` in base ten.
pub fn decimal_string(n: usize) -> (s: String)
    ensures
        s@ == decimal(n as nat),
    decreases n,
{
    if n < 10 {
        String::from_str(digit_str(n))
    } else {
        let mut s = decimal_string(n / 10);
        s.append(digit_str(n % 10));
        s
    }
}

/// Builds the `k`-th candidate for a name that starts from `base`.
pub fn numbered_name(base: &String, k: usize) -> (name: String)
    ensures
        name@ == numbered(base@, k as nat),
{
    let mut name = base.clone();
    if k != 0 {
        proof {
            reveal_strlit("_");
        }
        name.append("_");
        let digits = decimal_string(k);
        name.append(digits.as_str());
    }
    name
}

/// Tells whether `text` holds a NUL character.
pub fn has_nul(text: &str) -> (found: bool)
    ensures
        found == holds_nul(text@),
{
    for c in it: text.chars()
        invariant
            it.seq() == text@,
            forall|j: int| 0 <= j < it.index() ==> text@[j] != '\0',
    {
        if c == '\0' {
            return true;
        }
    }
    false
}

/// Tells whether one of `names` reads `name`.
pub fn is_listed(names: &Vec<String>, name: &String) -> (found: bool)
    ensures
        found == listed(names@, name@),
{
    let mut i: usize = 0;
    while i < names.len()
        invariant
            i <= names.len(),
            forall|j: int| 0 <= j < i ==> (#[trigger] names@[j])@ != name@,
        decreases names.len() - i,
    {
        if names[i] == *name {
            return true;
        }
        i += 1;
    }
    false
}

/// `left` followed by `right`.
pub fn joined(left: &String, right: &str) -> (text: String)
    ensures
        text@ == left@ + right@,
{
    let mut text = left.clone();
    text.append(right);
    text
}

} // verus!
