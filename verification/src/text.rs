//! The wording of the log entries.

use vstd::prelude::*;
use vstd::string::*;

verus! {

/// The character that writes the digit `d`.
pub open spec fn digit_char(d: int) -> char {
    if d == 0 {
        '0'
    } else if d == 1 {
        '1'
    } else if d == 2 {
        '2'
    } else if d == 3 {
        '3'
    } else if d == 4 {
        '4'
    } else if d == 5 {
        '5'
    } else if d == 6 {
        '6'
    } else if d == 7 {
        '7'
    } else if d == 8 {
        '8'
    } else {
        '9'
    }
}

/// The decimal numeral of `n`, most significant digit first, without
/// leading zeros.
pub open spec fn decimal(n: nat) -> Seq<char>
    decreases n,
{
    if n < 10 {
        seq![digit_char(n as int)]
    } else {
        decimal(n / 10).push(digit_char((n % 10) as int))
    }
}

/// What the log says of a hit.
pub open spec fn hit_text(attacker: Seq<char>, target: Seq<char>, damage: nat) -> Seq<char> {
    attacker + " sues "@ + target + " for $"@ + decimal(damage) + " million in damages."@
}

/// What the log says of an attack that does no harm.
pub open spec fn miss_text(attacker: Seq<char>, target: Seq<char>) -> Seq<char> {
    attacker + " sues "@ + target + " but it gets dismissed"@
}

/// The name of what is left of the monster called `name`.
pub open spec fn remains_name(name: Seq<char>) -> Seq<char> {
    "remains of "@ + name
}

/// The one-character string of a digit.
fn digit_str(d: u32) -> (s: &'static str)
    requires
        d < 10,
    ensures
        s@ == seq![digit_char(d as int)],
{
    proof {
        reveal_strlit("0");
        reveal_strlit("1");
        reveal_strlit("2");
        reveal_strlit("3");
        reveal_strlit("4");
        reveal_strlit("5");
        reveal_strlit("6");
        reveal_strlit("7");
        reveal_strlit("8");
        reveal_strlit("9");
    }
    let s: &'static str = if d == 0 {
        "0"
    } else if d == 1 {
        "1"
    } else if d == 2 {
        "2"
    } else if d == 3 {
        "3"
    } else if d == 4 {
        "4"
    } else if d == 5 {
        "5"
    } else if d == 6 {
        "6"
    } else if d == 7 {
        "7"
    } else if d == 8 {
        "8"
    } else {
        "9"
    };
    assert(s@ =~= seq![digit_char(d as int)]);
    s
}

/// Appends the decimal numeral of `n` to `out`.
pub fn push_decimal(out: &mut String, n: u32)
    ensures
        final(out)@ == old(out)@ + decimal(n as nat),
    decreases n,
{
    if n >= 10 {
        push_decimal(out, n / 10);
    }
    out.append(digit_str(n % 10));
    assert(out@ =~= old(out)@ + decimal(n as nat));
}

/// The log entry for a hit that does `damage` points of damage.
pub fn hit_message(attacker: &str, target: &str, damage: u32) -> (text: String)
    ensures
        text@ == hit_text(attacker@, target@, damage as nat),
{
    let mut text = String::from_str(attacker);
    text.append(" sues ");
    text.append(target);
    text.append(" for $");
    push_decimal(&mut text, damage);
    text.append(" million in damages.");
    text
}

/// The log entry for an attack that does no harm.
pub fn miss_message(attacker: &str, target: &str) -> (text: String)
    ensures
        text@ == miss_text(attacker@, target@),
{
    let mut text = String::from_str(attacker);
    text.append(" sues ");
    text.append(target);
    text.append(" but it gets dismissed");
    text
}

/// The name that a dead monster called `name` goes by.
pub fn remains_of(name: &str) -> (text: String)
    ensures
        text@ == remains_name(name@),
{
    let mut text = String::from_str("remains of ");
    text.append(name);
    text
}

} // verus!
