use vstd::prelude::*;
use vstd::string::*;

verus! {

/// The decimal digit `d` as a character.
pub open spec fn digit_char(d: int) -> char {
    if d == 0 {
        '0'
    } else if d == 1 {
        '1'
    } else if d == 2 {
        '2'
    } else if d == 3 {
        '3'
    } else if d == 4 {
        '4'
    } else if d == 5 {
        '5'
    } else if d == 6 {
        '6'
    } else if d == 7 {
        '7'
    } else if d == 8 {
        '8'
    } else {
        '9'
    }
}

/// `n` written in decimal, without leading zeros.
pub open spec fn decimal(n: nat) -> Seq<char>
    decreases n,
{
    if n < 10 {
        seq![digit_char(n as int)]
    } else {
        decimal(n / 10).push(digit_char((n % 10) as int))
    }
}

pub open spec fn abs_budget(b: i32) -> int {
    if b < 0 {
        -(b as int)
    } else {
        b as int
    }
}

/// The working directory as shown in a tab label: in full without a budget
/// or when it fits in the budget; else its trailing characters for a
/// positive budget and its leading ones for a negative budget.
pub open spec fn truncated(cwd: Seq<char>, budget: Option<i32>) -> Seq<char> {
    match budget {
        None => cwd,
        Some(b) => if cwd.len() <= abs_budget(b) {
            cwd
        } else if b > 0 {
            cwd.subrange(cwd.len() - b, cwd.len() as int)
        } else {
            cwd.subrange(0, abs_budget(b))
        },
    }
}

/// The text of a tab label, `[<slot>] - <counter>@<cwd>`, with `?` for an
/// unknown working directory.
pub open spec fn label_text(
    slot: nat,
    tab_counter: nat,
    cwd: Option<Seq<char>>,
    budget: Option<i32>,
) -> Seq<char> {
    seq!['['] + decimal(slot) + seq![']', ' ', '-', ' '] + decimal(tab_counter) + seq!['@']
        + match cwd {
        None => seq!['?'],
        Some(c) => truncated(c, budget),
    }
}

fn digit_str(d: u64) -> (r: &'static str)
    requires
        d < 10,
    ensures
        r@ == seq![digit_char(d as int)],
{
    if d == 0 {
        proof { reveal_strlit("0"); }
        "0"
    } else if d == 1 {
        proof { reveal_strlit("1"); }
        "1"
    } else if d == 2 {
        proof { reveal_strlit("2"); }
        "2"
    } else if d == 3 {
        proof { reveal_strlit("3"); }
        "3"
    } else if d == 4 {
        proof { reveal_strlit("4"); }
        "4"
    } else if d == 5 {
        proof { reveal_strlit("5"); }
        "5"
    } else if d == 6 {
        proof { reveal_strlit("6"); }
        "6"
    } else if d == 7 {
        proof { reveal_strlit("7"); }
        "7"
    } else if d == 8 {
        proof { reveal_strlit("8"); }
        "8"
    } else {
        proof { reveal_strlit("9"); }
        "9"
    }
}

/// Appends `n` in decimal to `s`.
pub fn push_decimal(s: &mut String, n: u64)
    ensures
        final(s)@ == old(s)@ + decimal(n as nat),
    decreases n,
{
    if n >= 10 {
        push_decimal(s, n / 10);
    }
    s.append(digit_str(n % 10));
    assert(s@ =~= old(s)@ + decimal(n as nat));
}

/// The working directory cut to the label budget.
pub fn truncate_cwd(cwd: &str, budget: Option<i32>) -> (r: String)
    ensures
        r@ == truncated(cwd@, budget),
{
    match budget {
        None => String::from_str(cwd),
        Some(b) => {
            let len: usize = cwd.unicode_len();
            let a: u64 = if b < 0 {
                (-(b as i64)) as u64
            } else {
                b as u64
            };
            if (len as u64) <= a {
                String::from_str(cwd)
            } else if b > 0 {
                let keep: usize = a as usize;
                String::from_str(cwd.substring_char(len - keep, len))
            } else {
                let keep: usize = a as usize;
                String::from_str(cwd.substring_char(0, keep))
            }
        },
    }
}

/// The text of the label of the tab at 1-based `slot`.
pub fn tab_label(slot: u64, tab_counter: u64, cwd: Option<&str>, budget: Option<i32>) -> (r:
    String)
    ensures
        r@ == label_text(slot as nat, tab_counter as nat, match cwd {
            None => None,
            Some(c) => Some(c@),
        }, budget),
{
    proof {
        reveal_strlit("[");
        reveal_strlit("] - ");
        reveal_strlit("@");
        reveal_strlit("?");
    }
    let mut s = String::new();
    s.append("[");
    push_decimal(&mut s, slot);
    s.append("] - ");
    push_decimal(&mut s, tab_counter);
    s.append("@");
    match cwd {
        None => s.append("?"),
        Some(c) => {
            let t = truncate_cwd(c, budget);
            s.append(t.as_str());
        },
    }
    s
}

} // verus!
