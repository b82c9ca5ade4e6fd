//! Text helpers: unquoting identifiers and writing numbers in decimal.
use vstd::prelude::*;

verus! {

/// The characters `enquote::unquote` accepts as quotes.
pub open spec fn is_quote_char(c: char) -> bool {
    c == '"' || c == '\'' || c == '`'
}

/// What `enquote::unquote` gives for a string: the text between the quotes
/// with its escapes processed, or nothing when the string is not a
/// well-formed quoted string.
pub uninterp spec fn spec_unquote(s: Seq<char>) -> Option<Seq<char>>;

/// Removes the surrounding quotes of `s` and processes its escapes
/// (`enquote::unquote`), or gives `None` when `s` is not a quoted string.
///
/// The contract names the result `spec_unquote` and states what the crate's
/// source shows of it: fewer than two characters, a first character that is
/// not `"`, `'` or a backtick, or a last character that differs from the
/// first give `None`.
#[verifier::external_body]
pub(crate) fn unquote(s: &String) -> (r: Option<String>)
    ensures
        r.is_some() == spec_unquote(s@).is_some(),
        r.is_some() ==> r.unwrap()@ == spec_unquote(s@).unwrap(),
        (s@.len() < 2 || !is_quote_char(s@[0]) || s@.last() != s@[0]) ==> r.is_none(),
{
    enquote::unquote(s).ok()
}

/// The decimal digit `d` (0 to 9).
pub open spec fn digit(d: nat) -> char {
    (48 + d) as char
}

/// `n` written in decimal, without leading zeros.
pub open spec fn decimal(n: nat) -> Seq<char>
    decreases n,
{
    if n < 10 {
        seq![digit(n)]
    } else {
        decimal(n / 10).push(digit(n % 10))
    }
}

/// The decimal digit `d`, as text.
fn digit_text(d: u64) -> (r: &'static str)
    requires
        d < 10,
    ensures
        r@ == seq![digit(d as nat)],
{
    match d {
        0 => {
            proof {
                reveal_strlit("0");
            }
            "0"
        },
        1 => {
            proof {
                reveal_strlit("1");
            }
            "1"
        },
        2 => {
            proof {
                reveal_strlit("2");
            }
            "2"
        },
        3 => {
            proof {
                reveal_strlit("3");
            }
            "3"
        },
        4 => {
            proof {
                reveal_strlit("4");
            }
            "4"
        },
        5 => {
            proof {
                reveal_strlit("5");
            }
            "5"
        },
        6 => {
            proof {
                reveal_strlit("6");
            }
            "6"
        },
        7 => {
            proof {
                reveal_strlit("7");
            }
            "7"
        },
        8 => {
            proof {
                reveal_strlit("8");
            }
            "8"
        },
        _ => {
            proof {
                reveal_strlit("9");
            }
            "9"
        },
    }
}

/// `n` written in decimal.
pub(crate) fn u64_to_decimal(n: u64) -> (r: String)
    ensures
        r@ == decimal(n as nat),
    decreases n,
{
    if n < 10 {
        <String as vstd::string::StringExecFns>::from_str(digit_text(n))
    } else {
        let mut s = u64_to_decimal(n / 10);
        s.append(digit_text(n % 10));
        s
    }
}

/// `n` written in decimal.
pub(crate) fn usize_to_decimal(n: usize) -> (r: String)
    ensures
        r@ == decimal(n as nat),
{
    u64_to_decimal(n as u64)
}

} // verus!
