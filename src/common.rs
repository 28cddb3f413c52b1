//! Constants and small helpers shared by the actors and the views.

use vstd::prelude::*;
use vstd::utf8::encode_utf8;

verus! {

/// Capacity of every bounded channel between the actors.
pub const CHANNEL_BUFFER: usize = 1000;

/// Frames per second of the terminal front end.
pub const FPS: u64 = 20;

/// Milliseconds between two renders of the terminal front end.
pub const MS_PER_FRAME: u64 = 100;

/// How many line requests the filter keeps outstanding while spooling.
pub const FILTER_SPOOLING_BATCH_SIZE: usize = 10;

/// A line as a view holds it: it has a length, used to bound horizontal
/// panning, and a form for display.
pub trait LineContent: Sized {
    spec fn spec_len(&self) -> nat;

    fn len(&self) -> (r: usize)
        ensures
            r as nat == self.spec_len(),
    ;

    fn render(&self) -> String;
}

/// `s` with every tab turned into a space.
pub open spec fn tabs_to_spaces(s: Seq<char>) -> Seq<char> {
    Seq::new(s.len(), |i: int| if s[i] == '\t' { ' ' } else { s[i] })
}

/// `s` with every `from` replaced by `to`.
pub open spec fn replaced_char(s: Seq<char>, from: char, to: char) -> Seq<char> {
    Seq::new(s.len(), |i: int| if s[i] == from { to } else { s[i] })
}

/// Relies on `str::replace` with a `char` pattern: every occurrence of
/// `from` is replaced by the one-character string `to`.
#[verifier::external_body]
fn replace_char(s: &str, from: char, to: char) -> (r: String)
    ensures
        r@ == replaced_char(s@, from, to),
{
    s.replace(from, &to.to_string())
}

/// The form of a line for display: tabs become spaces.
pub fn replace_for_view(line: &String) -> (r: String)
    ensures
        r@ == tabs_to_spaces(line@),
{
    let r = replace_char(line.as_str(), '\t', ' ');
    assert(r@ =~= tabs_to_spaces(line@));
    r
}

impl LineContent for String {
    /// Length in bytes of the UTF-8 text.
    open spec fn spec_len(&self) -> nat {
        (encode_utf8(self@).len() as usize) as nat
    }

    fn len(&self) -> (r: usize) {
        self.as_str().len()
    }

    fn render(&self) -> String {
        replace_for_view(self)
    }
}

/// `a - b`, or zero where `b` is the larger.
pub open spec fn spec_clamped_sub(a: int, b: int) -> int {
    if b > a {
        0
    } else {
        a - b
    }
}

/// `a + b` pulled into `[min, max]`; `max` is checked first.
pub open spec fn spec_clamped_add(a: int, b: int, min: int, max: int) -> int {
    if a + b > max {
        max
    } else if a + b < min {
        min
    } else {
        a + b
    }
}

/// Number of decimal digits needed to write `n`.
pub open spec fn spec_count_digits(n: nat) -> nat
    decreases n,
{
    if n < 10 {
        1
    } else {
        1 + spec_count_digits(n / 10)
    }
}

proof fn lemma_count_digits_bound(n: nat)
    ensures
        1 <= spec_count_digits(n) <= n + 1,
        n >= 1 ==> spec_count_digits(n) <= n,
    decreases n,
{
    if n >= 10 {
        lemma_count_digits_bound(n / 10);
    }
}

/// Subtraction that stops at zero.
pub fn clamped_sub(a: usize, b: usize) -> (r: usize)
    ensures
        r == spec_clamped_sub(a as int, b as int),
{
    if b > a {
        0
    } else {
        a - b
    }
}

/// Adds a signed delta to `a` and clamps the sum into `[min, max]`.
pub fn clamped_add(a: usize, b: isize, min: usize, max: usize) -> (r: usize)
    ensures
        r == spec_clamped_add(a as int, b as int, min as int, max as int),
{
    let v: i128 = a as i128 + b as i128;
    if v > max as i128 {
        max
    } else if v < min as i128 {
        min
    } else {
        v as usize
    }
}

/// Width in decimal digits of `n` (zero takes one digit).
pub fn count_digits(n: usize) -> (r: usize)
    ensures
        r == spec_count_digits(n as nat),
{
    let mut m: usize = n;
    let mut digits: usize = 1;
    proof {
        lemma_count_digits_bound(n as nat);
    }
    while m >= 10
        invariant
            digits + spec_count_digits(m as nat) == spec_count_digits(n as nat) + 1,
            spec_count_digits(n as nat) <= n + 1,
            m >= 10 ==> spec_count_digits(n as nat) <= n,
        decreases m,
    {
        proof {
            lemma_count_digits_bound((m / 10) as nat);
            assert(spec_count_digits(m as nat) >= 2);
        }
        m = m / 10;
        digits = digits + 1;
    }
    digits
}

} // verus!
