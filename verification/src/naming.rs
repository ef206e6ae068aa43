//! Names for files that are stored without a name of their own.
//!
//! A generated name is the caller's prefix, a number below [`SUFFIX_RANGE`]
//! written with exactly three decimal digits, and the extension `.txt`.  The
//! namespace is deliberately narrow: a thousand names per prefix.  Nothing
//! here avoids a name that is already taken; whoever creates the file finds
//! that out and asks for another name.

use rand::Rng;
use vstd::prelude::*;

verus! {

/// How many suffixes there are: the numbers from 0 up to, not including, this.
pub const SUFFIX_RANGE: u32 = 1000;

/// The character that writes the decimal digit `d`.
pub open spec fn digit_char(d: int) -> char {
    seq!['0', '1', '2', '3', '4', '5', '6', '7', '8', '9'][d]
}

/// The three decimal digits of `n`, most significant first, zero-padded.
pub open spec fn three_digits(n: nat) -> Seq<char> {
    seq![digit_char(n as int / 100), digit_char(n as int / 10 % 10), digit_char(n as int % 10)]
}

/// The extension of every generated name.
pub open spec fn extension() -> Seq<char> {
    seq!['.', 't', 'x', 't']
}

/// The name generated from `prefix` and the number `n`.
pub open spec fn candidate_name(prefix: Seq<char>, n: nat) -> Seq<char> {
    prefix + three_digits(n) + extension()
}

/// Whether `c` is one of the ten decimal digits.
pub open spec fn is_digit(c: char) -> bool {
    '0' <= c <= '9'
}

/// Whether `name` has the shape of a name generated from `prefix`: the
/// prefix, then exactly three decimal digits, then `.txt`.
pub open spec fn is_generated_name(prefix: Seq<char>, name: Seq<char>) -> bool {
    &&& name.len() == prefix.len() + 7
    &&& name.subrange(0, prefix.len() as int) == prefix
    &&& is_digit(name[prefix.len() as int])
    &&& is_digit(name[prefix.len() as int + 1])
    &&& is_digit(name[prefix.len() as int + 2])
    &&& name.subrange(prefix.len() as int + 3, name.len() as int) == extension()
}

/// Every name generated from a prefix and a number below the range has the
/// shape of a generated name.
pub proof fn lemma_candidate_is_generated(prefix: Seq<char>, n: nat)
    requires
        n < SUFFIX_RANGE,
    ensures
        is_generated_name(prefix, candidate_name(prefix, n)),
{
    let name = candidate_name(prefix, n);
    assert(name.subrange(0, prefix.len() as int) =~= prefix);
    assert(name.subrange(prefix.len() as int + 3, name.len() as int) =~= extension());
}

/// A name has the shape of a generated name exactly if it is generated from
/// the prefix and some number below the range.
pub proof fn law_generated_shape(prefix: Seq<char>, name: Seq<char>)
    ensures
        is_generated_name(prefix, name) <==> exists|n: nat|
            n < SUFFIX_RANGE && name == candidate_name(prefix, n),
{
    if is_generated_name(prefix, name) {
        let p = prefix.len() as int;
        let h = name[p] as int - '0' as int;
        let t = name[p + 1] as int - '0' as int;
        let u = name[p + 2] as int - '0' as int;
        let n = (100 * h + 10 * t + u) as nat;
        assert(n as int / 100 == h && n as int / 10 % 10 == t && n as int % 10 == u);
        assert forall|i: int| 0 <= i < name.len() implies name[i] == candidate_name(prefix, n)[i] by {
            if i < p {
                assert(name.subrange(0, p)[i] == name[i]);
            } else if i >= p + 3 {
                assert(name.subrange(p + 3, name.len() as int)[i - p - 3] == name[i]);
            }
        }
        assert(name =~= candidate_name(prefix, n));
        assert(n < SUFFIX_RANGE && name == candidate_name(prefix, n));
    }
    if exists|n: nat| n < SUFFIX_RANGE && name == candidate_name(prefix, n) {
        let n = choose|n: nat| n < SUFFIX_RANGE && name == candidate_name(prefix, n);
        lemma_candidate_is_generated(prefix, n);
    }
}

/// The one-character string that writes the decimal digit `d`.
fn digit_str(d: u32) -> (s: &'static str)
    requires
        d < 10,
    ensures
        s@ == seq![digit_char(d as int)],
{
    proof {
        reveal_strlit("0");
        reveal_strlit("1");
        reveal_strlit("2");
        reveal_strlit("3");
        reveal_strlit("4");
        reveal_strlit("5");
        reveal_strlit("6");
        reveal_strlit("7");
        reveal_strlit("8");
        reveal_strlit("9");
    }
    let s = match d {
        0 => "0",
        1 => "1",
        2 => "2",
        3 => "3",
        4 => "4",
        5 => "5",
        6 => "6",
        7 => "7",
        8 => "8",
        _ => "9",
    };
    assert(s@ =~= seq![digit_char(d as int)]);
    s
}

/// Writes the name generated from `prefix` and the number `suffix`.
pub fn candidate(prefix: &str, suffix: u32) -> (name: String)
    requires
        suffix < SUFFIX_RANGE,
    ensures
        name@ == candidate_name(prefix@, suffix as nat),
{
    let mut name = prefix.to_owned();
    name.append(digit_str(suffix / 100));
    name.append(digit_str(suffix / 10 % 10));
    name.append(digit_str(suffix % 10));
    name.append(".txt");
    proof {
        reveal_strlit(".txt");
        assert(".txt"@ =~= extension());
        assert(name@ =~= candidate_name(prefix@, suffix as nat));
    }
    name
}

/// Draws a number from the thread-local generator of the `rand` crate with
/// `Rng::gen_range(0, bound)`.  That call panics unless `0 < bound`, and
/// returns a number that is at least 0 and less than `bound`; nothing else is
/// claimed of it, and two calls may differ.
#[verifier::external_body]
fn draw_below(bound: u32) -> (n: u32)
    requires
        0 < bound,
    ensures
        n < bound,
{
    rand::thread_rng().gen_range(0, bound)
}

/// Draws a suffix uniformly from the range and writes the name generated from
/// `prefix` and that suffix.  Every call draws anew.
pub fn generate(prefix: &str) -> (name: String)
    ensures
        exists|n: nat| n < SUFFIX_RANGE && name@ == candidate_name(prefix@, n),
        is_generated_name(prefix@, name@),
{
    let suffix = draw_below(SUFFIX_RANGE);
    let name = candidate(prefix, suffix);
    proof {
        lemma_candidate_is_generated(prefix@, suffix as nat);
    }
    name
}

} // verus!
