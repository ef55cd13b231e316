//! Labels for the places and transitions of the net.
//!
//! Every label is a function of what it names: the kind of element, the function it
//! belongs to and an index. Asking twice for the label of the same element gives the
//! same string. The submodules hold the labels by topic; this module holds what
//! they share: the decimal form of an index and the cleaning of function names.

pub mod basic_block;
pub mod function;
pub mod program;
pub mod sync;
pub mod thread;

use vstd::prelude::*;
use vstd::string::*;

verus! {

/// The character that stands for a digit.
pub open spec fn digit_char(digit: nat) -> char {
    if digit == 0 {
        '0'
    } else if digit == 1 {
        '1'
    } else if digit == 2 {
        '2'
    } else if digit == 3 {
        '3'
    } else if digit == 4 {
        '4'
    } else if digit == 5 {
        '5'
    } else if digit == 6 {
        '6'
    } else if digit == 7 {
        '7'
    } else if digit == 8 {
        '8'
    } else {
        '9'
    }
}

/// The decimal form of a number, without leading zeros.
pub open spec fn decimal_spec(n: nat) -> Seq<char>
    decreases n,
{
    if n < 10 {
        seq![digit_char(n)]
    } else {
        decimal_spec(n / 10).push(digit_char(n % 10))
    }
}

/// Whether a character may stand in a label as it is: an ASCII letter, an ASCII
/// digit or an underscore.
pub open spec fn is_label_char(c: char) -> bool {
    ('a' <= c && c <= 'z') || ('A' <= c && c <= 'Z') || ('0' <= c && c <= '9') || c == '_'
}

/// A function name made fit for a label: every `::` becomes one underscore, and
/// every other character that may not stand in a label becomes an underscore.
pub open spec fn sanitize_spec(name: Seq<char>) -> Seq<char>
    decreases name.len(),
{
    if name.len() == 0 {
        Seq::empty()
    } else if name.len() >= 2 && name[0] == ':' && name[1] == ':' {
        seq!['_'] + sanitize_spec(name.subrange(2, name.len() as int))
    } else if is_label_char(name[0]) {
        seq![name[0]] + sanitize_spec(name.subrange(1, name.len() as int))
    } else {
        seq!['_'] + sanitize_spec(name.subrange(1, name.len() as int))
    }
}

fn digit_str(digit: usize) -> (s: &'static str)
    requires
        digit < 10,
    ensures
        s@ == seq![digit_char(digit as nat)],
{
    proof {
        reveal_strlit("0");
        reveal_strlit("1");
        reveal_strlit("2");
        reveal_strlit("3");
        reveal_strlit("4");
        reveal_strlit("5");
        reveal_strlit("6");
        reveal_strlit("7");
        reveal_strlit("8");
        reveal_strlit("9");
    }
    let s = if digit == 0 {
        "0"
    } else if digit == 1 {
        "1"
    } else if digit == 2 {
        "2"
    } else if digit == 3 {
        "3"
    } else if digit == 4 {
        "4"
    } else if digit == 5 {
        "5"
    } else if digit == 6 {
        "6"
    } else if digit == 7 {
        "7"
    } else if digit == 8 {
        "8"
    } else {
        "9"
    };
    assert(s@ =~= seq![digit_char(digit as nat)]);
    s
}

/// Writes a number in decimal.
pub fn decimal(n: usize) -> (s: String)
    ensures
        s@ == decimal_spec(n as nat),
    decreases n,
{
    if n < 10 {
        String::from_str(digit_str(n))
    } else {
        let mut s = decimal(n / 10);
        s.append(digit_str(n % 10));
        assert(s@ =~= decimal_spec(n as nat));
        s
    }
}

/// Makes a function name fit for a label.
pub fn sanitize(function_name: &str) -> (s: String)
    ensures
        s@ == sanitize_spec(function_name@),
{
    let len = function_name.unicode_len();
    let mut s = String::new();
    let mut i: usize = 0;
    proof {
        reveal_strlit("_");
        assert(function_name@.subrange(0, len as int) =~= function_name@);
    }
    while i < len
        invariant
            i <= len,
            len == function_name@.len(),
            "_"@ == seq!['_'],
            s@ + sanitize_spec(function_name@.subrange(i as int, len as int)) == sanitize_spec(
                function_name@,
            ),
        decreases len - i,
    {
        let ghost rest = function_name@.subrange(i as int, len as int);
        let c = function_name.get_char(i);
        assert(rest[0] == c);
        if c == ':' && i + 1 < len && function_name.get_char(i + 1) == ':' {
            assert(rest[1] == ':');
            assert(rest.subrange(2, rest.len() as int) =~= function_name@.subrange(
                i + 2,
                len as int,
            ));
            let ghost before = s@;
            s.append("_");
            assert(s@ + sanitize_spec(function_name@.subrange(i + 2, len as int)) =~= before
                + sanitize_spec(rest));
            i += 2;
        } else {
            assert(rest.subrange(1, rest.len() as int) =~= function_name@.subrange(
                i + 1,
                len as int,
            ));
            assert(!(rest.len() >= 2 && rest[0] == ':' && rest[1] == ':'));
            let ghost before = s@;
            if is_label_character(c) {
                let kept = function_name.substring_char(i, i + 1);
                assert(kept@ =~= seq![c]);
                s.append(kept);
            } else {
                s.append("_");
            }
            assert(s@ + sanitize_spec(function_name@.subrange(i + 1, len as int)) =~= before
                + sanitize_spec(rest));
            i += 1;
        }
    }
    assert(function_name@.subrange(len as int, len as int) =~= Seq::empty());
    assert(s@ + Seq::<char>::empty() =~= s@);
    proof {
        assert(sanitize_spec(Seq::<char>::empty()) =~= Seq::<char>::empty());
    }
    s
}

/// Whether a character may stand in a label as it is.
pub fn is_label_character(c: char) -> (kept: bool)
    ensures
        kept == is_label_char(c),
{
    ('a' <= c && c <= 'z') || ('A' <= c && c <= 'Z') || ('0' <= c && c <= '9') || c == '_'
}

/// The index that follows an index. The largest index is followed by itself: the
/// labels of further elements then collide with that of the last, and the net
/// refuses them.
pub open spec fn next_index(index: usize) -> usize {
    if index < usize::MAX {
        (index + 1) as usize
    } else {
        index
    }
}

/// Counts one up, unless the largest number is reached.
pub fn count_up(index: usize) -> (next: usize)
    ensures
        next == next_index(index),
{
    if index < usize::MAX {
        index + 1
    } else {
        index
    }
}

/// The label made of a cleaned function name and an ending.
pub open spec fn suffixed_spec(function_name: Seq<char>, ending: Seq<char>) -> Seq<char> {
    sanitize_spec(function_name) + ending
}

/// The label made of a beginning and an index.
pub open spec fn indexed_spec(beginning: Seq<char>, index: nat) -> Seq<char> {
    beginning + decimal_spec(index)
}

/// Appends an ending to the cleaned form of a function name.
pub fn suffixed(function_name: &str, ending: &str) -> (label: String)
    ensures
        label@ == suffixed_spec(function_name@, ending@),
{
    let mut label = sanitize(function_name);
    label.append(ending);
    label
}

/// Appends the decimal form of an index to a beginning.
pub fn indexed(beginning: &str, index: usize) -> (label: String)
    ensures
        label@ == indexed_spec(beginning@, index as nat),
{
    let mut label = String::from_str(beginning);
    label.append(decimal(index).as_str());
    label
}

/// The decimal form of a number holds at least one digit, and at least two if the
/// number is ten or more.
pub proof fn lemma_decimal_length(n: nat)
    ensures
        decimal_spec(n).len() >= 1,
        n >= 10 ==> decimal_spec(n).len() >= 2,
    decreases n,
{
    if n >= 10 {
        lemma_decimal_length(n / 10);
    }
}

/// Two digits with the same character are the same digit.
pub proof fn lemma_digit_char_injective(a: nat, b: nat)
    requires
        a < 10,
        b < 10,
        digit_char(a) == digit_char(b),
    ensures
        a == b,
{
}

/// Two numbers with the same decimal form are the same number: labels that differ
/// only in their index never collide.
pub proof fn lemma_decimal_injective(n: nat, m: nat)
    requires
        decimal_spec(n) == decimal_spec(m),
    ensures
        n == m,
    decreases n,
{
    lemma_decimal_length(n);
    lemma_decimal_length(m);
    if n < 10 && m < 10 {
        assert(decimal_spec(n)[0] == digit_char(n));
        assert(decimal_spec(m)[0] == digit_char(m));
        lemma_digit_char_injective(n, m);
    } else if n >= 10 && m >= 10 {
        assert(decimal_spec(n).last() == digit_char(n % 10));
        assert(decimal_spec(m).last() == digit_char(m % 10));
        assert(decimal_spec(n).drop_last() =~= decimal_spec(n / 10));
        assert(decimal_spec(m).drop_last() =~= decimal_spec(m / 10));
        lemma_decimal_injective(n / 10, m / 10);
        lemma_digit_char_injective(n % 10, m % 10);
        assert(n == 10 * (n / 10) + n % 10);
        assert(m == 10 * (m / 10) + m % 10);
    } else {
        assert(decimal_spec(n).len() != decimal_spec(m).len());
    }
}

/// Two labels made of the same beginning and an index are the same only if the
/// indices are.
pub proof fn lemma_indexed_injective(beginning: Seq<char>, i: nat, j: nat)
    requires
        indexed_spec(beginning, i) == indexed_spec(beginning, j),
    ensures
        i == j,
{
    let a = indexed_spec(beginning, i);
    let b = indexed_spec(beginning, j);
    assert(a.subrange(beginning.len() as int, a.len() as int) =~= decimal_spec(i));
    assert(b.subrange(beginning.len() as int, b.len() as int) =~= decimal_spec(j));
    lemma_decimal_injective(i, j);
}

} // verus!
