//! The canonical text of a chord: the decimal codes of its keys in order,
//! joined by a hyphen.

use vstd::prelude::*;
use crate::keys::KeyCode;

verus! {

/// The character of one decimal digit.
pub open spec fn digit_char(d: nat) -> char
    recommends
        d < 10,
{
    ((48 + d) as u8) as char
}

/// The decimal digits of a number, most significant first, without leading
/// zeros.
pub open spec fn digits(n: nat) -> Seq<char>
    decreases n,
{
    if n < 10 {
        seq![digit_char(n)]
    } else {
        digits(n / 10).push(digit_char(n % 10))
    }
}

/// The number that a run of decimal digits stands for.
pub open spec fn number_of(s: Seq<char>) -> nat
    decreases s.len(),
{
    if s.len() == 0 {
        0
    } else {
        (10 * number_of(s.drop_last()) + (s.last() as u8 as nat - 48)) as nat
    }
}

/// The text of a chord: the decimal codes in order, joined by hyphens; the
/// empty text for no key at all.
pub open spec fn combo_key_text(codes: Seq<KeyCode>) -> Seq<char>
    decreases codes.len(),
{
    if codes.len() == 0 {
        Seq::empty()
    } else if codes.len() == 1 {
        digits(codes[0] as nat)
    } else {
        combo_key_text(codes.drop_last()) + seq!['-'] + digits(codes.last() as nat)
    }
}

/// Holds of a text in which no hyphen occurs.
pub open spec fn no_hyphen(s: Seq<char>) -> bool {
    forall|i: int| 0 <= i < s.len() ==> s[i] != '-'
}

/// The digits of a number are at least one character, hold no hyphen, and
/// stand for that number.
pub proof fn lemma_digits(n: nat)
    ensures
        digits(n).len() >= 1,
        no_hyphen(digits(n)),
        number_of(digits(n)) == n,
    decreases n,
{
    if n < 10 {
        let s = digits(n);
        assert(s.drop_last() =~= Seq::<char>::empty());
        assert(number_of(s.drop_last()) == 0);
        assert(s.last() == digit_char(n));
    } else {
        lemma_digits(n / 10);
        let s = digits(n);
        assert(s.drop_last() =~= digits(n / 10));
        assert(s.last() == digit_char(n % 10));
        assert forall|i: int| 0 <= i < s.len() implies s[i] != '-' by {
            if i < s.len() - 1 {
                assert(s[i] == digits(n / 10)[i]);
            }
        }
    }
}

/// A text cut at a hyphen that is followed by none can be cut in one way
/// only.
proof fn lemma_split_unique(p1: Seq<char>, d1: Seq<char>, p2: Seq<char>, d2: Seq<char>)
    requires
        p1 + seq!['-'] + d1 == p2 + seq!['-'] + d2,
        no_hyphen(d1),
        no_hyphen(d2),
    ensures
        p1 == p2,
        d1 == d2,
{
    let t1 = p1 + seq!['-'] + d1;
    let t2 = p2 + seq!['-'] + d2;
    assert(t1.len() == p1.len() + 1 + d1.len());
    assert(t2.len() == p2.len() + 1 + d2.len());
    if p1.len() < p2.len() {
        assert(t1[p1.len() as int] == '-');
        assert(t2[p1.len() as int] == p2[p1.len() as int]);
        assert(t2[p2.len() as int] == '-');
        assert(t1[p2.len() as int] == d1[p2.len() - p1.len() - 1]);
        assert(false);
    }
    if p2.len() < p1.len() {
        assert(t1[p1.len() as int] == '-');
        assert(t2[p1.len() as int] == d2[p1.len() - p2.len() - 1]);
        assert(false);
    }
    assert forall|i: int| 0 <= i < p1.len() implies p1[i] == p2[i] by {
        assert(t1[i] == p1[i]);
        assert(t2[i] == p2[i]);
    }
    assert(p1 =~= p2);
    assert forall|i: int| 0 <= i < d1.len() implies d1[i] == d2[i] by {
        assert(t1[p1.len() + 1 + i] == d1[i]);
        assert(t2[p2.len() + 1 + i] == d2[i]);
    }
    assert(d1 =~= d2);
}

/// The text of a chord with at least one key is not empty.
proof fn lemma_text_nonempty(codes: Seq<KeyCode>)
    requires
        codes.len() >= 1,
    ensures
        combo_key_text(codes).len() >= 1,
{
    lemma_digits(codes.last() as nat);
}

/// The chord text tells chords apart: two sequences of codes with the same
/// text are the same sequence, so a reordering, a longer and a shorter chord
/// each have a text of their own.
pub proof fn lemma_combo_key_injective(a: Seq<KeyCode>, b: Seq<KeyCode>)
    requires
        combo_key_text(a) == combo_key_text(b),
    ensures
        a == b,
    decreases a.len(),
{
    if a.len() == 0 {
        if b.len() >= 1 {
            lemma_text_nonempty(b);
        }
        assert(a =~= b);
    } else if b.len() == 0 {
        lemma_text_nonempty(a);
    } else {
        let x = a.last() as nat;
        let y = b.last() as nat;
        lemma_digits(x);
        lemma_digits(y);
        if a.len() == 1 && b.len() == 1 {
            assert(a =~= b);
        } else if a.len() == 1 {
            let p = combo_key_text(b.drop_last());
            let t = p + seq!['-'] + digits(y);
            assert(t[p.len() as int] == '-');
            assert(false);
        } else if b.len() == 1 {
            let p = combo_key_text(a.drop_last());
            let t = p + seq!['-'] + digits(x);
            assert(t[p.len() as int] == '-');
            assert(false);
        } else {
            lemma_split_unique(
                combo_key_text(a.drop_last()),
                digits(x),
                combo_key_text(b.drop_last()),
                digits(y),
            );
            lemma_combo_key_injective(a.drop_last(), b.drop_last());
            assert(a =~= a.drop_last().push(a.last()));
            assert(b =~= b.drop_last().push(b.last()));
        }
    }
}

fn digit(d: u16) -> (c: char)
    requires
        d < 10,
    ensures
        c == digit_char(d as nat),
{
    (48u8 + d as u8) as char
}

fn push_digits(out: &mut Vec<char>, n: u16)
    ensures
        final(out)@ == old(out)@ + digits(n as nat),
    decreases n,
{
    if n >= 10 {
        push_digits(out, n / 10);
    }
    out.push(digit(n % 10));
    assert(out@ =~= old(out)@ + digits(n as nat));
}

/// `String::from_iter` on a vector of characters: the string holds the
/// vector's characters, in their order and nothing else.
#[verifier::external_body]
fn string_from_chars(chars: Vec<char>) -> (text: String)
    ensures
        text@ == chars@,
{
    String::from_iter(chars)
}

/// The characters of a chord's text.
pub fn combo_key_chars(key_sequence: &Vec<KeyCode>) -> (chars: Vec<char>)
    ensures
        chars@ == combo_key_text(key_sequence@),
{
    let mut chars: Vec<char> = Vec::new();
    let mut i: usize = 0;
    assert(combo_key_text(key_sequence@.take(0)) =~= Seq::<char>::empty());
    while i < key_sequence.len()
        invariant
            i <= key_sequence@.len(),
            chars@ == combo_key_text(key_sequence@.take(i as int)),
        decreases key_sequence@.len() - i,
    {
        if i > 0 {
            chars.push('-');
        }
        push_digits(&mut chars, key_sequence[i]);
        proof {
            let now = key_sequence@.take(i + 1);
            assert(now.drop_last() =~= key_sequence@.take(i as int));
            assert(now.last() == key_sequence@[i as int]);
            assert(chars@ =~= combo_key_text(now));
        }
        i = i + 1;
    }
    assert(key_sequence@.take(i as int) =~= key_sequence@);
    chars
}

/// Derives the text of a chord from its keys in order.
pub fn get_combo_key(key_sequence: Vec<KeyCode>) -> (key: String)
    ensures
        key@ == combo_key_text(key_sequence@),
{
    string_from_chars(combo_key_chars(&key_sequence))
}

} // verus!
