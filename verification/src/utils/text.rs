//! Small operations on text, character by character.

use vstd::prelude::*;
use vstd::std_specs::iter::IteratorSpec;

verus! {

/// What `str::to_lowercase` of the standard library makes of a text: its
/// lower-case equivalent as Unicode defines it, which depends on the text
/// alone.
pub uninterp spec fn lowercase(text: Seq<char>) -> Seq<char>;

/// `str::to_lowercase` yields the lower-case equivalent of the text, as a
/// new string: [`lowercase`] is its name.
pub assume_specification[ str::to_lowercase ](text: &str) -> (r: String)
    ensures
        r@ == lowercase(text@),
;

/// `String::push` appends one character to the end of the string.
pub assume_specification[ String::push ](text: &mut String, ch: char)
    ensures
        final(text)@ == old(text)@.push(ch),
;

/// `text` up to its first `stop`, or all of it where it holds none.
pub open spec fn up_to(text: Seq<char>, stop: char) -> Seq<char>
    decreases text.len(),
{
    if text.len() == 0 || text[0] == stop {
        Seq::empty()
    } else {
        seq![text[0]] + up_to(text.drop_first(), stop)
    }
}

/// `text` with `to` in the place of every `from`.
pub open spec fn with_replaced(text: Seq<char>, from: char, to: char) -> Seq<char> {
    text.map_values(
        |c: char|
            if c == from {
                to
            } else {
                c
            },
    )
}

/// Tells whether `text` begins with `prefix`.
pub fn has_prefix(text: &str, prefix: &str) -> (r: bool)
    ensures
        r == prefix@.is_prefix_of(text@),
{
    let ghost mut seen: Seq<char> = Seq::empty();
    let mut ours = text.chars();
    let mut theirs = prefix.chars();
    loop
        invariant
            seen + ours.remaining() == text@,
            seen + theirs.remaining() == prefix@,
            ours.obeys_prophetic_iter_laws(),
            theirs.obeys_prophetic_iter_laws(),
            theirs.decrease() is Some,
        decreases theirs.decrease()->0,
    {
        let ghost ours_before = ours;
        let ghost theirs_before = theirs;
        match theirs.next() {
            None => {
                proof {
                    broadcast use vstd::string::next_postcondition;
                    assert(theirs_before.remaining().len() == 0);
                    assert(seen =~= prefix@);
                    assert(text@.subrange(0, prefix@.len() as int) =~= prefix@);
                }
                return true;
            },
            Some(wanted) => {
                proof {
                    broadcast use vstd::string::next_postcondition;
                    assert(theirs_before.remaining().len() > 0);
                    assert(prefix@[seen.len() as int] == wanted);
                }
                match ours.next() {
                    None => {
                        proof {
                            broadcast use vstd::string::next_postcondition;
                            assert(ours_before.remaining().len() == 0);
                            assert(text@.len() < prefix@.len());
                        }
                        return false;
                    },
                    Some(found) => {
                        proof {
                            broadcast use vstd::string::next_postcondition;
                            assert(ours_before.remaining().len() > 0);
                            assert(text@[seen.len() as int] == found);
                        }
                        if found != wanted {
                            proof {
                                if prefix@.is_prefix_of(text@) {
                                    assert(text@.subrange(0, prefix@.len() as int)[seen.len() as int]
                                        == prefix@[seen.len() as int]);
                                }
                            }
                            return false;
                        }
                        proof {
                            assert(seen.push(found) + ours.remaining() =~= seen
                                + ours_before.remaining());
                            assert(seen.push(found) + theirs.remaining() =~= seen
                                + theirs_before.remaining());
                            seen = seen.push(found);
                        }
                    },
                }
            },
        }
    }
}

/// `text` without its first `count` characters, or the empty text where it
/// has no more than `count`.
pub fn without_first(text: &str, count: usize) -> (r: String)
    ensures
        r@ == if count <= text@.len() {
            text@.skip(count as int)
        } else {
            Seq::<char>::empty()
        },
{
    let mut rest = String::new();
    let mut skipped: usize = 0;
    let ghost mut seen: Seq<char> = Seq::empty();
    let mut chars = text.chars();
    loop
        invariant
            seen + chars.remaining() == text@,
            skipped <= count,
            skipped <= seen.len(),
            skipped < count ==> skipped == seen.len(),
            rest@ == seen.skip(skipped as int),
            chars.obeys_prophetic_iter_laws(),
            chars.decrease() is Some,
        ensures
            seen == text@,
            skipped <= count,
            skipped <= seen.len(),
            skipped < count ==> skipped == seen.len(),
            rest@ == seen.skip(skipped as int),
        decreases chars.decrease()->0,
    {
        let ghost before = chars;
        match chars.next() {
            None => {
                proof {
                    broadcast use vstd::string::next_postcondition;
                    assert(before.remaining().len() == 0);
                    assert(seen =~= text@);
                }
                break ;
            },
            Some(c) => {
                proof {
                    broadcast use vstd::string::next_postcondition;
                    assert(before.remaining().len() > 0);
                    assert(seen.push(c) + chars.remaining() =~= seen + before.remaining());
                }
                if skipped < count {
                    skipped += 1;
                    proof {
                        assert(seen.push(c).skip(skipped as int) =~= Seq::<char>::empty());
                    }
                } else {
                    rest.push(c);
                    proof {
                        assert(seen.push(c).skip(skipped as int) =~= seen.skip(skipped as int).push(
                            c,
                        ));
                    }
                }
                proof {
                    seen = seen.push(c);
                }
            },
        }
    }
    proof {
        if count > text@.len() {
            assert(rest@ =~= Seq::<char>::empty());
        }
    }
    rest
}

/// `text` up to its first `stop`, or all of it where it holds none.
pub fn before(text: &str, stop: char) -> (r: String)
    ensures
        r@ == up_to(text@, stop),
{
    let mut head = String::new();
    let mut chars = text.chars();
    loop
        invariant_except_break
            up_to(text@, stop) == head@ + up_to(chars.remaining(), stop),
        invariant
            chars.obeys_prophetic_iter_laws(),
            chars.decrease() is Some,
        ensures
            head@ == up_to(text@, stop),
        decreases chars.decrease()->0,
    {
        let ghost old_chars = chars;
        match chars.next() {
            None => {
                proof {
                    broadcast use vstd::string::next_postcondition;
                    assert(old_chars.remaining().len() == 0);
                    assert(head@ + Seq::<char>::empty() =~= head@);
                }
                break ;
            },
            Some(c) => {
                proof {
                    broadcast use vstd::string::next_postcondition;
                    assert(old_chars.remaining().len() > 0);
                    assert(c == old_chars.remaining()[0]);
                }
                if c == stop {
                    proof {
                        assert(head@ + Seq::<char>::empty() =~= head@);
                    }
                    break ;
                }
                let ghost shorter = head@;
                head.push(c);
                proof {
                    assert(head@ + up_to(chars.remaining(), stop) =~= shorter + (seq![c] + up_to(
                        chars.remaining(),
                        stop,
                    ))) by {
                        assert(head@ =~= shorter + seq![c]);
                    }
                }
            },
        }
    }
    head
}

/// `text` with `to` in the place of every `from`.
pub fn replaced(text: &str, from: char, to: char) -> (r: String)
    ensures
        r@ == with_replaced(text@, from, to),
{
    let mut out = String::new();
    let ghost mut seen: Seq<char> = Seq::empty();
    let mut chars = text.chars();
    loop
        invariant
            seen + chars.remaining() == text@,
            out@ == with_replaced(seen, from, to),
            chars.obeys_prophetic_iter_laws(),
            chars.decrease() is Some,
        ensures
            out@ == with_replaced(text@, from, to),
        decreases chars.decrease()->0,
    {
        let ghost before = chars;
        match chars.next() {
            None => {
                proof {
                    broadcast use vstd::string::next_postcondition;
                    assert(before.remaining().len() == 0);
                    assert(seen =~= text@);
                }
                break ;
            },
            Some(c) => {
                proof {
                    broadcast use vstd::string::next_postcondition;
                    assert(before.remaining().len() > 0);
                    assert(seen.push(c) + chars.remaining() =~= seen + before.remaining());
                }
                if c == from {
                    out.push(to);
                } else {
                    out.push(c);
                }
                proof {
                    assert(out@ =~= with_replaced(seen.push(c), from, to));
                    seen = seen.push(c);
                }
            },
        }
    }
    out
}

/// `c` is a decimal digit.
pub open spec fn is_digit(c: char) -> bool {
    '0' <= c && c <= '9'
}

/// The number that a run of decimal digits stands for.
pub open spec fn decimal_value(digits: Seq<char>) -> nat
    decreases digits.len(),
{
    if digits.len() == 0 {
        0
    } else {
        decimal_value(digits.drop_last()) * 10 + (digits.last() as nat - '0' as nat) as nat
    }
}

/// The digits of a number written in decimal: the text itself, or what
/// follows one leading plus sign.
pub open spec fn digits_of(text: Seq<char>) -> Seq<char> {
    if text.len() > 0 && text[0] == '+' {
        text.drop_first()
    } else {
        text
    }
}

/// The number up to `max` that a text stands for: the text holds at least
/// one decimal digit and nothing else, but for one plus sign that may come
/// first, and the number that the digits stand for is `max` at most.
pub open spec fn unsigned_of(text: Seq<char>, max: nat) -> Option<nat> {
    let digits = digits_of(text);
    if digits.len() > 0 && (forall|i: int| 0 <= i < digits.len() ==> is_digit(#[trigger] digits[i]))
        && decimal_value(digits) <= max {
        Some(decimal_value(digits))
    } else {
        None
    }
}

/// More digits do not make a number smaller.
pub proof fn lemma_decimal_grows(digits: Seq<char>, count: int)
    requires
        0 <= count <= digits.len(),
        forall|i: int| 0 <= i < digits.len() ==> is_digit(#[trigger] digits[i]),
    ensures
        decimal_value(digits.take(count)) <= decimal_value(digits),
    decreases digits.len() - count,
{
    if count < digits.len() {
        lemma_decimal_grows(digits, count + 1);
        assert(digits.take(count + 1).drop_last() =~= digits.take(count));
        assert(is_digit(digits[count]));
        assert(digits.take(count + 1).last() == digits[count]);
    } else {
        assert(digits.take(count) =~= digits);
    }
}

/// Reads a number up to `max` that is written in decimal, as the standard
/// library reads an unsigned integer: see [`unsigned_of`].
pub fn parse_decimal(text: &str, max: u64) -> (r: Option<u64>)
    ensures
        match unsigned_of(text@, max as nat) {
            Some(value) => r == Some(value as u64),
            None => r is None,
        },
{
    let mut value: u64 = 0;
    let mut any = false;
    let mut signed = false;
    let ghost mut seen: Seq<char> = Seq::empty();
    let mut chars = text.chars();
    loop
        invariant
            seen + chars.remaining() == text@,
            signed ==> seen.len() > 0 && seen[0] == '+',
            !signed && seen.len() > 0 ==> seen[0] != '+',
            any == (digits_of(seen).len() > 0),
            forall|i: int| 0 <= i < digits_of(seen).len() ==> is_digit(#[trigger] digits_of(seen)[i]),
            value == decimal_value(digits_of(seen)),
            value <= max,
            chars.obeys_prophetic_iter_laws(),
            chars.decrease() is Some,
        ensures
            seen == text@,
            any == (digits_of(seen).len() > 0),
            forall|i: int| 0 <= i < digits_of(seen).len() ==> is_digit(#[trigger] digits_of(seen)[i]),
            value == decimal_value(digits_of(seen)),
            value <= max,
        decreases chars.decrease()->0,
    {
        let ghost before = chars;
        match chars.next() {
            None => {
                proof {
                    broadcast use vstd::string::next_postcondition;
                    assert(before.remaining().len() == 0);
                    assert(seen =~= text@);
                }
                break ;
            },
            Some(c) => {
                proof {
                    broadcast use vstd::string::next_postcondition;
                    assert(before.remaining().len() > 0);
                    assert(seen.push(c) + chars.remaining() =~= seen + before.remaining());
                    assert(text@[seen.len() as int] == c);
                    assert(text@.len() > seen.len());
                }
                let ghost longer = seen.push(c);
                let ghost count = digits_of(seen).len() as int;
                if c == '+' && !any && !signed {
                    proof {
                        assert(seen.len() == 0);
                        assert(digits_of(longer) =~= Seq::<char>::empty());
                        seen = longer;
                    }
                    signed = true;
                } else if c >= '0' && c <= '9' {
                    proof {
                        assert(digits_of(longer) =~= digits_of(seen).push(c));
                        assert(digits_of(longer).drop_last() =~= digits_of(seen));
                        assert(digits_of(text@).take(count + 1) =~= digits_of(longer));
                    }
                    let digit: u64 = (c as u64) - ('0' as u64);
                    let next = match value.checked_mul(10) {
                        Some(tens) => tens.checked_add(digit),
                        None => None,
                    };
                    match next {
                        Some(next) => {
                            if next > max {
                                proof {
                                    lemma_too_large(text@, count + 1, max as nat);
                                }
                                return None;
                            }
                            value = next;
                        },
                        None => {
                            proof {
                                lemma_too_large(text@, count + 1, max as nat);
                            }
                            return None;
                        },
                    }
                    any = true;
                    proof {
                        seen = longer;
                    }
                } else {
                    proof {
                        let digits = digits_of(text@);
                        let place = if signed {
                            seen.len() - 1
                        } else {
                            seen.len() as int
                        };
                        assert(digits[place] == c);
                        assert(!is_digit(digits[place]));
                    }
                    return None;
                }
            },
        }
    }
    if any {
        Some(value)
    } else {
        None
    }
}

/// A text whose first digits stand for more than `max` stands for no number
/// up to `max`.
proof fn lemma_too_large(text: Seq<char>, count: int, max: nat)
    requires
        0 <= count <= digits_of(text).len(),
        decimal_value(digits_of(text).take(count)) > max,
    ensures
        unsigned_of(text, max) is None,
{
    let digits = digits_of(text);
    if forall|i: int| 0 <= i < digits.len() ==> is_digit(#[trigger] digits[i]) {
        lemma_decimal_grows(digits, count);
    }
}

} // verus!
