//! Unguessable tokens for records, and slugs for organizations.

use crate::utils::text::lowercase;
use rand::Rng;
use vstd::prelude::*;
use vstd::std_specs::iter::IteratorSpec;

verus! {

/// The digits of a token.
pub open spec fn hex_alphabet() -> Seq<char> {
    "0123456789abcdef"@
}

/// `c` is a digit of a token: one of `0` to `9` and `a` to `f`.
pub open spec fn is_hex_digit(c: char) -> bool {
    ('0' <= c && c <= '9') || ('a' <= c && c <= 'f')
}

/// `text` is a token of `length` digits.
pub open spec fn is_token(text: Seq<char>, length: nat) -> bool {
    &&& text.len() == length
    &&& forall|i: int| 0 <= i < text.len() ==> is_hex_digit(#[trigger] text[i])
}

/// The number of digits of the token of a secret or of a secret request:
/// 64 digits of four bits each.
pub const SECRET_TOKEN_LENGTH: usize = 64;

#[verifier::external_type_specification]
#[verifier::external_body]
pub struct ExThreadRng(rand::rngs::ThreadRng);

/// `rand::thread_rng` hands out the random number generator of the calling
/// thread, which the operating system seeds. Nothing is claimed of it; rand
/// stops the program where the operating system gives no seed.
pub assume_specification[ rand::thread_rng ]() -> rand::rngs::ThreadRng;

/// Draws a number below `bound` with `rand::Rng::gen_range` on the range
/// from zero to `bound`, which rand refuses where it is empty. All that is
/// claimed is that the number lies in the range.
#[verifier::external_body]
fn random_below(rng: &mut rand::rngs::ThreadRng, bound: usize) -> (r: usize)
    requires
        bound > 0,
    ensures
        r < bound,
{
    rng.gen_range(0..bound)
}

/// The digit that stands for a draw below sixteen: `0` to `9` for the first
/// ten, then `a` to `f`.
pub fn hex_digit(index: usize) -> (c: char)
    requires
        index < 16,
    ensures
        c == hex_alphabet()[index as int],
        is_hex_digit(c),
{
    proof {
        reveal_strlit("0123456789abcdef");
    }
    "0123456789abcdef".get_char(index)
}

/// A token of `length` digits, each drawn at random.
pub fn generate_token(length: usize) -> (r: String)
    ensures
        is_token(r@, length as nat),
{
    let mut rng = rand::thread_rng();
    let mut token = String::new();
    let mut i: usize = 0;
    while i < length
        invariant
            i <= length,
            is_token(token@, i as nat),
        decreases length - i,
    {
        let index = random_below(&mut rng, 16);
        token.push(hex_digit(index));
        i += 1;
    }
    token
}

/// A token for a secret or a secret request: 64 random digits, that is 256
/// bits.
pub fn generate_secret_token() -> (r: String)
    ensures
        is_token(r@, SECRET_TOKEN_LENGTH as nat),
{
    generate_token(SECRET_TOKEN_LENGTH)
}

/// `c` may stand in a slug: a lower-case letter of the Latin alphabet or a
/// digit.
pub open spec fn is_slug_char(c: char) -> bool {
    ('a' <= c && c <= 'z') || ('0' <= c && c <= '9')
}

/// The length of the word at the end of `text`: of its longest suffix made
/// of slug characters alone.
pub open spec fn last_word_len(text: Seq<char>) -> nat
    decreases text.len(),
{
    if text.len() == 0 || !is_slug_char(text.last()) {
        0
    } else {
        1 + last_word_len(text.drop_last())
    }
}

/// The slug of a text: its words, joined by single hyphens. A word is a run
/// of slug characters that no slug character precedes or follows; whatever
/// stands between two words, before the first or after the last is left
/// out.
pub open spec fn slug_of(text: Seq<char>) -> Seq<char>
    decreases text.len(),
{
    if text.len() == 0 {
        Seq::empty()
    } else if !is_slug_char(text.last()) {
        slug_of(text.drop_last())
    } else {
        proof {
            lemma_last_word_len(text);
        }
        let start = text.len() - last_word_len(text);
        let word = text.skip(start);
        let before = slug_of(text.take(start));
        if before.len() == 0 {
            word
        } else {
            before + seq!['-'] + word
        }
    }
}

/// The word at the end of a text lies within the text, and is not empty
/// where the text ends in a slug character.
pub proof fn lemma_last_word_len(text: Seq<char>)
    ensures
        last_word_len(text) <= text.len(),
        text.len() > 0 && is_slug_char(text.last()) ==> last_word_len(text) >= 1,
        forall|i: int|
            text.len() - last_word_len(text) <= i < text.len() ==> is_slug_char(#[trigger] text[i]),
    decreases text.len(),
{
    if text.len() > 0 && is_slug_char(text.last()) {
        lemma_last_word_len(text.drop_last());
        assert forall|i: int| text.len() - last_word_len(text) <= i < text.len() implies is_slug_char(
            #[trigger] text[i],
        ) by {
            if i < text.len() - 1 {
                assert(text[i] == text.drop_last()[i]);
            }
        }
    }
}

/// The slug of a text that grows by one character: a character that is no
/// slug character changes nothing; a slug character is added to the slug,
/// after a hyphen where it begins a word that is not the first.
pub proof fn lemma_slug_push(text: Seq<char>, c: char)
    ensures
        slug_of(text.push(c)) == if !is_slug_char(c) {
            slug_of(text)
        } else if text.len() > 0 && !is_slug_char(text.last()) && slug_of(text).len() > 0 {
            slug_of(text) + seq!['-'] + seq![c]
        } else {
            slug_of(text) + seq![c]
        },
{
    let longer = text.push(c);
    assert(longer.drop_last() =~= text);
    assert(longer.last() == c);
    if is_slug_char(c) {
        lemma_last_word_len(text);
        lemma_last_word_len(longer);
        let start = longer.len() - last_word_len(longer);
        assert(last_word_len(longer) == 1 + last_word_len(text));
        assert(start == text.len() - last_word_len(text));
        assert(longer.take(start) =~= text.take(start));
        assert(longer.skip(start) =~= text.skip(start) + seq![c]);
        if text.len() == 0 || !is_slug_char(text.last()) {
            assert(last_word_len(text) == 0);
            assert(text.take(start) =~= text);
            assert(text.skip(start) =~= Seq::<char>::empty());
            assert(longer.skip(start) =~= seq![c]);
            if text.len() > 0 {
                assert(slug_of(text) == slug_of(text.drop_last()));
            }
            if slug_of(text).len() == 0 {
                assert(slug_of(text) + seq![c] =~= seq![c]);
            }
        } else {
            let word = text.skip(start);
            let before = slug_of(text.take(start));
            assert(word.len() >= 1);
            if before.len() == 0 {
                assert(slug_of(text) == word);
            } else {
                assert(slug_of(text) == before + seq!['-'] + word);
                assert(before + seq!['-'] + (word + seq![c]) =~= before + seq!['-'] + word + seq![
                    c,
                ]);
            }
        }
    }
}

/// The shape of a slug: it holds slug characters and hyphens alone, it
/// neither begins nor ends with a hyphen, and no two hyphens stand side by
/// side.
pub proof fn lemma_slug_shape(text: Seq<char>)
    ensures
        forall|i: int|
            0 <= i < slug_of(text).len() ==> is_slug_char(#[trigger] slug_of(text)[i]) || slug_of(
                text,
            )[i] == '-',
        slug_of(text).len() > 0 ==> is_slug_char(slug_of(text)[0]) && is_slug_char(
            slug_of(text).last(),
        ),
        forall|i: int|
            0 <= i < slug_of(text).len() - 1 && #[trigger] slug_of(text)[i] == '-' ==> slug_of(
                text,
            )[i + 1] != '-',
    decreases text.len(),
{
    if text.len() > 0 {
        let shorter = text.drop_last();
        let c = text.last();
        assert(shorter.push(c) =~= text);
        lemma_slug_shape(shorter);
        lemma_slug_push(shorter, c);
    }
}

/// The letters and digits of a text that may stand in a slug, in their
/// order.
pub open spec fn letters_of(text: Seq<char>) -> Seq<char>
    decreases text.len(),
{
    if text.len() == 0 {
        Seq::empty()
    } else if is_slug_char(text.last()) {
        letters_of(text.drop_last()).push(text.last())
    } else {
        letters_of(text.drop_last())
    }
}

/// The number of words of a text: of the slug characters that no slug
/// character precedes.
pub open spec fn word_count(text: Seq<char>) -> nat
    decreases text.len(),
{
    if text.len() == 0 {
        0
    } else if is_slug_char(text.last()) && (text.len() == 1 || !is_slug_char(
        text[text.len() - 2],
    )) {
        word_count(text.drop_last()) + 1
    } else {
        word_count(text.drop_last())
    }
}

/// The number of hyphens in a text.
pub open spec fn hyphen_count(text: Seq<char>) -> nat
    decreases text.len(),
{
    if text.len() == 0 {
        0
    } else if text.last() == '-' {
        hyphen_count(text.drop_last()) + 1
    } else {
        hyphen_count(text.drop_last())
    }
}

/// A slug keeps the words of its text and nothing else: its letters and
/// digits are those of the text, in their order, and it holds one hyphen for
/// each gap between two words, so one less than the text has words.
pub proof fn lemma_slug_keeps_words(text: Seq<char>)
    ensures
        letters_of(slug_of(text)) == letters_of(text),
        slug_of(text).len() > 0 <==> word_count(text) > 0,
        hyphen_count(slug_of(text)) == if word_count(text) == 0 {
            0
        } else {
            word_count(text) - 1
        },
    decreases text.len(),
{
    if text.len() > 0 {
        let shorter = text.drop_last();
        let c = text.last();
        let slug = slug_of(shorter);
        assert(shorter.push(c) =~= text);
        lemma_slug_keeps_words(shorter);
        lemma_slug_push(shorter, c);
        if shorter.len() > 0 {
            assert(shorter.last() == text[text.len() - 2]);
        }
        if !is_slug_char(c) {
            assert(slug_of(text) == slug);
        } else if shorter.len() > 0 && !is_slug_char(shorter.last()) && slug.len() > 0 {
            let dashed = slug + seq!['-'];
            let whole = dashed + seq![c];
            assert(slug_of(text) == whole);
            assert(dashed.drop_last() =~= slug);
            assert(dashed.last() == '-');
            assert(whole.drop_last() =~= dashed);
            assert(whole.last() == c);
            assert(letters_of(dashed) == letters_of(slug));
            assert(letters_of(whole) == letters_of(dashed).push(c));
            assert(hyphen_count(dashed) == hyphen_count(slug) + 1);
            assert(hyphen_count(whole) == hyphen_count(dashed));
            assert(word_count(text) == word_count(shorter) + 1);
        } else {
            let whole = slug + seq![c];
            assert(slug_of(text) == whole);
            assert(whole.drop_last() =~= slug);
            assert(whole.last() == c);
            assert(letters_of(whole) == letters_of(slug).push(c));
            assert(hyphen_count(whole) == hyphen_count(slug));
            if shorter.len() > 0 && is_slug_char(shorter.last()) {
                lemma_word_ends(shorter);
                assert(word_count(text) == word_count(shorter));
            } else {
                assert(word_count(text) == word_count(shorter) + 1);
                assert(slug.len() == 0);
            }
        }
    }
}

/// A text that ends in a slug character has a word.
proof fn lemma_word_ends(text: Seq<char>)
    requires
        text.len() > 0,
        is_slug_char(text.last()),
    ensures
        word_count(text) > 0,
    decreases text.len(),
{
    if text.len() > 1 && is_slug_char(text[text.len() - 2]) {
        assert(text.drop_last().last() == text[text.len() - 2]);
        lemma_word_ends(text.drop_last());
    }
}

/// The slug of a text that is in lower case already: its words, joined by
/// single hyphens.
pub fn slugify(text: &str) -> (r: String)
    ensures
        r@ == slug_of(text@),
{
    let mut slug = String::new();
    let mut gap = false;
    let mut empty = true;
    let ghost mut seen: Seq<char> = Seq::empty();
    let mut chars = text.chars();
    loop
        invariant
            seen + chars.remaining() == text@,
            slug@ == slug_of(seen),
            empty == (slug@.len() == 0),
            gap == (seen.len() > 0 && !is_slug_char(seen.last())),
            chars.obeys_prophetic_iter_laws(),
            chars.decrease() is Some,
        ensures
            slug@ == slug_of(text@),
        decreases chars.decrease()->0,
    {
        let ghost before = chars;
        match chars.next() {
            None => {
                proof {
                    broadcast use vstd::string::next_postcondition;
                    assert(before.remaining().len() == 0);
                    assert(seen =~= text@);
                }
                break ;
            },
            Some(c) => {
                proof {
                    broadcast use vstd::string::next_postcondition;
                    assert(before.remaining().len() > 0);
                    assert(c == before.remaining()[0]);
                    lemma_slug_push(seen, c);
                    assert(seen.push(c) + chars.remaining() =~= seen + before.remaining());
                }
                let keep = (c >= 'a' && c <= 'z') || (c >= '0' && c <= '9');
                if keep {
                    if gap && !empty {
                        slug.push('-');
                    }
                    slug.push(c);
                    empty = false;
                    gap = false;
                } else {
                    gap = true;
                }
                proof {
                    seen = seen.push(c);
                }
            },
        }
    }
    slug
}

/// The slug of a name, for use in an address: the name in lower case, its
/// runs of letters and digits kept and joined by single hyphens.
pub fn generate_slug(name: &str) -> (r: String)
    ensures
        r@ == slug_of(lowercase(name@)),
{
    let lowered = name.to_lowercase();
    slugify(lowered.as_str())
}

} // verus!
