//! Accent- and case-insensitive folding of search text.

use vstd::prelude::*;
use crate::text::{lower, lowercase_char, push_char, chars_of, ascii_lowercase, ascii_lower, is_ascii_char, is_ascii_lower};

verus! {

/// The base letter that a Romanian (or common Western) accented letter, in
/// either case, folds to; every other character is returned unchanged.
pub open spec fn base_letter(c: char) -> char {
    if c == 'ă' || c == 'â' || c == 'à' || c == 'á' || c == 'Ă' || c == 'Â' || c == 'À' || c == 'Á' {
        'a'
    } else if c == 'î' || c == 'í' || c == 'ì' || c == 'Î' || c == 'Í' || c == 'Ì' {
        'i'
    } else if c == 'ș' || c == 'ş' || c == 'Ș' || c == 'Ş' {
        's'
    } else if c == 'ț' || c == 'ţ' || c == 'Ț' || c == 'Ţ' {
        't'
    } else if c == 'é' || c == 'è' || c == 'ê' || c == 'É' || c == 'È' || c == 'Ê' {
        'e'
    } else if c == 'ó' || c == 'ô' || c == 'ö' || c == 'Ó' || c == 'Ô' || c == 'Ö' {
        'o'
    } else if c == 'ú' || c == 'ü' || c == 'û' || c == 'Ú' || c == 'Ü' || c == 'Û' {
        'u'
    } else {
        c
    }
}

/// The folded form of one character: its base letter, lowercased.
pub open spec fn fold_char(c: char) -> Seq<char> {
    lower(base_letter(c))
}

/// The folded form of a character sequence: each character folded, in order.
pub open spec fn fold_seq(s: Seq<char>) -> Seq<char>
    decreases s.len(),
{
    if s.len() == 0 {
        seq![]
    } else {
        fold_seq(s.drop_last()) + fold_char(s.last())
    }
}

/// `base_letter`, executable.
pub fn base_letter_of(c: char) -> (r: char)
    ensures
        r == base_letter(c),
{
    match c {
        'ă' | 'â' | 'à' | 'á' | 'Ă' | 'Â' | 'À' | 'Á' => 'a',
        'î' | 'í' | 'ì' | 'Î' | 'Í' | 'Ì' => 'i',
        'ș' | 'ş' | 'Ș' | 'Ş' => 's',
        'ț' | 'ţ' | 'Ț' | 'Ţ' => 't',
        'é' | 'è' | 'ê' | 'É' | 'È' | 'Ê' => 'e',
        'ó' | 'ô' | 'ö' | 'Ó' | 'Ô' | 'Ö' => 'o',
        'ú' | 'ü' | 'û' | 'Ú' | 'Ü' | 'Û' => 'u',
        other => other,
    }
}

/// Lowercase a string and replace Romanian (and common) diacritics with their
/// ASCII base letters, so searches are accent-insensitive.
pub fn fold(input: &str) -> (r: String)
    ensures
        r@ == fold_seq(input@),
        forall|k: int| 0 <= k < r@.len() ==> base_letter(#[trigger] r@[k]) == r@[k],
{
    let chars = chars_of(input);
    let mut out = String::new();
    let mut i: usize = 0;
    while i < chars.len()
        invariant
            i <= chars.len(),
            chars@ == input@,
            out@ == fold_seq(chars@.take(i as int)),
            forall|j: int| 0 <= j < out@.len() ==> base_letter(#[trigger] out@[j]) == out@[j],
        decreases chars.len() - i,
    {
        let c = chars[i];
        let ghost before = out@;
        let b = base_letter_of(c);
        assert(base_letter(b) == b);
        let lowered = lowercase_char(b);
        let mut k: usize = 0;
        while k < lowered.len()
            invariant
                k <= lowered.len(),
                out@ == before + lowered@.take(k as int),
                forall|j: int| 0 <= j < before.len() ==> base_letter(#[trigger] before[j]) == before[j],
                forall|j: int| 0 <= j < lowered@.len() ==> base_letter(#[trigger] lowered@[j]) == lowered@[j],
                forall|j: int| 0 <= j < out@.len() ==> base_letter(#[trigger] out@[j]) == out@[j],
            decreases lowered.len() - k,
        {
            push_char(&mut out, lowered[k]);
            assert(lowered@.take(k + 1) == lowered@.take(k as int).push(lowered@[k as int]));
            k += 1;
        }
        proof {
            let s = chars@.take(i + 1);
            assert(s.drop_last() == chars@.take(i as int));
            assert(s.last() == c);
            assert(lowered@.take(lowered.len() as int) == lowered@);
        }
        i += 1;
    }
    assert(chars@.take(chars.len() as int) == chars@);
    out
}

/// Folding distributes over concatenation.
pub proof fn lemma_fold_concat(a: Seq<char>, b: Seq<char>)
    ensures
        fold_seq(a + b) == fold_seq(a) + fold_seq(b),
    decreases b.len(),
{
    if b.len() == 0 {
        assert(a + b == a);
    } else {
        lemma_fold_concat(a, b.drop_last());
        assert((a + b).drop_last() == a + b.drop_last());
        assert((a + b).last() == b.last());
    }
}

/// Folding ASCII text is ASCII lowercasing: plain ASCII is left untouched
/// apart from its case.
pub proof fn fold_ascii_is_lowercase(s: Seq<char>)
    requires
        forall|i: int| 0 <= i < s.len() ==> is_ascii_char(#[trigger] s[i]),
    ensures
        fold_seq(s) == ascii_lowercase(s),
    decreases s.len(),
{
    if s.len() > 0 {
        let p = s.drop_last();
        assert forall|i: int| 0 <= i < p.len() implies is_ascii_char(#[trigger] p[i]) by {
            assert(p[i] == s[i]);
        }
        fold_ascii_is_lowercase(p);
        let c = s.last();
        assert(is_ascii_char(c));
        assert(base_letter(c) == c);
        assert(s == p.push(c));
        assert(ascii_lowercase(s) == ascii_lowercase(p).push(ascii_lower(c)));
    } else {
        assert(ascii_lowercase(s) =~= seq![]);
    }
}

/// Folding is accent-insensitive: replacing letters by their base letters
/// does not change the folded text.
pub proof fn fold_ignores_diacritics(s: Seq<char>)
    ensures
        fold_seq(s.map_values(|c: char| base_letter(c))) == fold_seq(s),
    decreases s.len(),
{
    if s.len() > 0 {
        let m = s.map_values(|c: char| base_letter(c));
        fold_ignores_diacritics(s.drop_last());
        assert(m.drop_last() == s.drop_last().map_values(|c: char| base_letter(c)));
        assert(base_letter(base_letter(s.last())) == base_letter(s.last()));
    }
}

/// Every accented letter folds to its ASCII base letter, whatever its case:
/// a character the table maps folds to that single lowercase ASCII letter.
pub proof fn accented_letters_fold_to_ascii(c: char)
    requires
        base_letter(c) != c,
    ensures
        fold_char(c) == seq![base_letter(c)],
        is_ascii_lower(base_letter(c)),
{
}

} // verus!
