//! Whether a reported track is a known recording, and which one.

use vstd::prelude::*;

use crate::domain::{RawTrack, Verification, VerificationStatus};
use crate::text::{
    chars_of, clone_texts, has_text, join, same_opt_text, same_texts, text_between,
};

verus! {

/// The compatibility decomposition that `unicode_normalization` computes.
pub uninterp spec fn nfkd(text: Seq<char>) -> Seq<char>;

/// Decomposes a text with `unicode_normalization::UnicodeNormalization::nfkd`. The outcome depends
/// on the text alone. An ASCII character is its own decomposition and moves no other one, so an
/// ASCII text stays as it is, and in any text the case of the ASCII letters changes nothing but
/// the case of these letters in the decomposition. What other characters decompose to, the Unicode
/// standard says and is not restated here.
#[verifier::external_body]
fn decompose(value: &str) -> (decomposed: String)
    ensures
        decomposed@ == nfkd(value@),
        vstd::utf8::is_ascii_chars(value@) ==> decomposed@ == value@,
        crate::text::ascii_lowered(decomposed@) == crate::text::ascii_lowered(
            nfkd(crate::text::ascii_uppered(value@)),
        ),
        crate::text::ascii_lowered(decomposed@) == crate::text::ascii_lowered(
            nfkd(crate::text::ascii_lowered(value@)),
        ),
{
    unicode_normalization::UnicodeNormalization::nfkd(value).collect()
}

/// The characters that `unicode_normalization::char::is_combining_mark` names.
pub uninterp spec fn is_mark(c: char) -> bool;

/// Asks `unicode_normalization::char::is_combining_mark`. No ASCII character is a mark, in either
/// case; which others are, the Unicode standard says and is not restated here.
#[verifier::external_body]
fn combining_mark(c: char) -> (mark: bool)
    ensures
        mark == is_mark(c),
        (c as u32) < 128 ==> !mark,
        mark == is_mark(crate::text::ascii_lower(c)),
        mark == is_mark(crate::text::ascii_upper(c)),
{
    unicode_normalization::char::is_combining_mark(c)
}

/// The characters that `char::to_lowercase` gives.
pub uninterp spec fn lowercase(c: char) -> Seq<char>;

/// The lower case of a character by `char::to_lowercase`: for an ASCII character, in either case,
/// the one character that its ASCII lower case is, for others what the Unicode standard says.
/// Nothing is said of the lower case of a lower case.
#[verifier::external_body]
fn lowercase_of(c: char) -> (lowered: Vec<char>)
    ensures
        lowered@ == lowercase(c),
        (c as u32) < 128 ==> lowered@ == seq![crate::text::ascii_lower(c)],
        lowered@ == lowercase(crate::text::ascii_lower(c)),
        lowered@ == lowercase(crate::text::ascii_upper(c)),
{
    c.to_lowercase().collect()
}

/// The characters that `char::is_alphanumeric` names.
pub uninterp spec fn is_letter_or_number(c: char) -> bool;

/// `char::is_alphanumeric` names the letters and the numbers; of the ASCII characters these are
/// the letters and the digits.
pub assume_specification[ char::is_alphanumeric ](c: char) -> (named: bool)
    ensures
        named == is_letter_or_number(c),
        (c as u32) < 128 ==> named == is_ascii_letter_or_digit(c),
;

/// An ASCII letter or digit.
pub open spec fn is_ascii_letter_or_digit(c: char) -> bool {
    'a' <= c <= 'z' || 'A' <= c <= 'Z' || '0' <= c <= '9'
}

/// The letters and numbers of a text.
pub open spec fn letters_and_numbers(s: Seq<char>) -> Seq<char>
    decreases s.len(),
{
    if s.len() == 0 {
        s
    } else if is_letter_or_number(s.last()) {
        letters_and_numbers(s.drop_last()).push(s.last())
    } else {
        letters_and_numbers(s.drop_last())
    }
}

/// What a character of a decomposed text contributes: nothing when it is a mark, and else the
/// letters and numbers of its lower case.
pub open spec fn folded_char(c: char) -> Seq<char> {
    if is_mark(c) {
        Seq::empty()
    } else {
        letters_and_numbers(lowercase(c))
    }
}

/// What a decomposed text contributes.
pub open spec fn folded(s: Seq<char>) -> Seq<char>
    decreases s.len(),
{
    if s.len() == 0 {
        s
    } else {
        folded(s.drop_last()) + folded_char(s.last())
    }
}

/// A text without marks, case and punctuation.
pub open spec fn normalized(s: Seq<char>) -> Seq<char> {
    folded(nfkd(s))
}

/// The lower-case letters and the digits of an ASCII text.
pub open spec fn ascii_folded(s: Seq<char>) -> Seq<char>
    decreases s.len(),
{
    if s.len() == 0 {
        s
    } else if is_ascii_letter_or_digit(s.last()) {
        ascii_folded(s.drop_last()).push(crate::text::ascii_lower(s.last()))
    } else {
        ascii_folded(s.drop_last())
    }
}

/// A text without marks, case and punctuation, as titles and names are compared. Only letters and
/// numbers remain. Of an ASCII text these are the letters and digits, in lower case; in any text
/// the case of the ASCII letters makes no difference. A text that holds its own decomposition and
/// its own lower case stays as it is; that every lower case is of this kind beyond ASCII is a
/// matter of the Unicode tables and is left unsaid.
pub fn normalize(value: &str) -> (text: String)
    ensures
        text@ == normalized(value@),
        text@ == normalized(crate::text::ascii_uppered(value@)),
        text@ == normalized(crate::text::ascii_lowered(value@)),
        forall|i: int| 0 <= i < text@.len() ==> is_letter_or_number(#[trigger] text@[i]),
        vstd::utf8::is_ascii_chars(value@) ==> text@ == ascii_folded(value@),
{
    let decomposed = decompose(value);
    proof {
        law_only_letters_and_numbers_remain(decomposed@);
    }
    fold_decomposed(decomposed.as_str())
}

/// Only letters and numbers remain of a decomposed text, and so of any text that is normalized.
pub proof fn law_only_letters_and_numbers_remain(s: Seq<char>)
    ensures
        forall|i: int| 0 <= i < folded(s).len() ==> is_letter_or_number(#[trigger] folded(s)[i]),
    decreases s.len(),
{
    if s.len() > 0 {
        law_only_letters_and_numbers_remain(s.drop_last());
        let front = folded(s.drop_last());
        let back = folded_char(s.last());
        lemma_letters_and_numbers(lowercase(s.last()));
        assert forall|i: int| 0 <= i < folded(s).len() implies is_letter_or_number(
            #[trigger] folded(s)[i],
        ) by {
            if i < front.len() {
                assert(folded(s)[i] == front[i]);
            } else {
                assert(folded(s)[i] == back[i - front.len()]);
            }
        }
    }
}

proof fn lemma_letters_and_numbers(s: Seq<char>)
    ensures
        forall|i: int|
            0 <= i < letters_and_numbers(s).len() ==> is_letter_or_number(
                #[trigger] letters_and_numbers(s)[i],
            ),
    decreases s.len(),
{
    if s.len() > 0 {
        lemma_letters_and_numbers(s.drop_last());
        let front = letters_and_numbers(s.drop_last());
        assert forall|i: int| 0 <= i < letters_and_numbers(s).len() implies is_letter_or_number(
            #[trigger] letters_and_numbers(s)[i],
        ) by {
            if i < front.len() {
                assert(letters_and_numbers(s)[i] == front[i]);
            }
        }
    }
}

/// A text that is in normal form already, letter by letter and as a whole, stays as it is.
pub proof fn law_normal_texts_stay(s: Seq<char>)
    requires
        nfkd(s) == s,
        forall|i: int|
            0 <= i < s.len() ==> !is_mark(#[trigger] s[i]) && lowercase(s[i]) == seq![s[i]]
                && is_letter_or_number(s[i]),
    ensures
        normalized(s) == s,
{
    lemma_normal_letters_stay(s);
}

proof fn lemma_normal_letters_stay(s: Seq<char>)
    requires
        forall|i: int|
            0 <= i < s.len() ==> !is_mark(#[trigger] s[i]) && lowercase(s[i]) == seq![s[i]]
                && is_letter_or_number(s[i]),
    ensures
        folded(s) == s,
    decreases s.len(),
{
    if s.len() > 0 {
        let front = s.drop_last();
        assert forall|i: int| 0 <= i < front.len() implies !is_mark(#[trigger] front[i])
            && lowercase(front[i]) == seq![front[i]] && is_letter_or_number(front[i]) by {
            assert(front[i] == s[i]);
        }
        lemma_normal_letters_stay(front);
        let last = s[s.len() - 1];
        let lone = lowercase(last);
        assert(lone.drop_last() =~= Seq::<char>::empty());
        assert(letters_and_numbers(lone) =~= seq![last]) by {
            reveal_with_fuel(letters_and_numbers, 2);
        }
        assert(folded(s) =~= s);
    }
}

/// A decomposed text without marks, case and punctuation.
pub fn fold_decomposed(decomposed: &str) -> (text: String)
    ensures
        text@ == folded(decomposed@),
        forall|other: Seq<char>| #[trigger]
            crate::text::ascii_lowered(other) == crate::text::ascii_lowered(decomposed@) ==> text@
                == folded(other),
        vstd::utf8::is_ascii_chars(decomposed@) ==> text@ == ascii_folded(decomposed@),
{
    let chars = chars_of(decomposed);
    let mut text = String::new();
    for i in 0..chars.len()
        invariant
            chars@ == decomposed@,
            text@ == folded(chars@.take(i as int)),
            forall|other: Seq<char>| #[trigger]
                crate::text::ascii_lowered(other) == crate::text::ascii_lowered(decomposed@)
                    ==> text@ == folded(other.take(i as int)),
            vstd::utf8::is_ascii_chars(decomposed@) ==> text@ == ascii_folded(
                chars@.take(i as int),
            ),
    {
        let c = chars[i];
        let ghost so_far = text@;
        let ghost plain = vstd::utf8::is_ascii_chars(decomposed@);
        assert(plain ==> (c as u32) < 128);
        assert(chars@.take(i as int + 1).drop_last() =~= chars@.take(i as int));
        assert(chars@.take(i as int + 1).last() == c);
        if !combining_mark(c) {
            let lowered = lowercase_of(c);
            assert(so_far + letters_and_numbers(lowered@.take(0)) =~= so_far);
            for j in 0..lowered.len()
                invariant
                    text@ == so_far + letters_and_numbers(lowered@.take(j as int)),
                    plain ==> (c as u32) < 128 && lowered@ == seq![crate::text::ascii_lower(c)],
                    plain && j == 0 ==> text@ == so_far,
                    plain && j == 1 ==> text@ == (if is_ascii_letter_or_digit(c) {
                        so_far.push(crate::text::ascii_lower(c))
                    } else {
                        so_far
                    }),
            {
                let d = lowered[j];
                assert(lowered@.take(j as int + 1).drop_last() =~= lowered@.take(j as int));
                assert(lowered@.take(j as int + 1).last() == d);
                let ghost before = text@;
                if d.is_alphanumeric() {
                    text.push(d);
                    assert(text@ =~= so_far + letters_and_numbers(
                        lowered@.take(j as int),
                    ).push(d));
                }
            }
            assert(lowered@.take(lowered@.len() as int) == lowered@);
            assert(folded_char(crate::text::ascii_lower(c)) == folded_char(c));
            assert(folded_char(crate::text::ascii_upper(c)) == folded_char(c));
        } else {
            assert(so_far + Seq::<char>::empty() =~= so_far);
            assert(folded_char(crate::text::ascii_lower(c)) == folded_char(c));
            assert(folded_char(crate::text::ascii_upper(c)) == folded_char(c));
        }
        assert(text@ == so_far + folded_char(c));
        assert forall|other: Seq<char>| #[trigger]
            crate::text::ascii_lowered(other) == crate::text::ascii_lowered(
                decomposed@,
            ) implies text@ == folded(other.take(i as int + 1)) by {
            let same = crate::text::ascii_lowered(other);
            assert(same.len() == other.len() && same.len() == chars@.len());
            assert(same[i as int] == crate::text::ascii_lower(other[i as int]));
            assert(same[i as int] == crate::text::ascii_lower(c));
            assert(other[i as int] == crate::text::ascii_lower(c) || other[i as int]
                == crate::text::ascii_upper(c));
            assert(other.take(i as int + 1).drop_last() =~= other.take(i as int));
            assert(other.take(i as int + 1).last() == other[i as int]);
        }
    }
    assert(chars@.take(chars@.len() as int) == chars@);
    assert forall|other: Seq<char>| #[trigger]
        crate::text::ascii_lowered(other) == crate::text::ascii_lowered(decomposed@) implies text@
        == folded(other) by {
        assert(crate::text::ascii_lowered(other).len() == other.len());
        assert(other.take(chars@.len() as int) =~= other);
    }
    text
}

/// Of an ASCII text neither case nor punctuation matters, and what was normalized is an ASCII text
/// that stays as it is.
pub proof fn law_ascii_normalization_ignores_case_and_punctuation(s: Seq<char>, c: char)
    ensures
        ascii_folded(crate::text::ascii_lowered(s)) == ascii_folded(s),
        ascii_folded(ascii_folded(s)) == ascii_folded(s),
        vstd::utf8::is_ascii_chars(ascii_folded(s)),
        !is_ascii_letter_or_digit(c) ==> ascii_folded(s.push(c)) == ascii_folded(s),
    decreases s.len(),
{
    assert(s.push(c).drop_last() =~= s);
    if s.len() > 0 {
        let front = s.drop_last();
        law_ascii_normalization_ignores_case_and_punctuation(front, c);
        let lowered = crate::text::ascii_lowered(s);
        assert(lowered.drop_last() =~= crate::text::ascii_lowered(front));
        assert(lowered.last() == crate::text::ascii_lower(s.last()));
        if is_ascii_letter_or_digit(s.last()) {
            let folded = ascii_folded(s);
            assert(folded.drop_last() =~= ascii_folded(front));
            assert forall|i: int| 0 <= i < folded.len() implies '\0' <= #[trigger] folded[i]
                <= '\u{7f}' by {
                if i < folded.len() - 1 {
                    assert(folded[i] == ascii_folded(front)[i]);
                }
            }
        }
    } else {
        assert(crate::text::ascii_lowered(s) =~= s);
    }
}

/// Texts are normalized part by part, and marks leave nothing behind.
pub proof fn law_folding_goes_part_by_part(a: Seq<char>, b: Seq<char>, mark: char)
    ensures
        folded(a + b) == folded(a) + folded(b),
        is_mark(mark) ==> folded(a.push(mark)) == folded(a),
    decreases b.len(),
{
    assert(a.push(mark).drop_last() =~= a);
    assert(folded(a) + Seq::<char>::empty() =~= folded(a));
    if b.len() == 0 {
        assert(a + b =~= a);
    } else {
        law_folding_goes_part_by_part(a, b.drop_last(), mark);
        assert((a + b).drop_last() =~= a + b.drop_last());
        assert(folded(a + b) =~= folded(a) + folded(b));
    }
}

/// What stands in front of the bracket that the text ends with, and what stands in it.
pub open spec fn qualifier_split(s: Seq<char>) -> Option<(Seq<char>, Seq<char>)> {
    if s.len() == 0 {
        None
    } else if s.last() == ')' && s.contains('(') {
        Some(split_at_last(s, '('))
    } else if s.last() == ']' && s.contains('[') {
        Some(split_at_last(s, '['))
    } else {
        None
    }
}

/// The position of the last `c`.
pub open spec fn last_position(s: Seq<char>, c: char) -> int
    decreases s.len(),
{
    if s.len() == 0 {
        -1
    } else if s.last() == c {
        s.len() - 1
    } else {
        last_position(s.drop_last(), c)
    }
}

/// What stands in front of the last `opening`, and what stands between it and the last character.
pub open spec fn split_at_last(s: Seq<char>, opening: char) -> (Seq<char>, Seq<char>) {
    let at = last_position(s, opening);
    (s.take(at), s.subrange(at + 1, s.len() - 1))
}

/// The last position is that of the character, and none behind it is.
proof fn lemma_last_position(s: Seq<char>, c: char)
    ensures
        -1 <= last_position(s, c) < s.len(),
        last_position(s, c) >= 0 ==> s[last_position(s, c)] == c,
        last_position(s, c) >= 0 <==> s.contains(c),
        forall|i: int| last_position(s, c) < i < s.len() ==> #[trigger] s[i] != c,
    decreases s.len(),
{
    if s.len() > 0 {
        let front = s.drop_last();
        lemma_last_position(front, c);
        if s.last() == c {
            assert(s[s.len() - 1] == c);
        } else {
            assert forall|i: int| last_position(s, c) < i < s.len() implies #[trigger] s[i] != c by {
                if i < front.len() {
                    assert(front[i] == s[i]);
                }
            }
            if s.contains(c) {
                let i = choose|i: int| 0 <= i < s.len() && s[i] == c;
                assert(front[i] == c);
            }
        }
    }
}

/// Trimming shortens.
proof fn lemma_trimmed_len(s: Seq<char>)
    ensures
        crate::text::trimmed(s).len() <= s.len(),
{
    lemma_trim_start_len(s);
    lemma_trim_end_len(crate::text::trim_start(s));
}

proof fn lemma_trim_start_len(s: Seq<char>)
    ensures
        crate::text::trim_start(s).len() <= s.len(),
    decreases s.len(),
{
    if s.len() > 0 && crate::text::is_white_space(s[0]) {
        lemma_trim_start_len(s.drop_first());
    }
}

proof fn lemma_trim_end_len(s: Seq<char>)
    ensures
        crate::text::trim_end(s).len() <= s.len(),
    decreases s.len(),
{
    if s.len() > 0 && crate::text::is_white_space(s.last()) {
        lemma_trim_end_len(s.drop_last());
    }
}

/// What stands in front of a trailing bracket is shorter than the whole.
proof fn lemma_qualifier_split_len(s: Seq<char>)
    ensures
        match qualifier_split(s) {
            Some(parts) => parts.0.len() < s.len(),
            None => true,
        },
{
    lemma_last_position(s, '(');
    lemma_last_position(s, '[');
}

/// What stands in front of the bracket that the text ends with, and what stands in it.
pub fn trailing_qualifier(value: &str) -> (split: Option<(String, String)>)
    ensures
        match split {
            Some(parts) => qualifier_split(value@) == Some((parts.0@, parts.1@)),
            None => qualifier_split(value@) is None,
        },
{
    let chars = chars_of(value);
    if chars.len() == 0 {
        return None;
    }
    let last = chars[chars.len() - 1];
    let opening = if last == ')' {
        '('
    } else if last == ']' {
        '['
    } else {
        return None;
    };
    proof {
        lemma_last_position(value@, opening);
    }
    let mut at: usize = chars.len() - 1;
    while at > 0 && chars[at - 1] != opening
        invariant
            at < chars.len(),
            chars@ == value@,
            forall|i: int| at <= i < chars@.len() ==> #[trigger] chars@[i] != opening,
        decreases at,
    {
        at = at - 1;
    }
    if at == 0 {
        return None;
    }
    assert(value@[at as int - 1] == opening);
    assert(last_position(value@, opening) == at - 1);
    let prefix = text_between(&chars, 0, at - 1);
    let qualifier = text_between(&chars, at, chars.len() - 1);
    assert(prefix@ =~= value@.take(at as int - 1));
    Some((prefix, qualifier))
}

/// The words that mark an edition of an album.
pub open spec fn edition_words() -> Seq<Seq<char>> {
    seq![
        "deluxe"@,
        "edition"@,
        "expanded"@,
        "remaster"@,
        "anniversary"@,
        "bonus"@,
        "reissue"@,
        "special"@,
    ]
}

/// A normalized text holds one of the words that mark an edition.
pub open spec fn names_edition(qualifier: Seq<char>) -> bool {
    exists|i: int|
        0 <= i < edition_words().len() && crate::text::contains_text(
            qualifier,
            #[trigger] edition_words()[i],
        )
}

/// Whether a normalized text holds one of the words that mark an edition.
pub fn is_edition_qualifier(qualifier: &str) -> (edition: bool)
    ensures
        edition == names_edition(qualifier@),
{
    let words: [&str; 8] = [
        "deluxe",
        "edition",
        "expanded",
        "remaster",
        "anniversary",
        "bonus",
        "reissue",
        "special",
    ];
    for i in 0..8
        invariant
            forall|k: int| 0 <= k < 8 ==> (#[trigger] words@[k])@ == edition_words()[k],
            forall|k: int|
                0 <= k < i ==> !crate::text::contains_text(
                    qualifier@,
                    #[trigger] edition_words()[k],
                ),
    {
        assert(words@[i as int]@ == edition_words()[i as int]);
        if has_text(qualifier, words[i]) {
            return true;
        }
    }
    false
}

/// An album's name without the brackets at its end that mark an edition.
pub open spec fn album_base(s: Seq<char>) -> Seq<char>
    decreases s.len(),
    via album_base_ends
{
    match qualifier_split(s) {
        Some(parts) => if names_edition(normalized(parts.1)) {
            album_base(crate::text::trimmed(parts.0))
        } else {
            s
        },
        None => s,
    }
}

/// What stands in front of a trailing bracket, trimmed, is shorter than the whole.
#[via_fn]
proof fn album_base_ends(s: Seq<char>) {
    lemma_qualifier_split_len(s);
    if let Some(parts) = qualifier_split(s) {
        lemma_trimmed_len(parts.0);
    }
}

/// An album's name as it is compared.
pub open spec fn normalized_album(s: Seq<char>) -> Seq<char> {
    normalized(album_base(crate::text::trimmed(s)))
}

/// An album's name as it is compared: without the brackets at its end that mark an edition, and
/// without marks, case and punctuation.
pub fn normalize_album(value: &str) -> (text: String)
    ensures
        text@ == normalized_album(value@),
{
    let mut base = value.trim().to_owned();
    loop
        invariant_except_break
            album_base(base@) == album_base(crate::text::trimmed(value@)),
        ensures
            base@ == album_base(crate::text::trimmed(value@)),
        decreases base@.len(),
    {
        let split = trailing_qualifier(base.as_str());
        proof {
            lemma_qualifier_split_len(base@);
        }
        match split {
            Some((prefix, qualifier)) => {
                let qualifier = normalize(qualifier.as_str());
                if !is_edition_qualifier(qualifier.as_str()) {
                    break ;
                }
                proof {
                    lemma_trimmed_len(prefix@);
                }
                base = prefix.as_str().trim().to_owned();
            },
            None => {
                break ;
            },
        }
    }
    normalize(base.as_str())
}

/// Whether two names are those of one album, in whatever edition.
pub fn albums_match(reported: &str, candidate: &str) -> (alike: bool)
    ensures
        alike == (normalized_album(reported@) == normalized_album(candidate@)),
{
    normalize_album(reported) == normalize_album(candidate)
}

/// The edition of an album does not matter: a bracket at the end that marks one is as good as not
/// there.
pub proof fn law_editions_are_one_album(album: Seq<char>)
    ensures
        match qualifier_split(crate::text::trimmed(album)) {
            Some(parts) => names_edition(normalized(parts.1)) ==> normalized_album(album)
                == normalized_album(parts.0),
            None => normalized_album(album) == normalized(crate::text::trimmed(album)),
        },
{
}

/// A recording that a search found.
#[derive(Debug)]
pub struct Candidate {
    pub title: String,
    pub artists: Vec<String>,
    pub albums: Vec<String>,
    pub duration_ms: Option<u64>,
    pub score: u8,
    pub recording_id: String,
    pub release_id: Option<String>,
    pub release_group_id: Option<String>,
}

/// The contents of a [`Candidate`].
#[verifier::ext_equal]
pub ghost struct CandidateView {
    pub title: Seq<char>,
    pub artists: Seq<Seq<char>>,
    pub albums: Seq<Seq<char>>,
    pub duration_ms: Option<u64>,
    pub score: u8,
    pub recording_id: Seq<char>,
    pub release_id: Option<Seq<char>>,
    pub release_group_id: Option<Seq<char>>,
}

impl View for Candidate {
    type V = CandidateView;

    open spec fn view(&self) -> CandidateView {
        CandidateView {
            title: self.title@,
            artists: crate::text::texts(self.artists@),
            albums: crate::text::texts(self.albums@),
            duration_ms: self.duration_ms,
            score: self.score,
            recording_id: self.recording_id@,
            release_id: crate::text::opt_text(self.release_id),
            release_group_id: crate::text::opt_text(self.release_group_id),
        }
    }
}

impl Clone for Candidate {
    fn clone(&self) -> (copy: Self)
        ensures
            copy@ == self@,
    {
        Candidate {
            title: self.title.clone(),
            artists: clone_texts(&self.artists),
            albums: clone_texts(&self.albums),
            duration_ms: self.duration_ms,
            score: self.score,
            recording_id: self.recording_id.clone(),
            release_id: self.release_id.clone(),
            release_group_id: self.release_group_id.clone(),
        }
    }
}

impl PartialEq for Candidate {
    fn eq(&self, other: &Self) -> (same: bool) {
        self.title == other.title && same_texts(&self.artists, &other.artists) && same_texts(
            &self.albums,
            &other.albums,
        ) && self.duration_ms == other.duration_ms && self.score == other.score
            && self.recording_id == other.recording_id && same_opt_text(
            &self.release_id,
            &other.release_id,
        ) && same_opt_text(&self.release_group_id, &other.release_group_id)
    }
}

impl vstd::std_specs::cmp::PartialEqSpecImpl for Candidate {
    open spec fn obeys_eq_spec() -> bool {
        true
    }

    open spec fn eq_spec(&self, other: &Self) -> bool {
        self@ == other@
    }
}

impl Eq for Candidate {

}

/// The contents of a sequence of candidates.
pub open spec fn candidate_views(candidates: Seq<Candidate>) -> Seq<CandidateView> {
    candidates.map_values(|candidate: Candidate| candidate@)
}

/// A text or a sequence of texts as they are compared.
pub open spec fn all_normalized(parts: Seq<Seq<char>>) -> Seq<Seq<char>> {
    parts.map_values(|part: Seq<char>| normalized(part))
}

/// Names of albums as they are compared.
pub open spec fn all_albums_normalized(parts: Seq<Seq<char>>) -> Seq<Seq<char>> {
    parts.map_values(|part: Seq<char>| normalized_album(part))
}

/// A track in the form in which it is compared.
#[derive(Debug)]
pub struct TrackKey {
    pub title: String,
    pub artists: Vec<String>,
    /// Absent when the player reports no album.
    pub album: Option<String>,
    pub duration_ms: Option<u64>,
}

/// The contents of a [`TrackKey`].
#[verifier::ext_equal]
pub ghost struct TrackKeyView {
    pub title: Seq<char>,
    pub artists: Seq<Seq<char>>,
    pub album: Option<Seq<char>>,
    pub duration_ms: Option<u64>,
}

impl View for TrackKey {
    type V = TrackKeyView;

    open spec fn view(&self) -> TrackKeyView {
        TrackKeyView {
            title: self.title@,
            artists: crate::text::texts(self.artists@),
            album: crate::text::opt_text(self.album),
            duration_ms: self.duration_ms,
        }
    }
}

/// The form in which a track is compared.
pub open spec fn track_key(track: crate::domain::RawTrackView) -> TrackKeyView {
    TrackKeyView {
        title: normalized(track.title),
        artists: all_normalized(track.artists),
        album: if crate::text::is_blank(track.album) {
            None
        } else {
            Some(normalized_album(track.album))
        },
        duration_ms: track.duration_ms,
    }
}

/// The form in which a candidate is compared.
pub open spec fn candidate_key(candidate: CandidateView) -> CandidateView {
    CandidateView {
        title: normalized(candidate.title),
        artists: all_normalized(candidate.artists),
        albums: all_albums_normalized(candidate.albums),
        ..candidate
    }
}

/// Each of several texts as they are compared.
fn normalize_all(parts: &Vec<String>) -> (forms: Vec<String>)
    ensures
        crate::text::texts(forms@) == all_normalized(crate::text::texts(parts@)),
{
    let mut forms: Vec<String> = Vec::new();
    for i in 0..parts.len()
        invariant
            forms@.len() == i,
            forall|j: int| 0 <= j < i ==> (#[trigger] forms@[j])@ == normalized(parts@[j]@),
    {
        forms.push(normalize(parts[i].as_str()));
    }
    assert(crate::text::texts(forms@) =~= all_normalized(crate::text::texts(parts@)));
    forms
}

/// Each of several names of albums as they are compared.
fn normalize_all_albums(parts: &Vec<String>) -> (forms: Vec<String>)
    ensures
        crate::text::texts(forms@) == all_albums_normalized(crate::text::texts(parts@)),
{
    let mut forms: Vec<String> = Vec::new();
    for i in 0..parts.len()
        invariant
            forms@.len() == i,
            forall|j: int| 0 <= j < i ==> (#[trigger] forms@[j])@ == normalized_album(parts@[j]@),
    {
        forms.push(normalize_album(parts[i].as_str()));
    }
    assert(crate::text::texts(forms@) =~= all_albums_normalized(crate::text::texts(parts@)));
    forms
}

/// The form in which a track is compared.
pub fn prepare_track(track: &RawTrack) -> (key: TrackKey)
    ensures
        key@ == track_key(track@),
{
    TrackKey {
        title: normalize(track.title.as_str()),
        artists: normalize_all(&track.artists),
        album: if track.album.as_str().trim().is_empty() {
            None
        } else {
            Some(normalize_album(track.album.as_str()))
        },
        duration_ms: track.duration_ms,
    }
}

/// The form in which a candidate is compared.
pub fn prepare_candidate(candidate: &Candidate) -> (key: Candidate)
    ensures
        key@ == candidate_key(candidate@),
{
    Candidate {
        title: normalize(candidate.title.as_str()),
        artists: normalize_all(&candidate.artists),
        albums: normalize_all_albums(&candidate.albums),
        duration_ms: candidate.duration_ms,
        score: candidate.score,
        recording_id: candidate.recording_id.clone(),
        release_id: candidate.release_id.clone(),
        release_group_id: candidate.release_group_id.clone(),
    }
}

/// A candidate, compared with a track, is a recording of it that is known well enough: its score
/// is ninety or more, the titles agree, and each reported artist is credited.
pub open spec fn is_known(track: TrackKeyView, candidate: CandidateView) -> bool {
    &&& candidate.score >= 90
    &&& candidate.title == track.title
    &&& forall|i: int|
        0 <= i < track.artists.len() ==> candidate.artists.contains(#[trigger] track.artists[i])
}

/// How well a candidate fits a track.
#[derive(Clone, Copy, Debug, PartialEq, Eq, Structural)]
pub struct MatchEvidence {
    pub album_matches: bool,
    pub duration_matches: bool,
    pub duration_delta: u64,
}

/// How far two durations are apart; unknown durations are as far apart as can be.
pub open spec fn duration_delta(left: Option<u64>, right: Option<u64>) -> u64 {
    match (left, right) {
        (Some(a), Some(b)) => if a <= b {
            (b - a) as u64
        } else {
            (a - b) as u64
        },
        _ => u64::MAX,
    }
}

/// How well a candidate fits a track.
pub open spec fn evidence_of(track: TrackKeyView, candidate: CandidateView) -> MatchEvidence {
    let delta = duration_delta(track.duration_ms, candidate.duration_ms);
    MatchEvidence {
        album_matches: track.album is Some && candidate.albums.contains(track.album->0),
        duration_matches: delta <= 5000,
        duration_delta: delta,
    }
}

/// The order of preference: an agreeing album, then an agreeing duration, then the higher score,
/// then the closer duration, then the smaller identifier.
pub open spec fn preferred(track: TrackKeyView, left: CandidateView, right: CandidateView) -> bool {
    let l = evidence_of(track, left);
    let r = evidence_of(track, right);
    if l.album_matches != r.album_matches {
        l.album_matches
    } else if l.duration_matches != r.duration_matches {
        l.duration_matches
    } else if left.score != right.score {
        left.score > right.score
    } else if l.duration_delta != r.duration_delta {
        l.duration_delta < r.duration_delta
    } else {
        crate::text::text_less(left.recording_id, right.recording_id)
    }
}

/// Whether one of the texts is `wanted`.
fn holds_text(parts: &Vec<String>, wanted: &String) -> (found: bool)
    ensures
        found == crate::text::texts(parts@).contains(wanted@),
{
    for i in 0..parts.len()
        invariant
            forall|j: int| 0 <= j < i ==> (#[trigger] parts@[j])@ != wanted@,
    {
        if parts[i] == *wanted {
            assert(crate::text::texts(parts@)[i as int] == wanted@);
            return true;
        }
    }
    assert forall|j: int| 0 <= j < parts@.len() implies crate::text::texts(parts@)[j] != wanted@ by {
        assert(parts@[j]@ != wanted@);
    }
    false
}

/// How well a prepared candidate fits a prepared track.
pub fn evidence(track: &TrackKey, candidate: &Candidate) -> (found: MatchEvidence)
    ensures
        found == evidence_of(track@, candidate@),
{
    let album_matches = match &track.album {
        Some(album) => holds_text(&candidate.albums, album),
        None => false,
    };
    let duration_delta: u64 = match (track.duration_ms, candidate.duration_ms) {
        (Some(left), Some(right)) => if left <= right {
            right - left
        } else {
            left - right
        },
        _ => u64::MAX,
    };
    MatchEvidence { album_matches, duration_matches: duration_delta <= 5000, duration_delta }
}

/// Whether a prepared candidate is a recording of a prepared track that is known well enough.
pub fn is_known_recording(track: &TrackKey, candidate: &Candidate) -> (known: bool)
    ensures
        known == is_known(track@, candidate@),
{
    if candidate.score < 90 || candidate.title != track.title {
        return false;
    }
    for i in 0..track.artists.len()
        invariant
            forall|j: int|
                0 <= j < i ==> candidate@.artists.contains(#[trigger] track@.artists[j]),
    {
        assert(track@.artists[i as int] == track.artists@[i as int]@);
        if !holds_text(&candidate.artists, &track.artists[i]) {
            return false;
        }
    }
    true
}

/// The order of preference between two prepared candidates: `Less` means that the left one comes
/// first.
pub fn compare_candidates(track: &TrackKey, left: &Candidate, right: &Candidate) -> (order:
    std::cmp::Ordering)
    ensures
        order == std::cmp::Ordering::Less <==> preferred(track@, left@, right@),
        order == std::cmp::Ordering::Greater <==> preferred(track@, right@, left@),
{
    let l = evidence(track, left);
    let r = evidence(track, right);
    proof {
        crate::text::lemma_text_order_total(left.recording_id@, right.recording_id@);
    }
    if l.album_matches != r.album_matches {
        if l.album_matches {
            std::cmp::Ordering::Less
        } else {
            std::cmp::Ordering::Greater
        }
    } else if l.duration_matches != r.duration_matches {
        if l.duration_matches {
            std::cmp::Ordering::Less
        } else {
            std::cmp::Ordering::Greater
        }
    } else if left.score != right.score {
        if left.score > right.score {
            std::cmp::Ordering::Less
        } else {
            std::cmp::Ordering::Greater
        }
    } else if l.duration_delta != r.duration_delta {
        if l.duration_delta < r.duration_delta {
            std::cmp::Ordering::Less
        } else {
            std::cmp::Ordering::Greater
        }
    } else if crate::text::comes_before(left.recording_id.as_str(), right.recording_id.as_str()) {
        std::cmp::Ordering::Less
    } else if crate::text::comes_before(right.recording_id.as_str(), left.recording_id.as_str()) {
        std::cmp::Ordering::Greater
    } else {
        std::cmp::Ordering::Equal
    }
}

/// Whether the left one of two prepared candidates comes first.
fn is_preferred(track: &TrackKey, left: &Candidate, right: &Candidate) -> (first: bool)
    ensures
        first == preferred(track@, left@, right@),
{
    match compare_candidates(track, left, right) {
        std::cmp::Ordering::Less => true,
        _ => false,
    }
}

/// The preference is a strict weak order: it is transitive, and whoever is preferred to a second
/// is preferred to everyone that the second is no worse than.
pub proof fn law_preference_is_an_order(
    track: TrackKeyView,
    a: CandidateView,
    b: CandidateView,
    c: CandidateView,
)
    ensures
        !(preferred(track, a, b) && preferred(track, b, a)),
        preferred(track, a, b) && preferred(track, b, c) ==> preferred(track, a, c),
        preferred(track, a, b) && !preferred(track, c, b) ==> preferred(track, a, c),
        !preferred(track, a, b) && !preferred(track, b, a) ==> a.recording_id == b.recording_id,
{
    crate::text::lemma_text_order_total(a.recording_id, b.recording_id);
    crate::text::lemma_text_order_total(b.recording_id, c.recording_id);
    crate::text::lemma_text_order_total(a.recording_id, c.recording_id);
    if crate::text::text_less(a.recording_id, b.recording_id) && crate::text::text_less(
        b.recording_id,
        c.recording_id,
    ) {
        crate::text::lemma_text_order_transitive(a.recording_id, b.recording_id, c.recording_id);
    }
}

/// The candidate at this position is known, no known one is preferred to it, and it is preferred
/// to every known one in front of it.
pub open spec fn is_best(track: TrackKeyView, candidates: Seq<CandidateView>, at: int) -> bool {
    &&& 0 <= at < candidates.len()
    &&& is_known(track, candidates[at])
    &&& forall|j: int|
        0 <= j < candidates.len() && is_known(track, #[trigger] candidates[j]) ==> !preferred(
            track,
            candidates[j],
            candidates[at],
        )
    &&& forall|j: int|
        0 <= j < at && is_known(track, #[trigger] candidates[j]) ==> preferred(
            track,
            candidates[at],
            candidates[j],
        )
}

/// What is said of a track once a candidate was found for it.
pub open spec fn verified_as(candidate: CandidateView) -> crate::domain::VerificationView {
    crate::domain::VerificationView {
        status: VerificationStatus::Verified,
        score: Some(candidate.score),
        recording_id: Some(candidate.recording_id),
        release_id: candidate.release_id,
        release_group_id: candidate.release_group_id,
    }
}

/// The outcome of comparing a track with candidates, all in the form in which they are compared:
/// not found when none is known, and else verified as the best one.
pub open spec fn is_match(
    track: TrackKeyView,
    candidates: Seq<CandidateView>,
    outcome: crate::domain::VerificationView,
) -> bool {
    if forall|j: int| 0 <= j < candidates.len() ==> !is_known(track, #[trigger] candidates[j]) {
        outcome == crate::domain::VerificationView::failed(VerificationStatus::NotFound)
    } else {
        exists|at: int|
            is_best(track, candidates, at) && outcome == verified_as(#[trigger] candidates[at])
    }
}

/// Compares a prepared track with prepared candidates.
pub fn match_prepared(track: &TrackKey, candidates: &Vec<Candidate>) -> (outcome: Verification)
    ensures
        is_match(track@, candidate_views(candidates@), outcome@),
{
    let ghost views = candidate_views(candidates@);
    let ghost key = track@;
    let mut best: Option<usize> = None;
    for i in 0..candidates.len()
        invariant
            views == candidate_views(candidates@),
            key == track@,
            best is None ==> forall|j: int|
                0 <= j < i ==> !is_known(key, #[trigger] views[j]),
            best is Some ==> {
                let at = best->0 as int;
                &&& at < i
                &&& is_known(key, views[at])
                &&& forall|j: int|
                    0 <= j < i && is_known(key, #[trigger] views[j]) ==> !preferred(
                        key,
                        views[j],
                        views[at],
                    )
                &&& forall|j: int|
                    0 <= j < at && is_known(key, #[trigger] views[j]) ==> preferred(
                        key,
                        views[at],
                        views[j],
                    )
            },
    {
        assert(views[i as int] == candidates@[i as int]@);
        if is_known_recording(track, &candidates[i]) {
            match best {
                None => {
                    proof {
                        law_preference_is_an_order(
                            key,
                            views[i as int],
                            views[i as int],
                            views[i as int],
                        );
                    }
                    best = Some(i);
                },
                Some(at) => {
                    assert(views[at as int] == candidates@[at as int]@);
                    if is_preferred(track, &candidates[i], &candidates[at]) {
                        assert forall|j: int| 0 <= j <= i && is_known(key, #[trigger] views[j])
                            implies !preferred(key, views[j], views[i as int]) by {
                            law_preference_is_an_order(
                                key,
                                views[j],
                                views[i as int],
                                views[at as int],
                            );
                        }
                        assert forall|j: int| 0 <= j < i && is_known(key, #[trigger] views[j])
                            implies preferred(key, views[i as int], views[j]) by {
                            law_preference_is_an_order(
                                key,
                                views[i as int],
                                views[at as int],
                                views[j],
                            );
                        }
                        best = Some(i);
                    }
                },
            }
        }
    }
    match best {
        None => Verification::failed(VerificationStatus::NotFound),
        Some(at) => {
            let found = &candidates[at];
            assert(is_best(key, views, at as int));
            assert(views[at as int] == found@);
            Verification {
                status: VerificationStatus::Verified,
                score: Some(found.score),
                recording_id: Some(found.recording_id.clone()),
                release_id: found.release_id.clone(),
                release_group_id: found.release_group_id.clone(),
            }
        },
    }
}

/// The forms in which candidates are compared.
pub open spec fn candidate_keys(candidates: Seq<CandidateView>) -> Seq<CandidateView> {
    candidates.map_values(|candidate: CandidateView| candidate_key(candidate))
}

/// Compares a track with the candidates that a search found. The track is verified exactly when one
/// of them can stand for it, and then as one that no other beats.
pub fn match_candidates(track: &RawTrack, candidates: &[Candidate]) -> (outcome: Verification)
    ensures
        is_match(
            track_key(track@),
            candidate_keys(candidate_views(candidates@)),
            outcome@,
        ),
        outcome.status == VerificationStatus::Verified || outcome.status
            == VerificationStatus::NotFound,
        outcome.status == VerificationStatus::Verified <==> exists|k: int|
            0 <= k < candidates@.len() && can_stand_for((#[trigger] candidates@[k])@, track@),
        outcome.status == VerificationStatus::Verified ==> exists|k: int|
            {
                &&& 0 <= k < candidates@.len()
                &&& can_stand_for((#[trigger] candidates@[k])@, track@)
                &&& outcome.score == Some(candidates@[k].score)
                &&& outcome@.recording_id == Some(candidates@[k].recording_id@)
                &&& outcome@.release_id == candidates@[k]@.release_id
                &&& outcome@.release_group_id == candidates@[k]@.release_group_id
                &&& forall|m: int|
                    0 <= m < candidates@.len() && can_stand_for(
                        (#[trigger] candidates@[m])@,
                        track@,
                    ) ==> !beats(candidates@[m]@, candidates@[k]@, track@)
            },
{
    let key = prepare_track(track);
    let mut prepared: Vec<Candidate> = Vec::new();
    for i in 0..candidates.len()
        invariant
            prepared@.len() == i,
            forall|j: int|
                0 <= j < i ==> (#[trigger] prepared@[j])@ == candidate_key(candidates@[j]@),
    {
        prepared.push(prepare_candidate(&candidates[i]));
    }
    assert(candidate_views(prepared@) =~= candidate_keys(candidate_views(candidates@)));
    let outcome = match_prepared(&key, &prepared);
    proof {
        let views = candidate_views(candidates@);
        law_verified_tracks_are_credited_in_full(track@, views, outcome@);
        assert forall|k: int| 0 <= k < candidates@.len() implies views[k] == (
        #[trigger] candidates@[k])@ by {}
        if outcome.status == VerificationStatus::Verified {
            law_the_best_candidate_is_found(track@, views, outcome@);
            let k = choose|k: int|
                {
                    &&& 0 <= k < views.len()
                    &&& can_stand_for(#[trigger] views[k], track@)
                    &&& outcome@.recording_id == Some(views[k].recording_id)
                    &&& outcome@.score == Some(views[k].score)
                    &&& outcome@.release_id == views[k].release_id
                    &&& outcome@.release_group_id == views[k].release_group_id
                    &&& forall|m: int|
                        0 <= m < views.len() && can_stand_for(#[trigger] views[m], track@)
                            ==> !beats(views[m], views[k], track@)
                };
            assert(can_stand_for(candidates@[k]@, track@));
            assert forall|m: int|
                0 <= m < candidates@.len() && can_stand_for(
                    (#[trigger] candidates@[m])@,
                    track@,
                ) implies !beats(candidates@[m]@, candidates@[k]@, track@) by {
                assert(can_stand_for(views[m], track@));
            }
        } else {
            assert forall|k: int| 0 <= k < candidates@.len() implies !can_stand_for(
                (#[trigger] candidates@[k])@,
                track@,
            ) by {
                assert(!can_stand_for(views[k], track@));
            }
        }
    }
    outcome
}

/// There is one best candidate at most, so the outcome of a comparison is settled by what is
/// compared.
pub proof fn law_match_is_settled(
    track: TrackKeyView,
    candidates: Seq<CandidateView>,
    one: crate::domain::VerificationView,
    other: crate::domain::VerificationView,
)
    requires
        is_match(track, candidates, one),
        is_match(track, candidates, other),
    ensures
        one == other,
{
    if exists|j: int| 0 <= j < candidates.len() && is_known(track, #[trigger] candidates[j]) {
        let a = choose|at: int|
            is_best(track, candidates, at) && one == verified_as(#[trigger] candidates[at]);
        let b = choose|at: int|
            is_best(track, candidates, at) && other == verified_as(#[trigger] candidates[at]);
        if a < b {
            assert(preferred(track, candidates[b], candidates[a]));
        } else if b < a {
            assert(preferred(track, candidates[a], candidates[b]));
        }
    }
}

/// The order in which a search names its candidates does not matter, as long as each has an
/// identifier of its own: the same candidates in any order give the same outcome.
pub proof fn law_order_of_candidates_does_not_matter(
    track: TrackKeyView,
    these: Seq<CandidateView>,
    those: Seq<CandidateView>,
    one: crate::domain::VerificationView,
    other: crate::domain::VerificationView,
)
    requires
        forall|candidate: CandidateView| #[trigger]
            these.contains(candidate) <==> those.contains(candidate),
        forall|i: int, j: int|
            0 <= i < j < these.len() ==> (#[trigger] these[i]).recording_id != (
            #[trigger] these[j]).recording_id,
        is_match(track, candidate_keys(these), one),
        is_match(track, candidate_keys(those), other),
    ensures
        one == other,
{
    let left = candidate_keys(these);
    let right = candidate_keys(those);
    assert forall|i: int| 0 <= i < left.len() implies right.contains(#[trigger] left[i]) by {
        assert(these.contains(these[i]));
        let j = choose|j: int| 0 <= j < those.len() && those[j] == these[i];
        assert(right[j] == left[i]);
    }
    assert forall|j: int| 0 <= j < right.len() implies left.contains(#[trigger] right[j]) by {
        assert(those.contains(those[j]));
        assert(these.contains(those[j]));
        let i = choose|i: int| 0 <= i < these.len() && these[i] == those[j];
        assert(left[i] == right[j]);
    }
    if forall|i: int| 0 <= i < left.len() ==> !is_known(track, #[trigger] left[i]) {
        assert forall|j: int| 0 <= j < right.len() implies !is_known(track, #[trigger] right[j]) by {
            assert(left.contains(right[j]));
        }
    } else {
        let k = choose|k: int| 0 <= k < left.len() && is_known(track, #[trigger] left[k]);
        assert(right.contains(left[k]));
        let m = choose|m: int| 0 <= m < right.len() && right[m] == left[k];
        assert(is_known(track, right[m]));
        let a = choose|at: int|
            is_best(track, left, at) && one == verified_as(#[trigger] left[at]);
        let b = choose|at: int|
            is_best(track, right, at) && other == verified_as(#[trigger] right[at]);
        assert(right.contains(left[a]) && left.contains(right[b]));
        let a_there = choose|j: int| 0 <= j < right.len() && right[j] == left[a];
        let b_here = choose|i: int| 0 <= i < left.len() && left[i] == right[b];
        assert(!preferred(track, right[a_there], right[b]));
        assert(!preferred(track, left[b_here], left[a]));
        law_preference_is_an_order(track, left[a], right[b], left[a]);
        assert(left[a].recording_id == these[a].recording_id);
        assert(left[b_here].recording_id == these[b_here].recording_id);
        assert(a == b_here);
    }
}

/// A track is verified only as a candidate that is known: score ninety or more, the same title,
/// and every reported artist credited. Album and duration never stand in the way.
pub proof fn law_verified_means_known(
    track: TrackKeyView,
    candidates: Seq<CandidateView>,
    outcome: crate::domain::VerificationView,
)
    requires
        is_match(track, candidates, outcome),
    ensures
        outcome.status == VerificationStatus::Verified || outcome.status
            == VerificationStatus::NotFound,
        outcome.status == VerificationStatus::Verified <==> exists|j: int|
            0 <= j < candidates.len() && is_known(track, #[trigger] candidates[j]),
        outcome.status == VerificationStatus::Verified ==> exists|j: int|
            0 <= j < candidates.len() && is_known(track, #[trigger] candidates[j]) && outcome
                == verified_as(candidates[j]),
{
}

/// Neither the album nor the duration of a track decides whether a candidate is known.
pub proof fn law_album_and_duration_never_block(
    track: TrackKeyView,
    candidate: CandidateView,
    album: Option<Seq<char>>,
    duration_ms: Option<u64>,
    albums: Seq<Seq<char>>,
    candidate_duration_ms: Option<u64>,
)
    ensures
        is_known(track, candidate) == is_known(
            TrackKeyView { album, duration_ms, ..track },
            CandidateView { albums, duration_ms: candidate_duration_ms, ..candidate },
        ),
{
}

/// How many bytes of cached files may stay on disk.
pub const CACHE_LIMIT_BYTES: u64 = 104857600;

/// The character with the backslash that a search query needs in front of it.
pub open spec fn escaped_char(c: char) -> Seq<char> {
    if c == '\\' || c == '"' || c == ':' {
        seq!['\\', c]
    } else {
        seq![c]
    }
}

/// A text as it stands in a search query: with a backslash in front of each backslash, quotation
/// mark and colon.
pub open spec fn escaped(s: Seq<char>) -> Seq<char>
    decreases s.len(),
{
    if s.len() == 0 {
        s
    } else {
        escaped(s.drop_last()) + escaped_char(s.last())
    }
}

/// What a query means by an escaped text: each backslash stands for the character behind it.
pub open spec fn unescaped_query(s: Seq<char>) -> Seq<char>
    decreases s.len(),
{
    if s.len() == 0 {
        s
    } else if s[0] == '\\' && s.len() > 1 {
        seq![s[1]] + unescaped_query(s.skip(2))
    } else {
        seq![s[0]] + unescaped_query(s.skip(1))
    }
}

/// A text as it stands in a search query.
pub fn lucene_escape(value: &str) -> (text: String)
    ensures
        text@ == escaped(value@),
{
    let chars = chars_of(value);
    let mut text = String::new();
    for i in 0..chars.len()
        invariant
            chars@ == value@,
            text@ == escaped(chars@.take(i as int)),
    {
        let c = chars[i];
        assert(chars@.take(i as int + 1).drop_last() =~= chars@.take(i as int));
        let ghost so_far = text@;
        if c == '\\' || c == '"' || c == ':' {
            text.push('\\');
        }
        text.push(c);
        assert(text@ =~= so_far + escaped_char(c));
    }
    assert(chars@.take(chars@.len() as int) == chars@);
    text
}

/// Escaping goes part by part: no part of a text changes how another one is escaped.
pub proof fn law_escaping_goes_part_by_part(a: Seq<char>, b: Seq<char>)
    ensures
        escaped(a + b) == escaped(a) + escaped(b),
    decreases b.len(),
{
    if b.len() == 0 {
        assert(a + b =~= a);
        assert(escaped(a) + escaped(b) =~= escaped(a));
    } else {
        law_escaping_goes_part_by_part(a, b.drop_last());
        assert((a + b).drop_last() =~= a + b.drop_last());
        assert(escaped(a + b) =~= escaped(a) + escaped(b));
    }
}

/// A query means the text that was escaped: escaping loses nothing and adds nothing.
pub proof fn law_escaping_is_undone(s: Seq<char>)
    ensures
        unescaped_query(escaped(s)) == s,
    decreases s.len(),
{
    if s.len() > 0 {
        let head = s.take(1);
        law_escaping_goes_part_by_part(head, s.skip(1));
        assert(head + s.skip(1) =~= s);
        assert(head.drop_last() =~= Seq::<char>::empty());
        assert(escaped(head) =~= escaped_char(s[0])) by {
            reveal_with_fuel(escaped, 2);
        }
        law_escaping_is_undone(s.skip(1));
        let whole = escaped(s);
        let rest = escaped(s.skip(1));
        if s[0] == '\\' || s[0] == '"' || s[0] == ':' {
            assert(whole.skip(2) =~= rest);
        } else {
            assert(whole.skip(1) =~= rest);
        }
        assert(seq![s[0]] + s.skip(1) =~= s);
    }
}

/// In an escaped text every quotation mark stands behind a backslash, so it cannot end the quoted
/// part of a query.
pub proof fn law_escaped_marks_are_guarded(s: Seq<char>)
    ensures
        forall|i: int|
            0 <= i < escaped(s).len() && #[trigger] escaped(s)[i] == '"' ==> i > 0 && escaped(s)[i
                - 1] == '\\',
    decreases s.len(),
{
    if s.len() > 0 {
        law_escaped_marks_are_guarded(s.drop_last());
        let front = escaped(s.drop_last());
        assert forall|i: int| 0 <= i < escaped(s).len() && #[trigger] escaped(s)[i] == '"' implies i
            > 0 && escaped(s)[i - 1] == '\\' by {
            if i < front.len() {
                assert(front[i] == '"');
            }
        }
    }
}

/// The query that looks for a track by its title and its artists.
pub open spec fn query_for(track: crate::domain::RawTrackView) -> Seq<char> {
    "recording:\""@ + escaped(track.title) + "\" AND artistname:\""@ + escaped(
        crate::text::joined(track.artists, " "@),
    ) + "\""@
}

/// The query that looks for a track by its title and its artists.
pub fn search_query(track: &RawTrack) -> (query: String)
    ensures
        query@ == query_for(track@),
{
    let artist = join(&track.artists, " ");
    let mut query = "recording:\"".to_owned();
    query.append(lucene_escape(track.title.as_str()).as_str());
    query.append("\" AND artistname:\"");
    query.append(lucene_escape(artist.as_str()).as_str());
    query.append("\"");
    query
}

/// An artist that a found recording credits: the name in the credit, and the artist's own.
#[derive(Debug)]
pub struct FoundCredit {
    pub name: String,
    pub artist_name: String,
}

/// A release that holds a found recording.
#[derive(Debug)]
pub struct FoundRelease {
    pub title: String,
    pub id: String,
    pub release_group_id: Option<String>,
}

/// A recording as the search service describes it.
#[derive(Debug)]
pub struct FoundRecording {
    pub id: String,
    pub title: String,
    pub length: Option<u32>,
    pub score: Option<u8>,
    pub artist_credit: Option<Vec<FoundCredit>>,
    pub releases: Option<Vec<FoundRelease>>,
}

/// The credits of a recording that may have none.
pub open spec fn credits_of(credits: Option<Vec<FoundCredit>>) -> Seq<FoundCredit> {
    match credits {
        Some(credits) => credits@,
        None => Seq::empty(),
    }
}

/// The releases of a recording that may have none.
pub open spec fn releases_of(releases: Option<Vec<FoundRelease>>) -> Seq<FoundRelease> {
    match releases {
        Some(releases) => releases@,
        None => Seq::empty(),
    }
}

/// For each credit the credited name and then the artist's own.
pub open spec fn credited_names(credits: Seq<FoundCredit>) -> Seq<Seq<char>> {
    Seq::new(
        credits.len() * 2,
        |i: int|
            if i % 2 == 0 {
                credits[i / 2].name@
            } else {
                credits[i / 2].artist_name@
            },
    )
}

/// The first release group that a release names.
pub open spec fn first_group(releases: Seq<FoundRelease>) -> Option<Seq<char>>
    decreases releases.len(),
{
    if releases.len() == 0 {
        None
    } else {
        match releases[0].release_group_id {
            Some(id) => Some(id@),
            None => first_group(releases.skip(1)),
        }
    }
}

/// The candidate that a found recording is.
pub open spec fn candidate_for(recording: FoundRecording) -> CandidateView {
    let releases = releases_of(recording.releases);
    CandidateView {
        title: recording.title@,
        artists: credited_names(credits_of(recording.artist_credit)),
        albums: releases.map_values(|release: FoundRelease| release.title@),
        duration_ms: match recording.length {
            Some(length) => Some(length as u64),
            None => None,
        },
        score: match recording.score {
            Some(score) => score,
            None => 0,
        },
        recording_id: recording.id@,
        release_id: if releases.len() == 0 {
            None
        } else {
            Some(releases[0].id@)
        },
        release_group_id: first_group(releases),
    }
}

/// For each credit the credited name and then the artist's own.
pub fn artist_names(credits: &Option<Vec<FoundCredit>>) -> (names: Vec<String>)
    ensures
        crate::text::texts(names@) == credited_names(credits_of(*credits)),
{
    let mut names: Vec<String> = Vec::new();
    if let Some(credits) = credits {
        for i in 0..credits.len()
            invariant
                names@.len() == i * 2,
                forall|j: int|
                    0 <= j < i * 2 ==> (#[trigger] names@[j])@ == credited_names(credits@)[j],
        {
            names.push(credits[i].name.clone());
            names.push(credits[i].artist_name.clone());
        }
    }
    assert(crate::text::texts(names@) =~= credited_names(credits_of(*credits)));
    names
}

/// The first release group that a release names.
fn first_release_group(releases: &Vec<FoundRelease>) -> (id: Option<String>)
    ensures
        crate::text::opt_text(id) == first_group(releases@),
{
    assert(releases@.skip(0) =~= releases@);
    for i in 0..releases.len()
        invariant
            first_group(releases@) == first_group(releases@.skip(i as int)),
    {
        assert(releases@.skip(i as int).skip(1) =~= releases@.skip(i as int + 1));
        assert(releases@.skip(i as int)[0] == releases@[i as int]);
        if let Some(id) = &releases[i].release_group_id {
            return Some(id.clone());
        }
    }
    None
}

/// The candidate that a found recording is.
pub fn candidate_from_recording(recording: &FoundRecording) -> (candidate: Candidate)
    ensures
        candidate@ == candidate_for(*recording),
{
    let mut albums: Vec<String> = Vec::new();
    let mut release_id: Option<String> = None;
    let mut release_group_id: Option<String> = None;
    if let Some(releases) = &recording.releases {
        for i in 0..releases.len()
            invariant
                albums@.len() == i,
                forall|j: int| 0 <= j < i ==> (#[trigger] albums@[j])@ == releases@[j].title@,
        {
            albums.push(releases[i].title.clone());
        }
        if releases.len() > 0 {
            release_id = Some(releases[0].id.clone());
        }
        release_group_id = first_release_group(releases);
    }
    let candidate = Candidate {
        title: recording.title.clone(),
        artists: artist_names(&recording.artist_credit),
        albums,
        duration_ms: match recording.length {
            Some(length) => Some(length as u64),
            None => None,
        },
        score: match recording.score {
            Some(score) => score,
            None => 0,
        },
        recording_id: recording.id.clone(),
        release_id,
        release_group_id,
    };
    assert(candidate@.albums =~= candidate_for(*recording).albums);
    candidate
}

/// The candidates that found recordings are.
pub open spec fn candidates_for(recordings: Seq<FoundRecording>) -> Seq<CandidateView> {
    recordings.map_values(|recording: FoundRecording| candidate_for(recording))
}

/// What is said of a track after a search: unavailable when the search failed, and else what the
/// comparison with the recordings gives that it found.
pub fn verification_after_search(
    track: &RawTrack,
    found: &Option<Vec<FoundRecording>>,
) -> (outcome: Verification)
    ensures
        match found {
            Some(recordings) => is_match(
                track_key(track@),
                candidate_keys(candidates_for(recordings@)),
                outcome@,
            ),
            None => outcome@ == crate::domain::VerificationView::failed(
                VerificationStatus::Unavailable,
            ),
        },
{
    match found {
        Some(recordings) => {
            let mut candidates: Vec<Candidate> = Vec::new();
            for i in 0..recordings.len()
                invariant
                    candidates@.len() == i,
                    forall|j: int|
                        0 <= j < i ==> (#[trigger] candidates@[j])@ == candidate_for(
                            recordings@[j],
                        ),
            {
                candidates.push(candidate_from_recording(&recordings[i]));
            }
            assert(candidate_views(candidates@) =~= candidates_for(recordings@));
            match_candidates(track, candidates.as_slice())
        },
        None => Verification::failed(VerificationStatus::Unavailable),
    }
}

/// A second in nanoseconds, the distance that requests to the search service keep.
pub const REQUEST_DISTANCE: u64 = 1000000000;

/// How many nanoseconds a request waits.
pub open spec fn pause_due(elapsed: Option<u64>) -> Option<u64> {
    match elapsed {
        Some(elapsed) => if elapsed <= REQUEST_DISTANCE {
            Some((REQUEST_DISTANCE - elapsed) as u64)
        } else {
            None
        },
        None => None,
    }
}

/// Requests are a second apart and no longer than needed: a request that waits is sent exactly one
/// second after the one before, and only the first one and those after more than a second do not
/// wait.
pub proof fn law_requests_are_a_second_apart(elapsed: Option<u64>)
    ensures
        elapsed is None ==> pause_due(elapsed) is None,
        elapsed is Some && pause_due(elapsed) is Some ==> elapsed->0 + pause_due(elapsed)->0
            == 1000000000,
        elapsed is Some && pause_due(elapsed) is None ==> elapsed->0 > 1000000000,
{
}

/// How many nanoseconds a request waits, when the one before it was sent `elapsed` nanoseconds
/// ago; nothing at all when there was none or the second is over.
pub fn pause_before_request(elapsed: Option<u64>) -> (pause: Option<u64>)
    ensures
        pause == pause_due(elapsed),
        match elapsed {
            Some(elapsed) => if elapsed <= REQUEST_DISTANCE {
                pause == Some((REQUEST_DISTANCE - elapsed) as u64)
            } else {
                pause is None
            },
            None => pause is None,
        },
{
    match elapsed {
        Some(elapsed) => if elapsed <= REQUEST_DISTANCE {
            Some(REQUEST_DISTANCE - elapsed)
        } else {
            None
        },
        None => None,
    }
}

/// A candidate credits an artist: one of its names is the artist's, but for marks, case and
/// punctuation.
pub open spec fn credits_artist(candidate: CandidateView, artist: Seq<char>) -> bool {
    exists|j: int|
        0 <= j < candidate.artists.len() && normalized(#[trigger] candidate.artists[j])
            == normalized(artist)
}

/// A candidate can stand for a track: its score is ninety or more, the titles agree but for marks,
/// case and punctuation, and it credits every artist that the player reports.
pub open spec fn can_stand_for(
    candidate: CandidateView,
    track: crate::domain::RawTrackView,
) -> bool {
    &&& candidate.score >= 90
    &&& normalized(candidate.title) == normalized(track.title)
    &&& forall|i: int|
        0 <= i < track.artists.len() ==> credits_artist(candidate, #[trigger] track.artists[i])
}

/// A candidate has an album of the track's name, in whatever edition, where the player reports one.
pub open spec fn agrees_in_album(
    candidate: CandidateView,
    track: crate::domain::RawTrackView,
) -> bool {
    &&& exists|i: int|
        0 <= i < track.album.len() && !crate::text::is_white_space(#[trigger] track.album[i])
    &&& exists|j: int|
        0 <= j < candidate.albums.len() && normalized_album(#[trigger] candidate.albums[j])
            == normalized_album(track.album)
}

/// How many milliseconds a candidate's duration is away from the track's; where one is not known,
/// further than any other.
pub open spec fn distance(candidate: CandidateView, track: crate::domain::RawTrackView) -> int {
    if track.duration_ms is Some && candidate.duration_ms is Some {
        let a = track.duration_ms->0 as int;
        let b = candidate.duration_ms->0 as int;
        if a >= b {
            a - b
        } else {
            b - a
        }
    } else {
        u64::MAX as int
    }
}

proof fn lemma_raw_is_prepared(candidate: CandidateView, track: crate::domain::RawTrackView)
    ensures
        can_stand_for(candidate, track) <==> is_known(track_key(track), candidate_key(candidate)),
        agrees_in_album(candidate, track) <==> evidence_of(
            track_key(track),
            candidate_key(candidate),
        ).album_matches,
        distance(candidate, track) == evidence_of(
            track_key(track),
            candidate_key(candidate),
        ).duration_delta,
        (distance(candidate, track) <= 5000) <==> evidence_of(
            track_key(track),
            candidate_key(candidate),
        ).duration_matches,
{
    let key = track_key(track);
    let other = candidate_key(candidate);
    assert forall|i: int| 0 <= i < track.artists.len() implies (credits_artist(
        candidate,
        #[trigger] track.artists[i],
    ) <==> other.artists.contains(key.artists[i])) by {
        if credits_artist(candidate, track.artists[i]) {
            let j = choose|j: int|
                0 <= j < candidate.artists.len() && normalized(#[trigger] candidate.artists[j])
                    == normalized(track.artists[i]);
            assert(other.artists[j] == key.artists[i]);
        }
        if other.artists.contains(key.artists[i]) {
            let j = choose|j: int| 0 <= j < other.artists.len() && other.artists[j]
                == key.artists[i];
            assert(normalized(candidate.artists[j]) == normalized(track.artists[i]));
        }
    }
    if is_known(key, other) {
        assert forall|i: int| 0 <= i < track.artists.len() implies credits_artist(
            candidate,
            #[trigger] track.artists[i],
        ) by {
            assert(other.artists.contains(key.artists[i]));
        }
    }
    if can_stand_for(candidate, track) {
        assert forall|i: int| 0 <= i < key.artists.len() implies other.artists.contains(
            #[trigger] key.artists[i],
        ) by {
            assert(credits_artist(candidate, track.artists[i]));
        }
    }
    crate::text::law_blank_means_white_space(track.album);
    if key.album is Some {
        let name = normalized_album(track.album);
        if other.albums.contains(name) {
            let j = choose|j: int| 0 <= j < other.albums.len() && other.albums[j] == name;
            assert(normalized_album(candidate.albums[j]) == name);
        }
        if exists|j: int|
            0 <= j < candidate.albums.len() && normalized_album(#[trigger] candidate.albums[j])
                == name {
            let j = choose|j: int|
                0 <= j < candidate.albums.len() && normalized_album(#[trigger] candidate.albums[j])
                    == name;
            assert(other.albums[j] == name);
        }
    }
}

/// A track is verified exactly when some candidate can stand for it, and then as one of these: the
/// score and the identifiers of recording, release and release group are all of that candidate.
/// Otherwise it is not found, and nothing is said of any candidate.
pub proof fn law_verified_tracks_are_credited_in_full(
    track: crate::domain::RawTrackView,
    candidates: Seq<CandidateView>,
    outcome: crate::domain::VerificationView,
)
    requires
        is_match(track_key(track), candidate_keys(candidates), outcome),
    ensures
        outcome.status == VerificationStatus::Verified || outcome.status
            == VerificationStatus::NotFound,
        outcome.status == VerificationStatus::Verified <==> exists|k: int|
            0 <= k < candidates.len() && can_stand_for(#[trigger] candidates[k], track),
        outcome.status == VerificationStatus::Verified ==> exists|k: int|
            {
                &&& 0 <= k < candidates.len()
                &&& can_stand_for(#[trigger] candidates[k], track)
                &&& outcome.score == Some(candidates[k].score)
                &&& outcome.recording_id == Some(candidates[k].recording_id)
                &&& outcome.release_id == candidates[k].release_id
                &&& outcome.release_group_id == candidates[k].release_group_id
            },
        outcome.status == VerificationStatus::NotFound ==> outcome.score is None
            && outcome.recording_id is None && outcome.release_id is None
            && outcome.release_group_id is None,
{
    let key = track_key(track);
    let keys = candidate_keys(candidates);
    assert forall|k: int| 0 <= k < candidates.len() implies (can_stand_for(
        #[trigger] candidates[k],
        track,
    ) <==> is_known(key, keys[k])) by {
        lemma_raw_is_prepared(candidates[k], track);
    }
    if forall|j: int| 0 <= j < keys.len() ==> !is_known(key, #[trigger] keys[j]) {
        assert forall|k: int| 0 <= k < candidates.len() implies !can_stand_for(
            #[trigger] candidates[k],
            track,
        ) by {
            assert(!is_known(key, keys[k]));
        }
    } else {
        let at = choose|at: int|
            is_best(key, keys, at) && outcome == verified_as(#[trigger] keys[at]);
        assert(can_stand_for(candidates[at], track));
        assert(keys[at] == candidate_key(candidates[at]));
    }
}

/// One artist that no candidate credits is enough: whatever else agrees, the track is not found.
pub proof fn law_an_uncredited_artist_is_not_found(
    track: crate::domain::RawTrackView,
    candidates: Seq<CandidateView>,
    outcome: crate::domain::VerificationView,
    at: int,
)
    requires
        is_match(track_key(track), candidate_keys(candidates), outcome),
        0 <= at < track.artists.len(),
        forall|k: int, j: int|
            0 <= k < candidates.len() && 0 <= j < candidates[k].artists.len() ==> normalized(
                #[trigger] candidates[k].artists[j],
            ) != normalized(track.artists[at]),
    ensures
        outcome.status == VerificationStatus::NotFound,
{
    law_verified_tracks_are_credited_in_full(track, candidates, outcome);
    if outcome.status == VerificationStatus::Verified {
        let k = choose|k: int|
            0 <= k < candidates.len() && can_stand_for(#[trigger] candidates[k], track);
        assert(credits_artist(candidates[k], track.artists[at]));
        let j = choose|j: int|
            0 <= j < candidates[k].artists.len() && normalized(
                #[trigger] candidates[k].artists[j],
            ) == normalized(track.artists[at]);
        assert(normalized(candidates[k].artists[j]) != normalized(track.artists[at]));
    }
}

/// Whoever is found is the best: no other candidate that can stand for the track agrees in the
/// album while this one does not; or, where they are alike in that, is within five seconds while
/// this one is not; or, alike in that too, has a higher score; or, with the same score, is closer
/// in duration; or, as close, has an identifier that stands in front.
pub proof fn law_the_best_candidate_is_found(
    track: crate::domain::RawTrackView,
    candidates: Seq<CandidateView>,
    outcome: crate::domain::VerificationView,
)
    requires
        is_match(track_key(track), candidate_keys(candidates), outcome),
        outcome.status == VerificationStatus::Verified,
    ensures
        exists|k: int|
            {
                &&& 0 <= k < candidates.len()
                &&& can_stand_for(#[trigger] candidates[k], track)
                &&& outcome.recording_id == Some(candidates[k].recording_id)
                &&& outcome.score == Some(candidates[k].score)
                &&& outcome.release_id == candidates[k].release_id
                &&& outcome.release_group_id == candidates[k].release_group_id
                &&& forall|m: int|
                    0 <= m < candidates.len() && can_stand_for(#[trigger] candidates[m], track)
                        ==> !beats(candidates[m], candidates[k], track)
            },
{
    let key = track_key(track);
    let keys = candidate_keys(candidates);
    assert forall|m: int| 0 <= m < candidates.len() implies (can_stand_for(
        #[trigger] candidates[m],
        track,
    ) <==> is_known(key, keys[m])) by {
        lemma_raw_is_prepared(candidates[m], track);
    }
    let at = choose|at: int|
        is_best(key, keys, at) && outcome == verified_as(#[trigger] keys[at]);
    assert(can_stand_for(candidates[at], track));
    lemma_raw_is_prepared(candidates[at], track);
    assert forall|m: int|
        0 <= m < candidates.len() && can_stand_for(#[trigger] candidates[m], track) implies !beats(
        candidates[m],
        candidates[at],
        track,
    ) by {
        lemma_raw_is_prepared(candidates[m], track);
        assert(is_known(key, keys[m]));
        assert(!preferred(key, keys[m], keys[at]));
    }
}

/// One candidate is a better find for a track than another.
pub open spec fn beats(
    left: CandidateView,
    right: CandidateView,
    track: crate::domain::RawTrackView,
) -> bool {
    let album = agrees_in_album(left, track) == agrees_in_album(right, track);
    let near = (distance(left, track) <= 5000) == (distance(right, track) <= 5000);
    ||| agrees_in_album(left, track) && !agrees_in_album(right, track)
    ||| album && distance(left, track) <= 5000 && distance(right, track) > 5000
    ||| album && near && left.score > right.score
    ||| album && near && left.score == right.score && distance(left, track) < distance(right, track)
    ||| album && near && left.score == right.score && distance(left, track) == distance(
        right,
        track,
    ) && crate::text::text_less(left.recording_id, right.recording_id)
}

/// A text holds a word that marks an edition exactly when it holds one of the eight there are.
pub proof fn law_eight_words_mark_an_edition(s: Seq<char>)
    ensures
        names_edition(s) <==> crate::text::contains_text(s, "deluxe"@)
            || crate::text::contains_text(s, "edition"@) || crate::text::contains_text(
            s,
            "expanded"@,
        ) || crate::text::contains_text(s, "remaster"@) || crate::text::contains_text(
            s,
            "anniversary"@,
        ) || crate::text::contains_text(s, "bonus"@) || crate::text::contains_text(s, "reissue"@)
            || crate::text::contains_text(s, "special"@),
{
    let words = edition_words();
    assert(words[0] == "deluxe"@ && words[1] == "edition"@ && words[2] == "expanded"@);
    assert(words[3] == "remaster"@ && words[4] == "anniversary"@ && words[5] == "bonus"@);
    assert(words[6] == "reissue"@ && words[7] == "special"@);
    if names_edition(s) {
        let i = choose|i: int|
            0 <= i < words.len() && crate::text::contains_text(s, #[trigger] words[i]);
        assert(i == 0 || i == 1 || i == 2 || i == 3 || i == 4 || i == 5 || i == 6 || i == 7);
    }
}

/// A text is split at the last bracket of the kind that it ends with: put together again the parts
/// make the text, and no such bracket is left inside. It is not split where it does not end with a
/// closing bracket, or has no opening one of the kind.
pub proof fn law_qualifiers_are_what_stands_in_the_last_bracket(s: Seq<char>)
    ensures
        match qualifier_split(s) {
            Some(parts) => {
                ||| s == parts.0 + seq!['('] + parts.1 + seq![')'] && !parts.1.contains('(')
                ||| s == parts.0 + seq!['['] + parts.1 + seq![']'] && !parts.1.contains('[')
            },
            None => {
                &&& s.len() > 0 && s.last() == ')' ==> !s.contains('(')
                &&& s.len() > 0 && s.last() == ']' ==> !s.contains('[')
            },
        },
{
    lemma_last_position(s, '(');
    lemma_last_position(s, '[');
    if let Some(parts) = qualifier_split(s) {
        let opening = if s.last() == ')' {
            '('
        } else {
            '['
        };
        let at = last_position(s, opening);
        assert(s =~= parts.0 + seq![opening] + parts.1 + seq![s.last()]);
        if parts.1.contains(opening) {
            let i = choose|i: int| 0 <= i < parts.1.len() && parts.1[i] == opening;
            assert(s[at + 1 + i] == opening);
        }
    }
}

/// Of an album's name everything counts but the brackets at its end that mark an edition: a name
/// that does not end with such a bracket is compared as any other text.
pub proof fn law_other_brackets_of_an_album_count(album: Seq<char>)
    requires
        match qualifier_split(crate::text::trimmed(album)) {
            Some(parts) => !names_edition(normalized(parts.1)),
            None => true,
        },
    ensures
        normalized_album(album) == normalized(crate::text::trimmed(album)),
{
}

/// All letters and numbers of a lower case remain, in their order.
pub proof fn law_letters_and_numbers_all_remain(a: Seq<char>, b: Seq<char>)
    ensures
        letters_and_numbers(a + b) == letters_and_numbers(a) + letters_and_numbers(b),
        (forall|i: int| 0 <= i < b.len() ==> is_letter_or_number(#[trigger] b[i]))
            ==> letters_and_numbers(b) == b,
        (forall|i: int| 0 <= i < b.len() ==> !is_letter_or_number(#[trigger] b[i]))
            ==> letters_and_numbers(b) == Seq::<char>::empty(),
    decreases b.len(),
{
    if b.len() == 0 {
        assert(a + b =~= a);
        assert(letters_and_numbers(a) + letters_and_numbers(b) =~= letters_and_numbers(a));
        assert(letters_and_numbers(b) =~= Seq::<char>::empty());
    } else {
        let less = b.drop_last();
        law_letters_and_numbers_all_remain(a, less);
        assert((a + b).drop_last() =~= a + less);
        assert(letters_and_numbers(a + b) =~= letters_and_numbers(a) + letters_and_numbers(b));
        if forall|i: int| 0 <= i < b.len() ==> is_letter_or_number(#[trigger] b[i]) {
            assert forall|i: int| 0 <= i < less.len() implies is_letter_or_number(
                #[trigger] less[i],
            ) by {
                assert(less[i] == b[i]);
            }
            assert(is_letter_or_number(b[b.len() - 1]));
            assert(letters_and_numbers(b) =~= b);
        }
        if forall|i: int| 0 <= i < b.len() ==> !is_letter_or_number(#[trigger] b[i]) {
            assert forall|i: int| 0 <= i < less.len() implies !is_letter_or_number(
                #[trigger] less[i],
            ) by {
                assert(less[i] == b[i]);
            }
            assert(!is_letter_or_number(b[b.len() - 1]));
        }
    }
}

/// A character that is no mark contributes the letters and numbers of its lower case, and one that
/// is a mark nothing.
pub proof fn law_characters_contribute_their_lower_case(c: char)
    ensures
        is_mark(c) ==> folded(seq![c]) == Seq::<char>::empty(),
        !is_mark(c) ==> folded(seq![c]) == letters_and_numbers(lowercase(c)),
{
    assert(seq![c].drop_last() =~= Seq::<char>::empty());
    reveal_with_fuel(folded, 2);
    assert(Seq::<char>::empty() + folded_char(c) =~= folded_char(c));
    assert(folded(seq![c]) =~= folded_char(c));
}

/// The ASCII letters and digits of an ASCII text remain in their order, in lower case, and nothing
/// else does.
pub proof fn law_ascii_texts_keep_their_letters(a: Seq<char>, c: char)
    ensures
        'a' <= c <= 'z' || '0' <= c <= '9' ==> ascii_folded(a.push(c)) == ascii_folded(a).push(c),
        'A' <= c <= 'Z' ==> ascii_folded(a.push(c)) == ascii_folded(a).push(
            (c as u32 + 32) as char,
        ),
        !('a' <= c <= 'z' || '0' <= c <= '9' || 'A' <= c <= 'Z') ==> ascii_folded(a.push(c))
            == ascii_folded(a),
        ascii_folded(Seq::empty()) == Seq::<char>::empty(),
{
    assert(a.push(c).drop_last() =~= a);
}

/// A backslash, a quotation mark and a colon are escaped with one backslash each; every other
/// character stands for itself.
pub proof fn law_three_characters_are_escaped(c: char)
    ensures
        c == '\\' || c == '"' || c == ':' ==> escaped(seq![c]) == seq!['\\', c],
        c != '\\' && c != '"' && c != ':' ==> escaped(seq![c]) == seq![c],
{
    assert(seq![c].drop_last() =~= Seq::<char>::empty());
    reveal_with_fuel(escaped, 2);
    assert(escaped(seq![c]) =~= escaped_char(c));
}

/// A search looks for the title as a recording and for all artists, with blanks between, as the
/// names of artists; both in quotation marks, with nothing else around.
pub proof fn law_queries_ask_for_title_and_artists(track: crate::domain::RawTrackView)
    ensures
        query_for(track) == "recording:\""@ + escaped(track.title) + "\" AND artistname:\""@
            + escaped(crate::text::joined(track.artists, " "@)) + "\""@,
{
}

/// A recording that was found becomes a candidate field by field: its own title, identifier,
/// duration and score, each credit with both of its names, every release with its title, the first
/// release, and the first release group that a release names.
pub proof fn law_recordings_become_candidates(recording: FoundRecording)
    ensures
        ({
            let candidate = candidate_for(recording);
            &&& candidate.title == recording.title@
            &&& candidate.recording_id == recording.id@
            &&& recording.length is Some ==> candidate.duration_ms == Some(
                recording.length->0 as u64,
            )
            &&& recording.length is None ==> candidate.duration_ms is None
            &&& recording.score is Some ==> candidate.score == recording.score->0
            &&& recording.score is None ==> candidate.score == 0
            &&& recording.artist_credit is None ==> candidate.artists.len() == 0
            &&& recording.artist_credit is Some ==> {
                let credits = recording.artist_credit->0@;
                &&& candidate.artists.len() == 2 * credits.len()
                &&& forall|i: int|
                    0 <= i < credits.len() ==> candidate.artists[2 * i] == (
                    #[trigger] credits[i]).name@ && candidate.artists[2 * i + 1]
                        == credits[i].artist_name@
            }
            &&& recording.releases is None || recording.releases->0@.len() == 0 ==>
                candidate.albums.len() == 0 && candidate.release_id is None
                && candidate.release_group_id is None
            &&& recording.releases is Some ==> {
                let releases = recording.releases->0@;
                &&& candidate.albums.len() == releases.len()
                &&& forall|i: int|
                    0 <= i < releases.len() ==> candidate.albums[i] == (
                    #[trigger] releases[i]).title@
                &&& releases.len() > 0 ==> candidate.release_id == Some(releases[0].id@)
                &&& forall|i: int|
                    #![trigger releases[i]]
                    0 <= i < releases.len() && releases[i].release_group_id is Some && (forall|
                        j: int,
                    |
                        0 <= j < i ==> (#[trigger] releases[j]).release_group_id is None)
                        ==> candidate.release_group_id == Some(releases[i].release_group_id->0@)
                &&& (forall|j: int|
                    0 <= j < releases.len() ==> (#[trigger] releases[j]).release_group_id is None)
                    ==> candidate.release_group_id is None
            }
        }),
{
    if let Some(releases) = recording.releases {
        let all = releases@;
        assert forall|i: int|
            #![trigger all[i]]
            0 <= i < all.len() && all[i].release_group_id is Some && (forall|j: int|
                0 <= j < i ==> (#[trigger] all[j]).release_group_id is None) implies first_group(
            all,
        ) == Some(all[i].release_group_id->0@) by {
            lemma_first_group(all, i);
        }
        if forall|j: int| 0 <= j < all.len() ==> (#[trigger] all[j]).release_group_id is None {
            lemma_first_group(all, all.len() as int);
        }
    }
    if let Some(credits) = recording.artist_credit {
        let names = credited_names(credits@);
        assert forall|i: int| 0 <= i < credits@.len() implies names[2 * i] == (
        #[trigger] credits@[i]).name@ && names[2 * i + 1] == credits@[i].artist_name@ by {
            assert((2 * i) / 2 == i && (2 * i) % 2 == 0 && (2 * i + 1) / 2 == i && (2 * i + 1) % 2
                == 1);
        }
    }
}

proof fn lemma_first_group(releases: Seq<FoundRelease>, at: int)
    requires
        0 <= at <= releases.len(),
        forall|j: int| 0 <= j < at ==> (#[trigger] releases[j]).release_group_id is None,
    ensures
        at == releases.len() ==> first_group(releases) is None,
        at < releases.len() && releases[at].release_group_id is Some ==> first_group(releases)
            == Some(releases[at].release_group_id->0@),
    decreases at,
{
    if at > 0 {
        let rest = releases.skip(1);
        assert(releases[0].release_group_id is None);
        assert forall|j: int| 0 <= j < at - 1 implies (#[trigger] rest[j]).release_group_id is None by {
            assert(rest[j] == releases[j + 1]);
        }
        lemma_first_group(rest, at - 1);
        if at < releases.len() {
            assert(rest[at - 1] == releases[at]);
        }
    }
}

/// Views show every field as it is.
pub proof fn law_views_show_every_field(candidate: Candidate, key: TrackKey)
    ensures
        candidate@.title == candidate.title@ && candidate@.duration_ms == candidate.duration_ms
            && candidate@.score == candidate.score && candidate@.recording_id
            == candidate.recording_id@,
        candidate@.artists.len() == candidate.artists@.len() && candidate@.albums.len()
            == candidate.albums@.len(),
        forall|i: int|
            0 <= i < candidate.artists@.len() ==> #[trigger] candidate@.artists[i]
                == candidate.artists@[i]@,
        forall|i: int|
            0 <= i < candidate.albums@.len() ==> #[trigger] candidate@.albums[i]
                == candidate.albums@[i]@,
        crate::domain::shows(candidate@.release_id, candidate.release_id),
        crate::domain::shows(candidate@.release_group_id, candidate.release_group_id),
        key@.title == key.title@ && key@.duration_ms == key.duration_ms,
        key@.artists.len() == key.artists@.len(),
        forall|i: int|
            0 <= i < key.artists@.len() ==> #[trigger] key@.artists[i] == key.artists@[i]@,
        crate::domain::shows(key@.album, key.album),
{
}

/// Candidates are shown and prepared one by one, in their order and all of them.
pub proof fn law_candidates_are_taken_one_by_one(
    candidates: Seq<Candidate>,
    views: Seq<CandidateView>,
    recordings: Seq<FoundRecording>,
)
    ensures
        candidate_views(candidates).len() == candidates.len(),
        forall|i: int|
            0 <= i < candidates.len() ==> #[trigger] candidate_views(candidates)[i]
                == candidates[i]@,
        candidate_keys(views).len() == views.len(),
        forall|i: int|
            0 <= i < views.len() ==> #[trigger] candidate_keys(views)[i] == candidate_key(views[i]),
        candidates_for(recordings).len() == recordings.len(),
        forall|i: int|
            0 <= i < recordings.len() ==> #[trigger] candidates_for(recordings)[i]
                == candidate_for(recordings[i]),
{
}

} // verus!
