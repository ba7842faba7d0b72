//! Text helpers: comparing, trimming and taking strings apart.

use vstd::prelude::*;
use vstd::string::*;

verus! {

/// Whether a character has the Unicode `White_Space` property.
pub open spec fn is_white_space(c: char) -> bool {
    ||| '\u{9}' <= c <= '\u{d}'
    ||| c == '\u{20}'
    ||| c == '\u{85}'
    ||| c == '\u{a0}'
    ||| c == '\u{1680}'
    ||| '\u{2000}' <= c <= '\u{200a}'
    ||| c == '\u{2028}'
    ||| c == '\u{2029}'
    ||| c == '\u{202f}'
    ||| c == '\u{205f}'
    ||| c == '\u{3000}'
}

/// `char::is_whitespace` of the standard library. It is documented to tell whether
/// the character has the Unicode `White_Space` property, which is claimed here as
/// the list of the characters that have it.
pub assume_specification[ char::is_whitespace ](c: char) -> (r: bool)
    ensures
        r == is_white_space(c),
;

/// `String::push` of the standard library: the character is appended at the end.
pub assume_specification[ String::push ](s: &mut String, c: char)
    ensures
        final(s)@ == old(s)@.push(c),
;

/// Whether a text holds nothing but white space, so that nothing is left of it
/// after trimming.
pub open spec fn blank(s: Seq<char>) -> bool {
    forall|i: int| 0 <= i < s.len() ==> #[trigger] is_white_space(s[i])
}

/// A text without the slashes at its end.
pub open spec fn without_trailing_slashes(s: Seq<char>) -> Seq<char>
    decreases s.len(),
{
    if s.len() > 0 && s.last() == '/' {
        without_trailing_slashes(s.drop_last())
    } else {
        s
    }
}

/// A character with an ASCII capital made small.
pub open spec fn ascii_lower(c: char) -> char {
    if 'A' <= c <= 'Z' {
        ((c as u8) + 32) as u8 as char
    } else {
        c
    }
}

/// A text with its ASCII capitals made small.
pub open spec fn ascii_lowercase(s: Seq<char>) -> Seq<char> {
    s.map_values(|c: char| ascii_lower(c))
}

/// The characters of a string.
pub(crate) fn chars_of(s: &str) -> (chars: Vec<char>)
    ensures
        chars@ == s@,
{
    let mut chars: Vec<char> = Vec::new();
    for c in it: s.chars()
        invariant
            it.seq() == s@,
            chars@ == s@.take(it.index() as int),
    {
        chars.push(c);
    }
    assert(s@.take(s@.len() as int) == s@);
    chars
}

/// Whether two strings are the same text.
pub(crate) fn same_text(a: &str, b: &str) -> (same: bool)
    ensures
        same == (a@ == b@),
{
    let left: String = a.to_owned();
    let right: String = b.to_owned();
    left == right
}

/// Whether the text starts with a prefix.
pub(crate) fn starts_with(chars: &Vec<char>, prefix: &str) -> (yes: bool)
    ensures
        yes == prefix@.is_prefix_of(chars@),
{
    let wanted: Vec<char> = chars_of(prefix);
    if wanted.len() > chars.len() {
        return false;
    }
    let mut i: usize = 0;
    while i < wanted.len()
        invariant
            wanted@ == prefix@,
            wanted.len() <= chars.len(),
            i <= wanted.len(),
            forall|j: int| 0 <= j < i ==> wanted@[j] == chars@[j],
        decreases wanted.len() - i,
    {
        if wanted[i] != chars[i] {
            assert(chars@.subrange(0, prefix@.len() as int)[i as int] == chars@[i as int]);
            return false;
        }
        i += 1;
    }
    assert(prefix@ =~= chars@.subrange(0, prefix@.len() as int));
    true
}

/// The characters of a string, ASCII capitals made small.
pub(crate) fn lowercase_chars_of(s: &str) -> (chars: Vec<char>)
    ensures
        chars@ == ascii_lowercase(s@),
{
    let given: Vec<char> = chars_of(s);
    let mut chars: Vec<char> = Vec::new();
    let mut i: usize = 0;
    while i < given.len()
        invariant
            given@ == s@,
            i <= given.len(),
            chars@ == ascii_lowercase(s@).take(i as int),
        decreases given.len() - i,
    {
        let c: char = given[i];
        if 'A' <= c && c <= 'Z' {
            chars.push(((c as u8) + 32) as char);
        } else {
            chars.push(c);
        }
        i += 1;
    }
    assert(ascii_lowercase(s@).take(s@.len() as int) == ascii_lowercase(s@));
    chars
}

/// Whether a string holds nothing but white space.
pub(crate) fn is_blank(s: &str) -> (yes: bool)
    ensures
        yes == blank(s@),
{
    let chars: Vec<char> = chars_of(s);
    let mut i: usize = 0;
    while i < chars.len()
        invariant
            chars@ == s@,
            i <= chars.len(),
            forall|j: int| 0 <= j < i ==> #[trigger] is_white_space(s@[j]),
        decreases chars.len() - i,
    {
        if !chars[i].is_whitespace() {
            return false;
        }
        i += 1;
    }
    true
}

/// A string without the slashes at its end.
pub(crate) fn trim_end_slashes(s: &str) -> (trimmed: &str)
    ensures
        trimmed@ == without_trailing_slashes(s@),
{
    let chars: Vec<char> = chars_of(s);
    let mut end: usize = chars.len();
    assert(s@.take(s@.len() as int) == s@);
    while end > 0 && chars[end - 1] == '/'
        invariant
            chars@ == s@,
            end <= chars.len(),
            without_trailing_slashes(s@.take(end as int)) == without_trailing_slashes(s@),
        decreases end,
    {
        assert(s@.take(end as int).drop_last() == s@.take(end - 1));
        end -= 1;
    }
    assert(without_trailing_slashes(s@.take(end as int)) == s@.take(end as int));
    assert(s@.take(end as int) == s@.subrange(0, end as int));
    s.substring_char(0, end)
}

/// Trimming the slashes at the end takes away slashes only, from the end only, and leaves
/// none there.
pub proof fn law_trimmed_slashes(s: Seq<char>)
    ensures
        ({
            let kept = without_trailing_slashes(s).len() as int;
            &&& kept <= s.len()
            &&& forall|i: int| 0 <= i < kept ==> #[trigger] without_trailing_slashes(s)[i] == s[i]
            &&& forall|i: int| kept <= i < s.len() ==> #[trigger] s[i] == '/'
            &&& kept > 0 ==> s[kept - 1] != '/'
        }),
    decreases s.len(),
{
    if s.len() > 0 && s.last() == '/' {
        law_trimmed_slashes(s.drop_last());
        let kept = without_trailing_slashes(s).len() as int;
        assert forall|i: int| kept <= i < s.len() implies #[trigger] s[i] == '/' by {
            if i < s.len() - 1 {
                assert(s.drop_last()[i] == s[i]);
            }
        }
    }
}

/// A text is blank just where each of its characters is white space: nothing else in it
/// and no order of them makes a difference.
pub proof fn law_blank(a: Seq<char>, b: Seq<char>, c: char)
    ensures
        blank(Seq::empty()),
        blank(seq![c]) <==> is_white_space(c),
        blank(a + b) <==> blank(a) && blank(b),
{
    if blank(seq![c]) {
        assert(is_white_space(seq![c][0]));
    }
    if blank(a + b) {
        assert forall|i: int| 0 <= i < a.len() implies #[trigger] is_white_space(a[i]) by {
            assert(is_white_space((a + b)[i]));
        }
        assert forall|i: int| 0 <= i < b.len() implies #[trigger] is_white_space(b[i]) by {
            assert(is_white_space((a + b)[a.len() + i]));
        }
    }
    if blank(a) && blank(b) {
        assert forall|i: int| 0 <= i < (a + b).len() implies #[trigger] is_white_space(
            (a + b)[i],
        ) by {
            if i < a.len() {
                assert(is_white_space(a[i]));
            } else {
                assert(is_white_space(b[i - a.len()]));
            }
        }
    }
}

/// White space is the space, the characters from the tab to the carriage return, and those
/// beyond ASCII that Unicode counts in, by their numbers.
pub proof fn law_white_space(c: char)
    ensures
        is_white_space(c) <==> {
            ||| c as int == 32
            ||| 9 <= c as int <= 13
            ||| c as int == 133 || c as int == 160 || c as int == 5760
            ||| 8192 <= c as int <= 8202
            ||| c as int == 8232 || c as int == 8233 || c as int == 8239
            ||| c as int == 8287 || c as int == 12288
        },
{
}

/// Making a text small keeps its length, moves each ASCII capital to its small letter and
/// leaves every other character alone.
pub proof fn law_lowercase(s: Seq<char>)
    ensures
        ascii_lowercase(s).len() == s.len(),
        forall|i: int|
            0 <= i < s.len() && 65 <= s[i] as int <= 90 ==> (#[trigger] ascii_lowercase(
                s,
            )[i]) as int == s[i] as int + 32,
        forall|i: int|
            0 <= i < s.len() && !(65 <= s[i] as int <= 90) ==> #[trigger] ascii_lowercase(s)[i]
                == s[i],
{
}

} // verus!
