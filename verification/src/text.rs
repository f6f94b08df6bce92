//! Character classes and the text predicates that the typesetting queries use
//! on paragraph text.
use vstd::prelude::*;
use vstd::string::StrSliceExecFns;

verus! {

/// A character that is painted: above the C0 controls and not the object
/// replacement character that stands for an inline object.
pub open spec fn spec_visible_char(c: char) -> bool {
    c > '\u{001F}' && c != '\u{FFFC}'
}

/// The characters with the Unicode `White_Space` property.
pub open spec fn spec_white_space(c: char) -> bool {
    ||| '\u{0009}' <= c <= '\u{000D}'
    ||| c == ' '
    ||| c == '\u{0085}'
    ||| c == '\u{00A0}'
    ||| c == '\u{1680}'
    ||| '\u{2000}' <= c <= '\u{200A}'
    ||| c == '\u{2028}'
    ||| c == '\u{2029}'
    ||| c == '\u{202F}'
    ||| c == '\u{205F}'
    ||| c == '\u{3000}'
}

/// The characters of the Unicode general category `Cc`.
pub open spec fn spec_control_char(c: char) -> bool {
    c <= '\u{001F}' || ('\u{007F}' <= c <= '\u{009F}')
}

/// Whether a character is numeric, as `char::is_numeric` decides it.
pub uninterp spec fn spec_std_char_is_numeric(c: char) -> bool;

/// `char::is_whitespace`: true exactly for the characters with the Unicode
/// `White_Space` property, which the contract lists.
#[verifier::external_body]
pub fn char_is_whitespace(c: char) -> (r: bool)
    ensures
        r == spec_white_space(c),
{
    c.is_whitespace()
}

/// `char::is_numeric`: true for the characters of the general categories
/// Nd, Nl and No.  The contract names that result; of the ASCII range it states
/// that exactly the digits `0`..`9` are numeric.
#[verifier::external_body]
pub fn char_is_numeric(c: char) -> (r: bool)
    ensures
        r == spec_std_char_is_numeric(c),
        c <= '\u{007F}' ==> (r <==> '0' <= c <= '9'),
{
    c.is_numeric()
}

/// `char::is_control`: true exactly for the general category `Cc`.
#[verifier::external_body]
pub fn char_is_control(c: char) -> (r: bool)
    ensures
        r == spec_control_char(c),
{
    c.is_control()
}

/// Some character of the text is visible.
pub open spec fn spec_has_visible(t: Seq<char>) -> bool {
    exists|i: int| 0 <= i < t.len() && spec_visible_char(#[trigger] t[i])
}

/// A visible character that is not white space.
pub open spec fn spec_visible_non_ws_char(c: char) -> bool {
    spec_visible_char(c) && !spec_white_space(c)
}

/// Some character of the text is visible and not white space.
pub open spec fn spec_has_non_whitespace(t: Seq<char>) -> bool {
    exists|i: int| 0 <= i < t.len() && spec_visible_non_ws_char(#[trigger] t[i])
}

/// The text is empty once white space is trimmed from both ends.
pub open spec fn spec_blank(t: Seq<char>) -> bool {
    forall|i: int| 0 <= i < t.len() ==> spec_white_space(#[trigger] t[i])
}

/// The first position at or after `i` that does not hold white space.
pub open spec fn spec_skip_ws(t: Seq<char>, i: int) -> int
    decreases t.len() - i,
{
    if 0 <= i < t.len() && spec_white_space(t[i]) {
        spec_skip_ws(t, i + 1)
    } else {
        i
    }
}

/// The text with leading white space removed.
pub open spec fn spec_trim_start(t: Seq<char>) -> Seq<char> {
    t.subrange(spec_skip_ws(t, 0), t.len() as int)
}

/// The number of visible, non-white-space characters in the text.
pub open spec fn spec_count_non_ws(t: Seq<char>) -> nat
    decreases t.len(),
{
    if t.len() == 0 {
        0
    } else {
        spec_count_non_ws(t.drop_last()) + if spec_visible_non_ws_char(t.last()) {
            1nat
        } else {
            0nat
        }
    }
}

/// Whether some character of the text is visible.
pub fn has_visible(t: &Vec<char>) -> (r: bool)
    ensures
        r == spec_has_visible(t@),
{
    let mut i: usize = 0;
    while i < t.len()
        invariant
            i <= t@.len(),
            forall|j: int| 0 <= j < i ==> !spec_visible_char(#[trigger] t@[j]),
        decreases t@.len() - i,
    {
        let c = t[i];
        if c > '\u{001F}' && c != '\u{FFFC}' {
            return true;
        }
        i += 1;
    }
    false
}

/// Whether some character of the text is visible and not white space.
pub fn has_non_whitespace(t: &Vec<char>) -> (r: bool)
    ensures
        r == spec_has_non_whitespace(t@),
{
    let mut i: usize = 0;
    while i < t.len()
        invariant
            i <= t@.len(),
            forall|j: int| 0 <= j < i ==> !spec_visible_non_ws_char(#[trigger] t@[j]),
        decreases t@.len() - i,
    {
        let c = t[i];
        if c > '\u{001F}' && c != '\u{FFFC}' && !char_is_whitespace(c) {
            return true;
        }
        i += 1;
    }
    false
}

/// Whether the text holds nothing but white space.
pub fn is_blank(t: &Vec<char>) -> (r: bool)
    ensures
        r == spec_blank(t@),
{
    let mut i: usize = 0;
    while i < t.len()
        invariant
            i <= t@.len(),
            forall|j: int| 0 <= j < i ==> spec_white_space(#[trigger] t@[j]),
        decreases t@.len() - i,
    {
        if !char_is_whitespace(t[i]) {
            return false;
        }
        i += 1;
    }
    true
}

/// The position of the first character at or after `from` that is not white space.
pub fn skip_whitespace(t: &Vec<char>, from: usize) -> (r: usize)
    requires
        from <= t@.len(),
    ensures
        r as int == spec_skip_ws(t@, from as int),
        from <= r <= t@.len(),
{
    let mut k = from;
    while k < t.len() && char_is_whitespace(t[k])
        invariant
            from <= k <= t@.len(),
            spec_skip_ws(t@, from as int) == spec_skip_ws(t@, k as int),
        decreases t@.len() - k,
    {
        k += 1;
    }
    k
}

/// The number of visible, non-white-space characters in the text.
pub fn count_non_whitespace(t: &Vec<char>) -> (r: usize)
    ensures
        r == spec_count_non_ws(t@),
{
    let mut n: usize = 0;
    let mut i: usize = 0;
    while i < t.len()
        invariant
            i <= t@.len(),
            n == spec_count_non_ws(t@.take(i as int)),
            n <= i,
        decreases t@.len() - i,
    {
        assert(t@.take(i + 1).drop_last() =~= t@.take(i as int));
        let c = t[i];
        if c > '\u{001F}' && c != '\u{FFFC}' && !char_is_whitespace(c) {
            n += 1;
        }
        i += 1;
    }
    assert(t@.take(t@.len() as int) =~= t@);
    n
}

/// How one character of a line is shown in a one-line debug excerpt: line
/// breaks and tabs escaped, an inline object as `<TAC>`, any other control
/// character as a space, the rest as itself.
pub open spec fn spec_brief_char(c: char) -> Seq<char> {
    if c == '\r' {
        seq!['\\', 'r']
    } else if c == '\n' {
        seq!['\\', 'n']
    } else if c == '\t' {
        seq!['\\', 't']
    } else if c == '\u{FFFC}' {
        seq!['<', 'T', 'A', 'C', '>']
    } else if spec_control_char(c) {
        seq![' ']
    } else {
        seq![c]
    }
}

/// The excerpt of a whole text: each character shown as `spec_brief_char` shows it.
pub open spec fn spec_brief_text(t: Seq<char>) -> Seq<char>
    decreases t.len(),
{
    if t.len() == 0 {
        Seq::empty()
    } else {
        spec_brief_text(t.drop_last()) + spec_brief_char(t.last())
    }
}

/// The excerpt of the first `max` characters, followed by an ellipsis when the
/// text is longer.
pub open spec fn spec_debug_brief_line_text(t: Seq<char>, max: nat) -> Seq<char> {
    if t.len() > max {
        spec_brief_text(t.take(max as int)) + seq!['…']
    } else {
        spec_brief_text(t)
    }
}

/// `String::push`: appends the character to the string.
#[verifier::external_body]
fn string_push(s: &mut String, c: char)
    ensures
        final(s)@ == old(s)@.push(c),
{
    s.push(c);
}

/// Appends the excerpt of one character.
fn push_brief_char(out: &mut String, c: char)
    ensures
        final(out)@ == old(out)@ + spec_brief_char(c),
{
    if c == '\r' {
        string_push(out, '\\');
        string_push(out, 'r');
    } else if c == '\n' {
        string_push(out, '\\');
        string_push(out, 'n');
    } else if c == '\t' {
        string_push(out, '\\');
        string_push(out, 't');
    } else if c == '\u{FFFC}' {
        string_push(out, '<');
        string_push(out, 'T');
        string_push(out, 'A');
        string_push(out, 'C');
        string_push(out, '>');
    } else if char_is_control(c) {
        string_push(out, ' ');
    } else {
        string_push(out, c);
    }
    assert(final(out)@ =~= old(out)@ + spec_brief_char(c));
}

/// A one-line excerpt of at most `max_chars` characters of the text for
/// diagnostics: `\r`, `\n` and `\t` escaped, inline objects shown as `<TAC>`,
/// other control characters as spaces, and `…` appended when the text was cut.
pub fn debug_brief_line_text(text: &str, max_chars: usize) -> (r: String)
    ensures
        r@ == spec_debug_brief_line_text(text@, max_chars as nat),
{
    let n = text.unicode_len();
    let m = if max_chars < n {
        max_chars
    } else {
        n
    };
    let mut out = String::new();
    let mut i: usize = 0;
    while i < m
        invariant
            i <= m,
            m <= n,
            n == text@.len(),
            m == if max_chars < n { max_chars } else { n },
            out@ == spec_brief_text(text@.take(i as int)),
        decreases m - i,
    {
        assert(text@.take(i + 1).drop_last() =~= text@.take(i as int));
        let ch = text.get_char(i);
        push_brief_char(&mut out, ch);
        i += 1;
    }
    if n > max_chars {
        string_push(&mut out, '…');
    } else {
        assert(text@.take(n as int) =~= text@);
    }
    out
}

} // verus!
