//! A small text holder used when building user-facing messages.
//!
//! The rules that are plain character work stand here, verified; the
//! fixups whose patterns and replacements run through the `regex` crate
//! stay with the shell that owns them.

use vstd::prelude::*;

verus! {

/// Whether `c` carries the White_Space property: the characters that
/// both `char::is_whitespace` and a whitespace character class match.
pub open spec fn is_ws(c: char) -> bool {
    ('\u{0009}' <= c && c <= '\u{000D}') || c == ' ' || c == '\u{0085}' || c == '\u{00A0}' || c
        == '\u{1680}' || ('\u{2000}' <= c && c <= '\u{200A}') || c == '\u{2028}' || c == '\u{2029}'
        || c == '\u{202F}' || c == '\u{205F}' || c == '\u{3000}'
}

/// The text from position `i` on, with whitespace runs between words
/// collapsed to single spaces and whitespace at either end dropped.
/// `started` records whether a word was already written, `pending`
/// whether whitespace has been seen since.
pub open spec fn tidy_from(s: Seq<char>, i: int, started: bool, pending: bool) -> Seq<char>
    decreases s.len() - i,
{
    if i < 0 || i >= s.len() {
        Seq::empty()
    } else if is_ws(s[i]) {
        tidy_from(s, i + 1, started, true)
    } else {
        let sep: Seq<char> = if started && pending {
            seq![' ']
        } else {
            Seq::empty()
        };
        sep + seq![s[i]] + tidy_from(s, i + 1, true, false)
    }
}

/// The whole text, trimmed and with inner whitespace runs collapsed.
pub open spec fn spec_tidy(s: Seq<char>) -> Seq<char> {
    tidy_from(s, 0, false, false)
}

/// Checks `is_ws` on a machine character.
fn is_ws_exec(c: char) -> (b: bool)
    ensures
        b == is_ws(c),
{
    ('\u{0009}' <= c && c <= '\u{000D}') || c == ' ' || c == '\u{0085}' || c == '\u{00A0}' || c
        == '\u{1680}' || ('\u{2000}' <= c && c <= '\u{200A}') || c == '\u{2028}' || c == '\u{2029}'
        || c == '\u{202F}' || c == '\u{205F}' || c == '\u{3000}'
}

/// A piece of text to be tidied before it is shown to a user.
#[derive(Debug)]
pub struct GrammarPolice {
    /// The held text.
    pub text: String,
}

impl GrammarPolice {
    /// Wraps a copy of `text`.
    pub fn new(text: &str) -> (g: Self)
        ensures
            g.text@ == text@,
    {
        Self { text: text.to_owned() }
    }

    /// Hands the held text back.
    pub fn into_inner(self) -> (s: String)
        ensures
            s@ == self.text@,
    {
        self.text
    }

    /// Makes sure punctuation is followed by a space.  No rule inserts one
    /// at present, so the text is left exactly as it is.
    pub fn ensure_space_after_punctuation(&mut self)
        ensures
            final(self).text@ == old(self).text@,
    {
    }

    /// Trims the text and collapses every inner whitespace run to a
    /// single space.
    pub fn trim_whitespace(&mut self)
        ensures
            final(self).text@ == spec_tidy(old(self).text@),
    {
        let src = self.text.clone();
        let s = src.as_str();
        let n = s.unicode_len();
        let mut out = String::new();
        let mut started = false;
        let mut pending = false;
        let mut i: usize = 0;
        while i < n
            invariant
                i <= n,
                n == s@.len(),
                s@ == old(self).text@,
                spec_tidy(old(self).text@) == out@ + tidy_from(s@, i as int, started, pending),
            decreases n - i,
        {
            let c = s.get_char(i);
            if is_ws_exec(c) {
                pending = true;
            } else {
                if started && pending {
                    out.append(" ");
                    proof {
                        reveal_strlit(" ");
                    }
                }
                out.append(s.substring_char(i, i + 1));
                started = true;
                pending = false;
            }
            proof {
                assert(out@ + tidy_from(s@, i as int + 1, started, pending) =~= spec_tidy(
                    old(self).text@,
                ));
            }
            i = i + 1;
        }
        proof {
            assert(out@ =~= spec_tidy(old(self).text@));
        }
        self.text = out;
    }
}

} // verus!
