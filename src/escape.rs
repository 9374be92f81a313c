//! Removal of terminal control sequences of the form `ESC [ ... letter`.
use vstd::prelude::*;

verus! {

/// The escape character that opens a control sequence.
pub const ESC: char = '\x1B';

pub open spec fn is_ascii_letter(c: char) -> bool {
    ('a' <= c && c <= 'z') || ('A' <= c && c <= 'Z')
}

/// Index of the first ASCII letter of `s`, provided no line feed comes before
/// it: the shortest run that a lazy `.*?` followed by `[A-Za-z]` can match.
pub open spec fn first_letter(s: Seq<char>) -> Option<nat>
    decreases s.len(),
{
    if s.len() == 0 {
        None
    } else if is_ascii_letter(s[0]) {
        Some(0)
    } else if s[0] == '\n' {
        None
    } else {
        match first_letter(s.drop_first()) {
            Some(k) => Some(k + 1),
            None => None,
        }
    }
}

/// Length of the control sequence that starts `s`, if one does.
pub open spec fn escape_len(s: Seq<char>) -> Option<nat> {
    if s.len() >= 2 && s[0] == ESC && s[1] == '[' {
        match first_letter(s.subrange(2, s.len() as int)) {
            Some(k) => Some(k + 3),
            None => None,
        }
    } else {
        None
    }
}

/// `s` with every control sequence removed, scanning from the left and
/// resuming after each removed sequence.
pub open spec fn strip_escapes(s: Seq<char>) -> Seq<char>
    decreases s.len(),
{
    if s.len() == 0 {
        s
    } else {
        match escape_len(s) {
            Some(n) => if n <= s.len() {
                strip_escapes(s.subrange(n as int, s.len() as int))
            } else {
                s
            },
            None => seq![s[0]] + strip_escapes(s.drop_first()),
        }
    }
}

/// `s` holds neither a carriage return nor a line feed.
pub open spec fn no_line_breaks(s: Seq<char>) -> bool {
    forall|i: int| 0 <= i < s.len() ==> #[trigger] s[i] != '\r' && s[i] != '\n'
}

/// Removing control sequences brings in no line break.
pub proof fn lemma_strip_keeps_single_line(s: Seq<char>)
    requires
        no_line_breaks(s),
    ensures
        no_line_breaks(strip_escapes(s)),
    decreases s.len(),
{
    if s.len() > 0 {
        match escape_len(s) {
            Some(n) => {
                if n <= s.len() {
                    let rest = s.subrange(n as int, s.len() as int);
                    assert forall|i: int| 0 <= i < rest.len() implies #[trigger] rest[i] != '\r' && rest[i] != '\n' by {
                        assert(rest[i] == s[i + n]);
                    }
                    lemma_strip_keeps_single_line(rest);
                }
            },
            None => {
                let rest = s.drop_first();
                assert forall|i: int| 0 <= i < rest.len() implies #[trigger] rest[i] != '\r' && rest[i] != '\n' by {
                    assert(rest[i] == s[i + 1]);
                }
                lemma_strip_keeps_single_line(rest);
                let r = seq![s[0]] + strip_escapes(rest);
                assert(s[0] != '\r' && s[0] != '\n');
                assert forall|i: int| 0 <= i < r.len() implies #[trigger] r[i] != '\r' && r[i] != '\n' by {
                    if i > 0 {
                        assert(r[i] == strip_escapes(rest)[i - 1]);
                    }
                }
            },
        }
    }
}

/// Relies on regex::Regex::new and Regex::replace_all: for the pattern
/// `\x1B\[(.*?)[A-Za-z]` (`.` matching anything but a line feed, `*?` lazy,
/// leftmost-first matches, none of them empty) replacing every match with
/// nothing gives `strip_escapes`. The pattern is valid, so `new` does not fail.
#[verifier::external_body]
fn regex_remove_all(pattern: &str, text: &str) -> (r: String)
    requires
        pattern@ == "\x1B\\[(.*?)[A-Za-z]"@,
    ensures
        r@ == strip_escapes(text@),
{
    let re = regex::Regex::new(pattern).unwrap();
    re.replace_all(text, "").into_owned()
}

/// Removes every `ESC [ ... letter` control sequence from `text`.
pub fn remove_escapes(text: &str) -> (r: String)
    ensures
        r@ == strip_escapes(text@),
{
    regex_remove_all("\x1B\\[(.*?)[A-Za-z]", text)
}

} // verus!
