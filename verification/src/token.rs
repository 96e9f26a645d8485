use vstd::prelude::*;
use vstd::string::StrSliceExecFns;

verus! {

/// Whether a character beyond ASCII has the Unicode White_Space property.
pub uninterp spec fn is_space_beyond_ascii(c: char) -> bool;

/// Whether a character counts as whitespace when trimming token text: within
/// ASCII exactly the six White_Space characters, beyond ASCII whatever the
/// Unicode property says.
pub open spec fn is_space(c: char) -> bool {
    if (c as u32) < 128 {
        c == ' ' || c == '\t' || c == '\n' || c == '\r' || c == '\u{000B}' || c == '\u{000C}'
    } else {
        is_space_beyond_ascii(c)
    }
}

/// Relies on char::is_whitespace: true exactly for characters with the
/// Unicode White_Space property — within ASCII the six characters that
/// `is_space` lists.
#[verifier::external_body]
fn char_is_space(c: char) -> (r: bool)
    ensures
        r == is_space(c),
        (c as u32) >= 128 ==> r == is_space_beyond_ascii(c),
{
    c.is_whitespace()
}

/// Index of the first character that is not whitespace (the length if all are).
pub open spec fn first_non_space(s: Seq<char>) -> int
    decreases s.len(),
{
    if s.len() == 0 {
        0
    } else if is_space(s[0]) {
        1 + first_non_space(s.subrange(1, s.len() as int))
    } else {
        0
    }
}

/// One past the index of the last character that is not whitespace (0 if all are).
pub open spec fn last_non_space(s: Seq<char>) -> int
    decreases s.len(),
{
    if s.len() == 0 {
        0
    } else if is_space(s[s.len() - 1]) {
        last_non_space(s.subrange(0, s.len() - 1))
    } else {
        s.len() as int
    }
}

/// The text with leading and trailing whitespace removed.
pub open spec fn trimmed_text(s: Seq<char>) -> Seq<char> {
    if first_non_space(s) < last_non_space(s) {
        s.subrange(first_non_space(s), last_non_space(s))
    } else {
        Seq::empty()
    }
}

/// A control marker: after trimming, the text is bracketed, as in `<end>`.
pub open spec fn is_control_text(s: Seq<char>) -> bool {
    &&& trimmed_text(s).len() > 0
    &&& trimmed_text(s).first() == '<'
    &&& trimmed_text(s).last() == '>'
}

proof fn lemma_first_non_space_at(s: Seq<char>, a: int)
    requires
        0 <= a <= s.len(),
        forall|k: int| 0 <= k < a ==> is_space(s[k]),
        a < s.len() ==> !is_space(s[a]),
    ensures
        first_non_space(s) == a,
    decreases s.len(),
{
    if s.len() == 0 {
    } else if a == 0 {
    } else {
        let rest = s.subrange(1, s.len() as int);
        assert(forall|k: int| 0 <= k < a - 1 ==> rest[k] == s[k + 1]);
        lemma_first_non_space_at(rest, a - 1);
    }
}

proof fn lemma_last_non_space_at(s: Seq<char>, b: int)
    requires
        0 <= b <= s.len(),
        forall|k: int| b <= k < s.len() ==> is_space(s[k]),
        b > 0 ==> !is_space(s[b - 1]),
    ensures
        last_non_space(s) == b,
    decreases s.len(),
{
    if s.len() == 0 {
    } else if b == s.len() {
    } else {
        let rest = s.subrange(0, s.len() - 1);
        assert(forall|k: int| b <= k < rest.len() ==> rest[k] == s[k]);
        lemma_last_non_space_at(rest, b);
    }
}

/// True exactly when the token text is a control marker such as `<end>`,
/// `<laugh>` or `<noise>`: bracketed after trimming whitespace.
pub fn is_control_token(text: &str) -> (r: bool)
    ensures
        r == is_control_text(text@),
{
    let n = text.unicode_len();
    let mut a: usize = 0;
    loop
        invariant
            n == text@.len(),
            0 <= a <= n,
            forall|k: int| 0 <= k < a ==> is_space(text@[k]),
        ensures
            0 <= a <= n,
            forall|k: int| 0 <= k < a ==> is_space(text@[k]),
            a < n ==> !is_space(text@[a as int]),
        decreases n - a,
    {
        if a == n {
            break;
        }
        if !char_is_space(text.get_char(a)) {
            break;
        }
        a += 1;
    }
    proof {
        lemma_first_non_space_at(text@, a as int);
    }
    let mut b: usize = n;
    loop
        invariant
            n == text@.len(),
            0 <= b <= n,
            forall|k: int| b <= k < n ==> is_space(text@[k]),
        ensures
            0 <= b <= n,
            forall|k: int| b <= k < n ==> is_space(text@[k]),
            b > 0 ==> !is_space(text@[b - 1]),
        decreases b,
    {
        if b == 0 {
            break;
        }
        if !char_is_space(text.get_char(b - 1)) {
            break;
        }
        b -= 1;
    }
    proof {
        lemma_last_non_space_at(text@, b as int);
    }
    if a < b {
        let open_ok = text.get_char(a) == '<';
        let close_ok = text.get_char(b - 1) == '>';
        open_ok && close_ok
    } else {
        false
    }
}

/// One recognized unit of the inbound token stream.
pub struct RecognitionToken {
    pub text: String,
    pub is_final: bool,
    pub speaker: Option<i32>,
    pub language: Option<String>,
}

/// A token takes part in assembled text only if its text is non-empty
/// and not a control marker.
pub open spec fn token_kept(t: RecognitionToken) -> bool {
    t.text@.len() > 0 && !is_control_text(t.text@)
}

/// Whether a token's text contributes to the finalized text of a response.
pub open spec fn token_final_kept(t: RecognitionToken) -> bool {
    token_kept(t) && t.is_final
}

/// Whether a token's text contributes to the tentative tail of the preview.
pub open spec fn token_tentative_kept(t: RecognitionToken) -> bool {
    token_kept(t) && !t.is_final
}

} // verus!
