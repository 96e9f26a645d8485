use vstd::prelude::*;
use vstd::string::{StrSliceExecFns, StringExecFns};

verus! {

/// The configuration handshake, sent exactly once, first, over the session
/// connection.
pub struct SessionConfig {
    pub api_key: String,
    pub model: String,
    pub language_hints: Option<Vec<String>>,
    pub language_restrictions: Option<Vec<String>>,
    pub enable_endpoint_detection: bool,
    pub audio_format: String,
    pub sample_rate: u32,
    pub num_channels: u32,
}

impl SessionConfig {
    /// Fills the fixed fields of the handshake: the model identifier, the
    /// target PCM encoding, 16 kHz mono, endpoint detection on. An empty
    /// hint list is omitted rather than sent.
    pub fn new(api_key: String, language_hints: Vec<String>, language_restrictions: Option<
        Vec<String>>) -> (r: SessionConfig)
        ensures
            r.api_key == api_key,
            r.model@ == "stt-rt-v4"@,
            language_hints@.len() == 0 ==> r.language_hints is None,
            language_hints@.len() > 0 ==> r.language_hints == Some(language_hints),
            r.language_restrictions == language_restrictions,
            r.enable_endpoint_detection,
            r.audio_format@ == "pcm_s16le"@,
            r.sample_rate == 16000u32,
            r.num_channels == 1u32,
    {
        SessionConfig {
            api_key,
            model: String::from_str("stt-rt-v4"),
            language_hints: if language_hints.is_empty() {
                None
            } else {
                Some(language_hints)
            },
            language_restrictions,
            enable_endpoint_detection: true,
            audio_format: String::from_str("pcm_s16le"),
            sample_rate: 16000,
            num_channels: 1,
        }
    }
}

/// The hexadecimal digit for a value below sixteen.
pub open spec fn hex_char(n: int) -> char {
    if n == 0 { '0' } else if n == 1 { '1' } else if n == 2 { '2' } else if n == 3 { '3' }
    else if n == 4 { '4' } else if n == 5 { '5' } else if n == 6 { '6' } else if n == 7 { '7' }
    else if n == 8 { '8' } else if n == 9 { '9' } else if n == 10 { 'a' } else if n == 11 { 'b' }
    else if n == 12 { 'c' } else if n == 13 { 'd' } else if n == 14 { 'e' } else { 'f' }
}

/// A character that cannot stand bare inside a JSON string.
pub open spec fn needs_escape(c: char) -> bool {
    c == '"' || c == '\\' || (c as u32) < 32
}

/// How one character appears inside a JSON string: quote and backslash get a
/// backslash, other control characters the \u00XX form, the rest stand bare.
pub open spec fn json_escaped_char(c: char) -> Seq<char> {
    if c == '"' {
        seq!['\\', '"']
    } else if c == '\\' {
        seq!['\\', '\\']
    } else if (c as u32) < 32 {
        seq!['\\', 'u', '0', '0', hex_char((c as u32) as int / 16), hex_char((c as u32) as int
            % 16)]
    } else {
        seq![c]
    }
}

/// A whole text escaped for the inside of a JSON string.
pub open spec fn json_escaped(s: Seq<char>) -> Seq<char>
    decreases s.len(),
{
    if s.len() == 0 {
        Seq::empty()
    } else {
        json_escaped(s.drop_last()) + json_escaped_char(s.last())
    }
}

/// A JSON string: the escaped text between quotes.
pub open spec fn json_string_of(s: Seq<char>) -> Seq<char> {
    seq!['"'] + json_escaped(s) + seq!['"']
}

/// The items as JSON strings joined by commas.
pub open spec fn json_strings_joined(items: Seq<String>) -> Seq<char>
    decreases items.len(),
{
    if items.len() == 0 {
        Seq::empty()
    } else if items.len() == 1 {
        json_string_of(items[0]@)
    } else {
        json_strings_joined(items.drop_last()) + seq![','] + json_string_of(items.last()@)
    }
}

/// A JSON array of strings.
pub open spec fn json_string_list_of(items: Seq<String>) -> Seq<char> {
    seq!['['] + json_strings_joined(items) + seq![']']
}

/// Decimal digits of a non-negative number, most significant first.
pub open spec fn decimal_of(n: int) -> Seq<char>
    decreases n,
{
    if n < 10 {
        seq![hex_char(n)]
    } else {
        decimal_of(n / 10).push(hex_char(n % 10))
    }
}

proof fn lemma_escaped_concat(a: Seq<char>, b: Seq<char>)
    ensures
        json_escaped(a + b) == json_escaped(a) + json_escaped(b),
    decreases b.len(),
{
    if b.len() == 0 {
        assert(a + b =~= a);
        assert(json_escaped(a) + json_escaped(b) =~= json_escaped(a));
    } else {
        lemma_escaped_concat(a, b.drop_last());
        assert((a + b).drop_last() =~= a + b.drop_last());
        assert((a + b).last() == b.last());
        assert(json_escaped(a) + json_escaped(b.drop_last()) + json_escaped_char(b.last())
            =~= json_escaped(a) + json_escaped(b));
    }
}

proof fn lemma_escaped_plain(s: Seq<char>)
    requires
        forall|k: int| 0 <= k < s.len() ==> !needs_escape(s[k]),
    ensures
        json_escaped(s) == s,
    decreases s.len(),
{
    if s.len() == 0 {
        assert(json_escaped(s) =~= s);
    } else {
        lemma_escaped_plain(s.drop_last());
        assert(!needs_escape(s.last()));
        assert(json_escaped_char(s.last()) =~= seq![s.last()]);
        assert(s.drop_last() + seq![s.last()] =~= s);
    }
}

/// The hexadecimal digit of a value below sixteen, as a slice.
fn hex_str(d: u32) -> (r: &'static str)
    requires
        d < 16,
    ensures
        r@ == seq![hex_char(d as int)],
{
    let r: &'static str = if d == 0 { "0" } else if d == 1 { "1" } else if d == 2 { "2" }
        else if d == 3 { "3" } else if d == 4 { "4" } else if d == 5 { "5" } else if d == 6 { "6" }
        else if d == 7 { "7" } else if d == 8 { "8" } else if d == 9 { "9" } else if d == 10 { "a" }
        else if d == 11 { "b" } else if d == 12 { "c" } else if d == 13 { "d" }
        else if d == 14 { "e" } else { "f" };
    proof {
        reveal_strlit("0");
        reveal_strlit("1");
        reveal_strlit("2");
        reveal_strlit("3");
        reveal_strlit("4");
        reveal_strlit("5");
        reveal_strlit("6");
        reveal_strlit("7");
        reveal_strlit("8");
        reveal_strlit("9");
        reveal_strlit("a");
        reveal_strlit("b");
        reveal_strlit("c");
        reveal_strlit("d");
        reveal_strlit("e");
        reveal_strlit("f");
        assert(r@ =~= seq![hex_char(d as int)]);
    }
    r
}

/// Appends the text escaped for the inside of a JSON string.
fn append_json_escaped(out: &mut String, s: &str)
    ensures
        final(out)@ == old(out)@ + json_escaped(s@),
{
    let n = s.unicode_len();
    let mut start: usize = 0;
    let mut i: usize = 0;
    while i < n
        invariant
            n == s@.len(),
            0 <= start <= i <= n,
            out@ == old(out)@ + json_escaped(s@.subrange(0, start as int)),
            forall|k: int| start <= k < i ==> !needs_escape(s@[k]),
        decreases n - i,
    {
        let c = s.get_char(i);
        if c == '"' || c == '\\' || (c as u32) < 32 {
            out.append(s.substring_char(start, i));
            proof {
                lemma_escaped_plain(s@.subrange(start as int, i as int));
                lemma_escaped_concat(s@.subrange(0, start as int), s@.subrange(start as int,
                    i as int));
                assert(s@.subrange(0, start as int) + s@.subrange(start as int, i as int)
                    =~= s@.subrange(0, i as int));
            }
            if c == '"' {
                out.append("\\\"");
                proof {
                    reveal_strlit("\\\"");
                    assert("\\\""@ =~= json_escaped_char(c));
                }
            } else if c == '\\' {
                out.append("\\\\");
                proof {
                    reveal_strlit("\\\\");
                    assert("\\\\"@ =~= json_escaped_char(c));
                }
            } else {
                out.append("\\u00");
                let v = c as u32;
                out.append(hex_str(v / 16));
                out.append(hex_str(v % 16));
                proof {
                    reveal_strlit("\\u00");
                    assert("\\u00"@ + seq![hex_char(v as int / 16)] + seq![hex_char(v as int
                        % 16)] =~= json_escaped_char(c));
                }
            }
            proof {
                assert(s@.subrange(0, i + 1).drop_last() =~= s@.subrange(0, i as int));
                assert(s@.subrange(0, i + 1).last() == s@[i as int]);
                assert(out@ =~= old(out)@ + json_escaped(s@.subrange(0, i + 1)));
            }
            start = i + 1;
        }
        i += 1;
    }
    out.append(s.substring_char(start, n));
    proof {
        lemma_escaped_plain(s@.subrange(start as int, n as int));
        lemma_escaped_concat(s@.subrange(0, start as int), s@.subrange(start as int, n as int));
        assert(s@.subrange(0, start as int) + s@.subrange(start as int, n as int) =~= s@);
    }
}

/// Appends the text as a quoted JSON string.
fn append_json_string(out: &mut String, s: &str)
    ensures
        final(out)@ == old(out)@ + json_string_of(s@),
{
    out.append("\"");
    append_json_escaped(out, s);
    out.append("\"");
    proof {
        reveal_strlit("\"");
        assert(out@ =~= old(out)@ + json_string_of(s@));
    }
}

/// Appends the items as a JSON array of strings.
fn append_json_string_list(out: &mut String, items: &Vec<String>)
    ensures
        final(out)@ == old(out)@ + json_string_list_of(items@),
{
    out.append("[");
    let n = items.len();
    let mut i: usize = 0;
    while i < n
        invariant
            n == items@.len(),
            0 <= i <= n,
            out@ == old(out)@ + "["@ + json_strings_joined(items@.subrange(0, i as int)),
        decreases n - i,
    {
        if i > 0 {
            out.append(",");
        }
        append_json_string(out, items[i].as_str());
        proof {
            reveal_strlit(",");
            assert(items@.subrange(0, i + 1).drop_last() =~= items@.subrange(0, i as int));
            assert(items@.subrange(0, i + 1).last() == items@[i as int]);
            assert(out@ =~= old(out)@ + "["@ + json_strings_joined(items@.subrange(0, i + 1)));
        }
        i += 1;
    }
    out.append("]");
    proof {
        reveal_strlit("[");
        reveal_strlit("]");
        assert(items@.subrange(0, n as int) =~= items@);
        assert(out@ =~= old(out)@ + json_string_list_of(items@));
    }
}

/// Appends the decimal digits of the number.
fn append_decimal(out: &mut String, n: u32)
    ensures
        final(out)@ == old(out)@ + decimal_of(n as int),
    decreases n,
{
    if n < 10 {
        out.append(hex_str(n));
    } else {
        append_decimal(out, n / 10);
        out.append(hex_str(n % 10));
        proof {
            assert(out@ =~= old(out)@ + decimal_of(n as int));
        }
    }
}

/// The exact text of the handshake message: one JSON object holding the
/// credential, the model, the optional hint and restriction lists (omitted
/// when absent), the endpoint-detection flag, and the audio format fields.
pub open spec fn handshake_text(c: SessionConfig) -> Seq<char> {
    "{\"api_key\":"@ + json_string_of(c.api_key@) + ",\"model\":"@ + json_string_of(c.model@)
        + (match c.language_hints {
        Some(h) => ",\"language_hints\":"@ + json_string_list_of(h@),
        None => Seq::empty(),
    }) + (match c.language_restrictions {
        Some(h) => ",\"language_restrictions\":"@ + json_string_list_of(h@),
        None => Seq::empty(),
    }) + ",\"enable_endpoint_detection\":"@ + (if c.enable_endpoint_detection {
        "true"@
    } else {
        "false"@
    }) + ",\"audio_format\":"@ + json_string_of(c.audio_format@) + ",\"sample_rate\":"@
        + decimal_of(c.sample_rate as int) + ",\"num_channels\":"@ + decimal_of(
        c.num_channels as int) + "}"@
}

/// Frames the configuration handshake as its exact JSON text.
pub fn handshake_json(c: &SessionConfig) -> (r: String)
    ensures
        r@ == handshake_text(*c),
{
    let mut out = String::new();
    out.append("{\"api_key\":");
    append_json_string(&mut out, c.api_key.as_str());
    out.append(",\"model\":");
    append_json_string(&mut out, c.model.as_str());
    match &c.language_hints {
        Some(h) => {
            out.append(",\"language_hints\":");
            append_json_string_list(&mut out, h);
        },
        None => {},
    }
    match &c.language_restrictions {
        Some(h) => {
            out.append(",\"language_restrictions\":");
            append_json_string_list(&mut out, h);
        },
        None => {},
    }
    out.append(",\"enable_endpoint_detection\":");
    if c.enable_endpoint_detection {
        out.append("true");
    } else {
        out.append("false");
    }
    out.append(",\"audio_format\":");
    append_json_string(&mut out, c.audio_format.as_str());
    out.append(",\"sample_rate\":");
    append_decimal(&mut out, c.sample_rate);
    out.append(",\"num_channels\":");
    append_decimal(&mut out, c.num_channels);
    out.append("}");
    proof {
        assert(out@ =~= handshake_text(*c));
    }
    out
}

} // verus!
