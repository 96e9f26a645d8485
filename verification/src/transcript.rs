use vstd::prelude::*;
use vstd::string::{StrSliceExecFns, StringExecFns};
use crate::token::{RecognitionToken, is_control_token, is_control_text, token_final_kept,
    token_tentative_kept};

verus! {

/// Concatenation, in arrival order, of the text of the kept final tokens.
pub open spec fn final_text_of(toks: Seq<RecognitionToken>) -> Seq<char>
    decreases toks.len(),
{
    if toks.len() == 0 {
        Seq::empty()
    } else if token_final_kept(toks.last()) {
        final_text_of(toks.drop_last()) + toks.last().text@
    } else {
        final_text_of(toks.drop_last())
    }
}

/// Concatenation, in arrival order, of the text of the kept non-final tokens.
pub open spec fn tentative_text_of(toks: Seq<RecognitionToken>) -> Seq<char>
    decreases toks.len(),
{
    if toks.len() == 0 {
        Seq::empty()
    } else if token_tentative_kept(toks.last()) {
        tentative_text_of(toks.drop_last()) + toks.last().text@
    } else {
        tentative_text_of(toks.drop_last())
    }
}

/// The live preview: the finalized text of this response followed by its
/// tentative tail, recomputed fresh from each response.
pub open spec fn preview_of(toks: Seq<RecognitionToken>) -> Seq<char> {
    final_text_of(toks) + tentative_text_of(toks)
}

/// The newly finalized substring to insert. If the new final text extends the
/// previously recorded one, the delta is the suffix beyond that prefix;
/// otherwise the tokens changed and the delta is the entire new final text.
pub open spec fn delta_of(prev: Seq<char>, cur: Seq<char>) -> Seq<char> {
    if prev.is_prefix_of(cur) {
        cur.subrange(prev.len() as int, cur.len() as int)
    } else {
        cur
    }
}

/// The transcript as the session coordinator carries it between responses.
pub struct TranscriptState {
    /// Text already finalized (and handed to insertion); replaced, never
    /// appended, on each response.
    pub finalized_text: String,
    /// Append-only record of every delta of the whole session.
    pub accumulated_text: String,
}

/// What one response yields: the delta to insert and the preview to display.
pub struct DiffOutcome {
    pub delta: String,
    pub preview: String,
}

/// Whether `prev` is a prefix of `cur`, compared character by character.
fn text_extends(cur: &str, prev: &str) -> (r: bool)
    ensures
        r == prev@.is_prefix_of(cur@),
{
    let np = prev.unicode_len();
    let nc = cur.unicode_len();
    if np > nc {
        return false;
    }
    let mut i: usize = 0;
    while i < np
        invariant
            np == prev@.len(),
            nc == cur@.len(),
            np <= nc,
            0 <= i <= np,
            forall|k: int| 0 <= k < i ==> cur@[k] == prev@[k],
        decreases np - i,
    {
        if cur.get_char(i) != prev.get_char(i) {
            assert(prev@ != cur@.subrange(0, np as int));
            return false;
        }
        i += 1;
    }
    proof {
        assert(prev@ =~= cur@.subrange(0, np as int));
    }
    true
}

/// Splits one response's tokens into its finalized text and tentative tail.
fn assemble_texts(tokens: &Vec<RecognitionToken>) -> (r: (String, String))
    ensures
        r.0@ == final_text_of(tokens@),
        r.1@ == tentative_text_of(tokens@),
{
    let mut fin = String::new();
    let mut tent = String::new();
    let n = tokens.len();
    let mut i: usize = 0;
    while i < n
        invariant
            n == tokens@.len(),
            0 <= i <= n,
            fin@ == final_text_of(tokens@.subrange(0, i as int)),
            tent@ == tentative_text_of(tokens@.subrange(0, i as int)),
        decreases n - i,
    {
        let t = &tokens[i];
        let tx = t.text.as_str();
        if !tx.is_empty() && !is_control_token(tx) {
            if t.is_final {
                fin.append(tx);
            } else {
                tent.append(tx);
            }
        }
        proof {
            assert(tokens@.subrange(0, i + 1).drop_last() =~= tokens@.subrange(0, i as int));
            assert(tokens@.subrange(0, i + 1).last() == tokens@[i as int]);
        }
        i += 1;
    }
    proof {
        assert(tokens@.subrange(0, n as int) =~= tokens@);
    }
    (fin, tent)
}

impl TranscriptState {
    /// A fresh transcript: nothing finalized, nothing accumulated.
    pub fn new() -> (r: TranscriptState)
        ensures
            r.finalized_text@ == Seq::<char>::empty(),
            r.accumulated_text@ == Seq::<char>::empty(),
    {
        TranscriptState { finalized_text: String::new(), accumulated_text: String::new() }
    }

    /// Consumes one response's token list: computes the delta and the preview,
    /// replaces the finalized text with this response's final text, and
    /// appends the delta to the accumulated session record.
    pub fn apply_tokens(&mut self, tokens: &Vec<RecognitionToken>) -> (r: DiffOutcome)
        ensures
            r.delta@ == delta_of(old(self).finalized_text@, final_text_of(tokens@)),
            r.preview@ == preview_of(tokens@),
            final(self).finalized_text@ == final_text_of(tokens@),
            final(self).accumulated_text@ == old(self).accumulated_text@ + r.delta@,
    {
        let (fin, tent) = assemble_texts(tokens);
        let delta: String = if text_extends(fin.as_str(), self.finalized_text.as_str()) {
            let np = self.finalized_text.as_str().unicode_len();
            let nf = fin.as_str().unicode_len();
            String::from_str(fin.as_str().substring_char(np, nf))
        } else {
            fin.clone()
        };
        let mut preview = fin.clone();
        preview.append(tent.as_str());
        self.accumulated_text.append(delta.as_str());
        self.finalized_text = fin;
        DiffOutcome { delta, preview }
    }
}

/// A sequence of per-response final texts in which each entry strictly
/// extends the one before it (the first extends the empty transcript).
pub open spec fn extension_chain(texts: Seq<Seq<char>>) -> bool {
    forall|i: int| 0 < i < texts.len() ==>
        (#[trigger] texts[i - 1]).is_prefix_of(texts[i]) && texts[i - 1].len() < texts[i].len()
}

/// The deltas of such a run, concatenated in order.
pub open spec fn concat_deltas(texts: Seq<Seq<char>>) -> Seq<char>
    decreases texts.len(),
{
    if texts.len() == 0 {
        Seq::empty()
    } else {
        let prev = if texts.len() >= 2 { texts[texts.len() - 2] } else { Seq::empty() };
        concat_deltas(texts.drop_last()) + delta_of(prev, texts.last())
    }
}

/// Under the normal incremental case — every response's final text strictly
/// extends the previous finalized text — the deltas concatenated rebuild the
/// final finalized text exactly.
pub proof fn lemma_deltas_rebuild_transcript(texts: Seq<Seq<char>>)
    requires
        extension_chain(texts),
        texts.len() > 0,
    ensures
        concat_deltas(texts) == texts.last(),
    decreases texts.len(),
{
    if texts.len() == 1 {
        let prev = Seq::<char>::empty();
        assert(prev.is_prefix_of(texts.last()));
        assert(concat_deltas(texts.drop_last()) == Seq::<char>::empty());
        assert(Seq::<char>::empty() + delta_of(prev, texts.last()) =~= texts.last());
    } else {
        let butlast = texts.drop_last();
        assert(extension_chain(butlast)) by {
            assert(forall|i: int| 0 < i < butlast.len() ==> (#[trigger] butlast[i - 1])
                == texts[i - 1] && butlast[i] == texts[i]);
        }
        lemma_deltas_rebuild_transcript(butlast);
        let prev = texts[texts.len() - 2];
        let cur = texts.last();
        assert(prev.is_prefix_of(cur));
        assert(prev + delta_of(prev, cur) =~= cur);
    }
}

/// The anomaly policy: when the new final text does not extend the prior
/// finalized text, the delta is the entire new final text.
pub proof fn lemma_correction_delta(prev: Seq<char>, cur: Seq<char>)
    requires
        !prev.is_prefix_of(cur),
    ensures
        delta_of(prev, cur) == cur,
{
}

/// A control-marker token contributes nothing, in any position: removing it
/// changes neither the finalized text nor the tentative tail, so neither the
/// delta nor the preview of any response.
pub proof fn lemma_control_token_contributes_nothing(toks: Seq<RecognitionToken>, i: int)
    requires
        0 <= i < toks.len(),
        is_control_text(toks[i].text@),
    ensures
        final_text_of(toks) == final_text_of(toks.remove(i)),
        tentative_text_of(toks) == tentative_text_of(toks.remove(i)),
    decreases toks.len(),
{
    if i == toks.len() - 1 {
        assert(toks.remove(i) =~= toks.drop_last());
    } else {
        let shorter = toks.drop_last();
        lemma_control_token_contributes_nothing(shorter, i);
        assert(toks.remove(i).drop_last() =~= shorter.remove(i));
        assert(toks.remove(i).last() == toks.last());
    }
}

/// The end-of-turn marker itself is a control marker, so by
/// `lemma_control_token_contributes_nothing` a token whose text is exactly
/// `<end>` never appears in any delta or preview, in any position.
pub proof fn lemma_end_marker_text_is_control()
    ensures
        is_control_text("<end>"@),
{
    reveal_strlit("<end>");
    let s = "<end>"@;
    assert(s.len() == 5);
    assert(!crate::token::is_space(s[0]));
    assert(!crate::token::is_space(s[4]));
    assert(crate::token::first_non_space(s) == 0);
    assert(crate::token::last_non_space(s) == 5);
    assert(crate::token::trimmed_text(s) =~= s);
}

} // verus!
