use vstd::prelude::*;
use vstd::string::StringExecFns;

verus! {

/// How many transcription entries the history keeps.
pub const HISTORY_LIMIT: usize = 100;

/// The user-facing configuration the coordinator reads at session start.
#[derive(Clone)]
pub struct AppSettings {
    pub api_key: String,
    pub hotkey: String,
    pub language_hints: Vec<String>,
    pub language_restrictions: Option<Vec<String>>,
}

impl Default for AppSettings {
    /// No credential yet, the Insert key as the hotkey, English as the one
    /// language hint, and no restriction list.
    fn default() -> (r: AppSettings)
        ensures
            r.api_key@ == Seq::<char>::empty(),
            r.hotkey@ == "Insert"@,
            r.language_hints@.len() == 1,
            r.language_hints@[0]@ == "en"@,
            r.language_restrictions is None,
    {
        let mut hints: Vec<String> = Vec::new();
        hints.push(String::from_str("en"));
        AppSettings {
            api_key: String::new(),
            hotkey: String::from_str("Insert"),
            language_hints: hints,
            language_restrictions: None,
        }
    }
}

/// One stored transcription of a finished session.
#[derive(Clone)]
pub struct TranscriptionEntry {
    pub text: String,
    pub timestamp: u64,
    pub language: String,
}

/// The items joined by single commas, in order.
pub open spec fn joined_with_commas(items: Seq<String>) -> Seq<char>
    decreases items.len(),
{
    if items.len() == 0 {
        Seq::empty()
    } else if items.len() == 1 {
        items[0]@
    } else {
        joined_with_commas(items.drop_last()) + ","@ + items.last()@
    }
}

/// Joins the language hints with commas for the history's language field.
pub fn join_language_hints(hints: &Vec<String>) -> (r: String)
    ensures
        r@ == joined_with_commas(hints@),
{
    let mut r = String::new();
    let n = hints.len();
    let mut i: usize = 0;
    while i < n
        invariant
            n == hints@.len(),
            0 <= i <= n,
            r@ == joined_with_commas(hints@.subrange(0, i as int)),
        decreases n - i,
    {
        if i > 0 {
            r.append(",");
        }
        r.append(hints[i].as_str());
        proof {
            assert(hints@.subrange(0, i + 1).drop_last() =~= hints@.subrange(0, i as int));
            assert(hints@.subrange(0, i + 1).last() == hints@[i as int]);
        }
        i += 1;
    }
    proof {
        assert(hints@.subrange(0, n as int) =~= hints@);
    }
    r
}

/// Puts a new entry at the front of the history and keeps only the last
/// `HISTORY_LIMIT` entries.
pub fn push_entry(entries: &mut Vec<TranscriptionEntry>, entry: TranscriptionEntry)
    ensures
        final(entries)@.len() == (if old(entries)@.len() + 1 <= HISTORY_LIMIT {
            old(entries)@.len() + 1 as int
        } else {
            HISTORY_LIMIT as int
        }),
        final(entries)@[0] == entry,
        forall|i: int| 1 <= i < final(entries)@.len() ==> final(entries)@[i] == old(
            entries)@[i - 1],
{
    entries.insert(0, entry);
    if entries.len() > HISTORY_LIMIT {
        entries.truncate(HISTORY_LIMIT);
    }
}

/// What a toggle of the recording hotkey decides.
#[derive(Clone, Copy, Debug, PartialEq, Eq, Structural)]
pub enum ToggleOutcome {
    /// A session is running: set the stop signal and wind it down.
    StopSession,
    /// No session is running and a credential is configured: start one.
    StartSession,
    /// No session is running but no credential is configured: refuse.
    RejectMissingKey,
}

/// The decision behind the toggle action: stop a running session; otherwise
/// start one only when an API key is configured, and refuse with an error
/// when it is not.
pub fn toggle_decision(is_recording: bool, settings: &AppSettings) -> (r: ToggleOutcome)
    ensures
        is_recording ==> r == ToggleOutcome::StopSession,
        !is_recording && settings.api_key@.len() == 0 ==> r == ToggleOutcome::RejectMissingKey,
        !is_recording && settings.api_key@.len() > 0 ==> r == ToggleOutcome::StartSession,
{
    if is_recording {
        ToggleOutcome::StopSession
    } else if settings.api_key.as_str().is_empty() {
        ToggleOutcome::RejectMissingKey
    } else {
        ToggleOutcome::StartSession
    }
}

} // verus!
