//! The dictation pipeline's decisions: when silence ends a recording, which
//! app profile applies, what the cleanup model is told, whether the words
//! are a voice command, and what the HUD says at the end.
use vstd::prelude::*;
use crate::db::{AppProfile, Settings};
use crate::text::{
    chars_of, find, first_index, is_ws, lower_of, occurs_at, same_chars, split, split_ranges,
    string_of, to_lowercase, trim, trim_range, decimal, push_decimal,
};

verus! {

/// Interval between level checks while recording, in ms.
pub const LEVEL_INTERVAL_MS: u32 = 33;

/// Fewest quiet level checks that end a recording (about half a second).
pub const MIN_SILENCE_FRAMES: u32 = 15;

/// Quiet level checks, after speech, that end a recording: the silence
/// timeout in checks, at least `MIN_SILENCE_FRAMES`.
pub open spec fn silence_limit(silence_timeout_ms: u32) -> u32 {
    if silence_timeout_ms / LEVEL_INTERVAL_MS > MIN_SILENCE_FRAMES {
        silence_timeout_ms / LEVEL_INTERVAL_MS
    } else {
        MIN_SILENCE_FRAMES
    }
}

/// How many quiet level checks after speech end a recording.
pub fn max_silence_frames(silence_timeout_ms: u32) -> (r: u32)
    ensures
        r == silence_limit(silence_timeout_ms),
{
    let n = silence_timeout_ms / LEVEL_INTERVAL_MS;
    if n > MIN_SILENCE_FRAMES {
        n
    } else {
        MIN_SILENCE_FRAMES
    }
}

/// Tracks speech and the silence after it, one level check at a time.
pub struct SilenceDetector {
    pub speech_detected: bool,
    pub silence_frames: u32,
}

/// The detector after one check: `loud` is whether the level was above the
/// speech threshold. Speech resets the silence count; silence only counts
/// once there has been speech.
pub open spec fn detector_step(speech: bool, silence: nat, loud: bool) -> (bool, nat) {
    if loud {
        (true, 0)
    } else if speech {
        (true, silence + 1)
    } else {
        (false, silence)
    }
}

/// The detector after the checks `frames`, from a fresh start.
pub open spec fn detector_run(frames: Seq<bool>) -> (bool, nat)
    decreases frames.len(),
{
    if frames.len() == 0 {
        (false, 0)
    } else {
        let (s, q) = detector_run(frames.drop_last());
        detector_step(s, q, frames.last())
    }
}

impl SilenceDetector {
    /// A detector that has heard nothing yet.
    pub fn new() -> (d: SilenceDetector)
        ensures
            !d.speech_detected,
            d.silence_frames == 0,
    {
        SilenceDetector { speech_detected: false, silence_frames: 0 }
    }

    /// Takes one level check; true when the silence after speech has run
    /// past `max_frames` checks and the recording should stop.
    pub fn step(&mut self, loud: bool, max_frames: u32) -> (stop: bool)
        requires
            old(self).silence_frames <= max_frames,
            max_frames < u32::MAX,
        ensures
            (final(self).speech_detected, final(self).silence_frames as nat) == detector_step(
                old(self).speech_detected,
                old(self).silence_frames as nat,
                loud,
            ),
            stop == (final(self).silence_frames > max_frames),
    {
        if loud {
            self.speech_detected = true;
            self.silence_frames = 0;
        } else if self.speech_detected {
            self.silence_frames = self.silence_frames + 1;
        }
        self.silence_frames > max_frames
    }
}

/// Once speech has been heard, a run of `n` quiet checks leaves exactly `n`
/// counted, so the recording stops on the check after `max_frames` quiet
/// ones and not before.
pub proof fn law_silence_counts_quiet_run(before: Seq<bool>, n: nat)
    requires
        detector_run(before).0,
    ensures
        detector_run(before + Seq::new(n, |i: int| false)) == (true, detector_run(before).1 + n),
    decreases n,
{
    if n == 0 {
        assert(before + Seq::new(0, |i: int| false) =~= before);
    } else {
        law_silence_counts_quiet_run(before, (n - 1) as nat);
        let s = before + Seq::new(n, |i: int| false);
        assert(s.drop_last() =~= before + Seq::new((n - 1) as nat, |i: int| false));
    }
}

/// A loud check always clears the silence count.
pub proof fn law_speech_resets_silence(frames: Seq<bool>)
    ensures
        detector_run(frames.push(true)) == (true, 0nat),
{
    assert(frames.push(true).drop_last() =~= frames);
}

/// Whether a dictation may start: not while a meeting owns the microphone.
pub fn dictation_start_blocked(meeting_recording: bool) -> (r: Option<String>)
    ensures
        meeting_recording ==> (r matches Some(m) && m@ == "Meeting recording active"@),
        !meeting_recording ==> r is None,
{
    if meeting_recording {
        Some("Meeting recording active".to_owned())
    } else {
        None
    }
}

/// A pipeline belongs to session `session_id`; once the current session id
/// has moved on (cancelled, or a newer dictation started) it must stop
/// without saving.
pub fn is_superseded(current_session_id: u64, session_id: u64) -> (r: bool)
    ensures
        r == (current_session_id != session_id),
{
    current_session_id != session_id
}

/// Shortest recording, in 16 kHz samples, worth transcribing: one second.
pub const MIN_SAMPLES: usize = 16_000;

/// A recording shorter than a second is reported, not transcribed.
pub fn too_short(samples: usize) -> (r: bool)
    ensures
        r == (samples < MIN_SAMPLES),
{
    samples < MIN_SAMPLES
}

/// `lower` contains `s`.
pub open spec fn contains(lower: Seq<char>, s: Seq<char>) -> bool {
    exists|i: int| occurs_at(lower, s, i)
}

/// Some comma-separated entry of `pattern`, trimmed and non-empty, occurs in `name`.
pub open spec fn pattern_matches(name: Seq<char>, pattern: Seq<char>) -> bool {
    exists|k: int|
        0 <= k < split(pattern, ',').len() && trim(#[trigger] split(pattern, ',')[k]).len() > 0
            && contains(name, trim(split(pattern, ',')[k]))
}

/// A profile applies to the app called `name`: its pattern is non-empty and,
/// lowercased, one of its entries occurs in the lowercased name.
pub open spec fn profile_applies(p: AppProfile, name: Seq<char>) -> bool {
    p.app@.len() > 0 && pattern_matches(lower_of(name), lower_of(p.app@))
}

fn contains_chars(hay: &Vec<char>, needle: &Vec<char>) -> (r: bool)
    ensures
        r == contains(hay@, needle@),
{
    match find(hay, needle) {
        Some(i) => true,
        None => {
            proof {
                if contains(hay@, needle@) {
                    let i = choose|i: int| occurs_at(hay@, needle@, i);
                    lemma_first_index_finds(hay@, needle@, i);
                }
            }
            false
        },
    }
}

proof fn lemma_first_index_finds(s: Seq<char>, p: Seq<char>, i: int)
    requires
        occurs_at(s, p, i),
    ensures
        first_index(s, p) is Some,
    decreases i,
{
    if s.len() >= p.len() && s.take(p.len() as int) == p {
    } else if i == 0 {
        assert(s.take(p.len() as int) =~= s.subrange(0, p.len() as int));
    } else {
        assert(occurs_at(s.drop_first(), p, i - 1)) by {
            assert(s.drop_first().subrange(i - 1, i - 1 + p.len()) =~= s.subrange(i, i + p.len()));
        }
        lemma_first_index_finds(s.drop_first(), p, i - 1);
    }
}

/// Whether an app name, already lowercased, matches a profile's pattern,
/// already lowercased: one of its comma-separated entries, trimmed and
/// non-empty, occurs in the name.
pub fn app_matches(name_lower: &Vec<char>, pattern: &str) -> (r: bool)
    ensures
        r == pattern_matches(name_lower@, pattern@),
{
    let pv = chars_of(pattern);
    let ranges = split_ranges(&pv, ',');
    let ghost ps = split(pv@, ',');
    let mut k: usize = 0;
    while k < ranges.len()
        invariant
            k <= ranges.len() == ps.len(),
            ps == split(pattern@, ','),
            forall|j: int|
                0 <= j < ranges.len() ==> {
                    &&& (#[trigger] ranges@[j]).0 <= ranges@[j].1 <= pv.len()
                    &&& pv@.subrange(ranges@[j].0 as int, ranges@[j].1 as int) == ps[j]
                },
            forall|j: int|
                0 <= j < k ==> !(trim(#[trigger] ps[j]).len() > 0 && contains(name_lower@, trim(ps[j]))),
        decreases ranges.len() - k,
    {
        let (a, b) = ranges[k];
        let t = trim_range(&pv, a, b);
        if t.len() > 0 && contains_chars(name_lower, &t) {
            assert(trim(ps[k as int]).len() > 0 && contains(name_lower@, trim(ps[k as int])));
            return true;
        }
        k = k + 1;
    }
    false
}

/// The extra cleanup instruction for the app called `name`: the prompt of
/// the first profile that applies, if any.
pub open spec fn profile_prompt_for(profiles: Seq<AppProfile>, name: Seq<char>) -> Option<Seq<char>>
    decreases profiles.len(),
{
    if profiles.len() == 0 {
        None
    } else if profile_applies(profiles[0], name) {
        Some(profiles[0].prompt@)
    } else {
        profile_prompt_for(profiles.drop_first(), name)
    }
}

/// Finds the cleanup instruction for the app the user was in.
pub fn match_app_profile(profiles: &Vec<AppProfile>, frontmost: Option<&str>) -> (r: Option<String>)
    ensures
        match frontmost {
            None => r is None,
            Some(name) => match r {
                Some(p) => profile_prompt_for(profiles@, name@) == Some(p@),
                None => profile_prompt_for(profiles@, name@) is None,
            },
        },
{
    let name = match frontmost {
        Some(n) => n,
        None => return None,
    };
    let lower = chars_of(to_lowercase(name).as_str());
    let mut k: usize = 0;
    assert(profiles@.skip(0) =~= profiles@);
    while k < profiles.len()
        invariant
            k <= profiles.len(),
            frontmost == Some(name),
            lower@ == lower_of(name@),
            profile_prompt_for(profiles@, name@) == profile_prompt_for(profiles@.skip(k as int), name@),
        decreases profiles.len() - k,
    {
        let p = &profiles[k];
        proof {
            assert(profiles@.skip(k as int)[0] == profiles@[k as int]);
            assert(profiles@.skip(k as int).drop_first() =~= profiles@.skip(k + 1));
        }
        if !p.app.as_str().is_empty() {
            let pattern = to_lowercase(p.app.as_str());
            if app_matches(&lower, pattern.as_str()) {
                return Some(p.prompt.as_str().to_owned());
            }
        }
        k = k + 1;
    }
    assert(profiles@.skip(profiles.len() as int) =~= Seq::<AppProfile>::empty());
    None
}

/// Added to the cleanup instruction when the transcript came from whispering.
pub const WHISPER_CLEANUP_NOTE: &'static str = "This transcript came from whispered speech, so some words may be misheard as similar-sounding ones. Where a word is implausible in context, replace it with the word it was most likely misheard from. Do not add content that isn't there.";

/// `base`, then a blank line unless `base` is empty, then `more`.
pub open spec fn paragraph(base: Seq<char>, more: Seq<char>) -> Seq<char> {
    if base.len() == 0 {
        more
    } else {
        base + "\n\n"@ + more
    }
}

/// The remembered facts as a bulleted list, one per line.
pub open spec fn fact_lines(facts: Seq<Seq<char>>) -> Seq<char>
    decreases facts.len(),
{
    if facts.len() == 0 {
        Seq::<char>::empty()
    } else if facts.len() == 1 {
        "- "@ + facts[0]
    } else {
        fact_lines(facts.drop_last()) + "\n- "@ + facts.last()
    }
}

/// The extra instruction for a cleanup pass: the app profile's, then the
/// whispering note, then the remembered facts that bear on the text, each
/// part a paragraph of its own.
pub open spec fn cleanup_context_of(
    profile: Option<Seq<char>>,
    whisper_mode: bool,
    facts: Seq<Seq<char>>,
) -> Seq<char> {
    let a = match profile {
        Some(p) => p,
        None => Seq::<char>::empty(),
    };
    let b = if whisper_mode {
        paragraph(a, WHISPER_CLEANUP_NOTE@)
    } else {
        a
    };
    if facts.len() > 0 {
        paragraph(b, "Relevant facts from user's memory:\n"@ + fact_lines(facts))
    } else {
        b
    }
}

/// Builds the extra cleanup instruction; `None` when it would be empty.
/// `facts` are the remembered facts already judged relevant, best first.
pub fn cleanup_context(profile: Option<String>, whisper_mode: bool, facts: &Vec<String>) -> (r: Option<String>)
    ensures
        ({
            let c = cleanup_context_of(
                match profile {
                    Some(p) => Some(p@),
                    None => None,
                },
                whisper_mode,
                crate::whisper::string_views(facts@),
            );
            match r {
                Some(t) => c.len() > 0 && t@ == c,
                None => c.len() == 0,
            }
        }),
{
    let ghost fv = crate::whisper::string_views(facts@);
    let mut ctx = match profile {
        Some(p) => p,
        None => String::new(),
    };
    if whisper_mode {
        if !ctx.as_str().is_empty() {
            ctx.append("\n\n");
        }
        ctx.append(WHISPER_CLEANUP_NOTE);
    }
    if facts.len() > 0 {
        if !ctx.as_str().is_empty() {
            ctx.append("\n\n");
        }
        ctx.append("Relevant facts from user's memory:\n");
        let mut k: usize = 0;
        let ghost base = ctx@;
        while k < facts.len()
            invariant
                k <= facts.len(),
                fv == crate::whisper::string_views(facts@),
                ctx@ == base + fact_lines(fv.take(k as int)),
            decreases facts.len() - k,
        {
            proof {
                assert(fv.take(k + 1).drop_last() =~= fv.take(k as int));
                assert(fv.take(k + 1).last() == facts@[k as int]@);
            }
            if k > 0 {
                ctx.append("\n- ");
            } else {
                ctx.append("- ");
                assert(fv.take(0) =~= Seq::<Seq<char>>::empty());
            }
            ctx.append(facts[k].as_str());
            k = k + 1;
        }
        assert(fv.take(facts.len() as int) =~= fv);
    }
    if ctx.as_str().is_empty() {
        None
    } else {
        Some(ctx)
    }
}

/// ASCII punctuation, as `char::is_ascii_punctuation` defines it.
pub open spec fn is_ascii_punct(c: char) -> bool {
    ||| ('!' <= c && c <= '/')
    ||| (':' <= c && c <= '@')
    ||| ('[' <= c && c <= '`')
    ||| ('{' <= c && c <= '~')
}

/// `s` without leading ASCII punctuation.
pub open spec fn strip_punct_start(s: Seq<char>) -> Seq<char>
    decreases s.len(),
{
    if s.len() > 0 && is_ascii_punct(s[0]) {
        strip_punct_start(s.drop_first())
    } else {
        s
    }
}

/// `s` without trailing ASCII punctuation.
pub open spec fn strip_punct_end(s: Seq<char>) -> Seq<char>
    decreases s.len(),
{
    if s.len() > 0 && is_ascii_punct(s.last()) {
        strip_punct_end(s.drop_last())
    } else {
        s
    }
}

/// A transcript reduced to what a voice command is recognised by: trimmed,
/// stripped of surrounding punctuation, lowercased.
pub open spec fn command_text(text: Seq<char>) -> Seq<char> {
    lower_of(strip_punct_end(strip_punct_start(trim(text))))
}

/// What the transcript tells the app to do with it.
#[derive(PartialEq, Eq, Structural)]
pub enum VoiceCommand {
    /// "scratch that" or "undo that" on its own: undo the last paste.
    Undo,
    /// A dictation ending in one of them: drop it.
    Abort,
    /// Anything else: paste it.
    Keep,
}

/// `s` ends with `p`.
pub open spec fn ends_with(s: Seq<char>, p: Seq<char>) -> bool {
    s.len() >= p.len() && s.skip(s.len() - p.len()) == p
}

/// The command a transcript carries.
pub open spec fn command_of(text: Seq<char>) -> VoiceCommand {
    command_for(command_text(text))
}

/// The command a transcript carries, from its reduced form (`command_text`).
pub open spec fn command_for(c: Seq<char>) -> VoiceCommand {
    if c == "scratch that"@ || c == "undo that"@ {
        VoiceCommand::Undo
    } else if ends_with(c, "scratch that"@) || ends_with(c, "undo that"@) {
        VoiceCommand::Abort
    } else {
        VoiceCommand::Keep
    }
}

fn char_is_ascii_punct(c: char) -> (r: bool)
    ensures
        r == is_ascii_punct(c),
{
    ('!' <= c && c <= '/') || (':' <= c && c <= '@') || ('[' <= c && c <= '`') || ('{' <= c && c
        <= '~')
}

proof fn lemma_strip_start(s: Seq<char>, i: int)
    requires
        0 <= i <= s.len(),
        forall|k: int| 0 <= k < i ==> is_ascii_punct(#[trigger] s[k]),
    ensures
        strip_punct_start(s) == strip_punct_start(s.subrange(i, s.len() as int)),
    decreases i,
{
    if i > 0 {
        lemma_strip_start(s, i - 1);
        let t = s.subrange(i - 1, s.len() as int);
        assert(t[0] == s[i - 1]);
        assert(t.drop_first() =~= s.subrange(i, s.len() as int));
    } else {
        assert(s.subrange(0, s.len() as int) =~= s);
    }
}

proof fn lemma_strip_end(s: Seq<char>, j: int)
    requires
        0 <= j <= s.len(),
        forall|k: int| j <= k < s.len() ==> is_ascii_punct(#[trigger] s[k]),
    ensures
        strip_punct_end(s) == strip_punct_end(s.subrange(0, j)),
    decreases s.len() - j,
{
    if j < s.len() {
        lemma_strip_end(s, j + 1);
        let t = s.subrange(0, j + 1);
        assert(t.last() == s[j]);
        assert(t.drop_last() =~= s.subrange(0, j));
    } else {
        assert(s.subrange(0, s.len() as int) =~= s);
    }
}

fn strip_punct(v: &Vec<char>) -> (r: Vec<char>)
    ensures
        r@ == strip_punct_end(strip_punct_start(v@)),
{
    let mut i: usize = 0;
    while i < v.len() && char_is_ascii_punct(v[i])
        invariant
            i <= v.len(),
            forall|k: int| 0 <= k < i ==> is_ascii_punct(#[trigger] v@[k]),
        decreases v.len() - i,
    {
        i = i + 1;
    }
    proof {
        lemma_strip_start(v@, i as int);
    }
    let ghost t = v@.subrange(i as int, v.len() as int);
    assert(strip_punct_start(v@) == t) by {
        if t.len() > 0 {
            assert(t[0] == v@[i as int]);
        }
    }
    let mut j = v.len();
    while j > i && char_is_ascii_punct(v[j - 1])
        invariant
            i <= j <= v.len(),
            forall|k: int| j <= k < v.len() ==> is_ascii_punct(#[trigger] v@[k]),
        decreases j,
    {
        j = j - 1;
    }
    proof {
        assert forall|k: int| j - i <= k < t.len() implies is_ascii_punct(#[trigger] t[k]) by {
            assert(t[k] == v@[i + k]);
        }
        lemma_strip_end(t, j - i);
        assert(t.subrange(0, j - i) =~= v@.subrange(i as int, j as int));
        let u = v@.subrange(i as int, j as int);
        if u.len() > 0 {
            assert(u.last() == v@[j - 1]);
        }
    }
    let mut out: Vec<char> = Vec::new();
    let mut k = i;
    while k < j
        invariant
            i <= k <= j <= v.len(),
            out@ == v@.subrange(i as int, k as int),
        decreases j - k,
    {
        out.push(v[k]);
        k = k + 1;
        assert(out@ =~= v@.subrange(i as int, k as int));
    }
    out
}

fn ends_with_str(v: &Vec<char>, p: &str) -> (r: bool)
    ensures
        r == ends_with(v@, p@),
{
    let pv = chars_of(p);
    if pv.len() > v.len() {
        return false;
    }
    let r = crate::text::matches_at(v, &pv, v.len() - pv.len());
    assert(v@.subrange(v.len() - pv.len(), v.len() as int) =~= v@.skip(v.len() - pv.len()));
    r
}

/// Whether a transcript is "scratch that" / "undo that", ends with one, or neither.
pub fn voice_command(text: &str) -> (r: VoiceCommand)
    ensures
        r == command_of(text@),
{
    let v = chars_of(text);
    let t = trim_range(&v, 0, v.len());
    assert(v@.subrange(0, v.len() as int) =~= v@);
    let stripped = string_of(&strip_punct(&t));
    let lower = to_lowercase(stripped.as_str());
    voice_command_of(lower.as_str())
}

/// The command carried by a transcript already trimmed, stripped of
/// surrounding punctuation and lowercased.
pub fn voice_command_of(reduced: &str) -> (r: VoiceCommand)
    ensures
        r == command_for(reduced@),
{
    if same_chars(reduced, "scratch that") || same_chars(reduced, "undo that") {
        return VoiceCommand::Undo;
    }
    let cv = chars_of(reduced);
    if ends_with_str(&cv, "scratch that") || ends_with_str(&cv, "undo that") {
        return VoiceCommand::Abort;
    }
    VoiceCommand::Keep
}

/// The number of whitespace-separated words in `s`, as `split_whitespace` counts them.
pub open spec fn word_count(s: Seq<char>) -> nat
    decreases s.len(),
{
    if s.len() == 0 {
        0
    } else if !is_ws(s.last()) && (s.len() == 1 || is_ws(s[s.len() - 2])) {
        word_count(s.drop_last()) + 1
    } else {
        word_count(s.drop_last())
    }
}

proof fn lemma_word_count_bound(s: Seq<char>)
    ensures
        word_count(s) <= s.len(),
    decreases s.len(),
{
    if s.len() > 0 {
        lemma_word_count_bound(s.drop_last());
    }
}

/// Words in a transcript.
pub fn count_words(text: &str) -> (n: usize)
    ensures
        n == word_count(text@),
{
    let v = chars_of(text);
    let mut n: usize = 0;
    let mut i: usize = 0;
    assert(v@.take(0) =~= Seq::<char>::empty());
    while i < v.len()
        invariant
            i <= v.len(),
            n == word_count(v@.take(i as int)),
            n <= i,
        decreases v.len() - i,
    {
        let ghost cur = v@.take(i + 1);
        assert(cur.drop_last() =~= v@.take(i as int));
        assert(cur.last() == v@[i as int]);
        if i > 0 {
            assert(cur[cur.len() - 2] == v@[i - 1]);
        }
        if !crate::text::char_is_ws(v[i]) && (i == 0 || crate::text::char_is_ws(v[i - 1])) {
            n = n + 1;
        }
        i = i + 1;
    }
    assert(v@.take(v.len() as int) =~= v@);
    n
}

/// What the HUD says once a dictation is delivered: pasted, or only copied
/// when keystrokes can't be synthesized.
pub fn delivery_status(accessibility_trusted: bool, words: usize) -> (r: String)
    ensures
        r@ == delivery_text(accessibility_trusted, words as nat),
{
    if accessibility_trusted {
        let mut m = "✓ Pasted · ".to_owned();
        push_decimal(&mut m, words as u64);
        m.append(" words");
        m
    } else {
        "⚠ Copied — needs Accessibility".to_owned()
    }
}


/// What the HUD says once a dictation is delivered.
pub open spec fn delivery_text(accessibility_trusted: bool, words: nat) -> Seq<char> {
    if accessibility_trusted {
        "✓ Pasted · "@ + decimal(words) + " words"@
    } else {
        "⚠ Copied — needs Accessibility"@
    }
}

/// The characters of an optional string.
pub open spec fn opt_chars(o: Option<String>) -> Option<Seq<char>> {
    match o {
        Some(s) => Some(s@),
        None => None,
    }
}

/// The characters of an outcome carrying strings.
pub open spec fn outcome_chars(r: Result<String, String>) -> Result<Seq<char>, Seq<char>> {
    match r {
        Ok(s) => Ok(s@),
        Err(e) => Err(e@),
    }
}

fn clone_opt(o: &Option<String>) -> (r: Option<String>)
    ensures
        r == *o,
{
    match o {
        Some(s) => Some(s.clone()),
        None => None,
    }
}

/// Where a stopped dictation's processing stands.
#[derive(Clone, Copy, PartialEq, Eq, Structural)]
pub enum DictationStage {
    /// The audio is in, resampled to 16 kHz.
    Captured,
    /// Silence is being trimmed.
    Trimming,
    /// The speech engine is running.
    Transcribing,
    /// The cleanup model is running.
    CleaningUp,
    /// Waiting to learn whether keystrokes can be synthesized.
    Delivering,
    /// Nothing more to do.
    Done,
}

/// A stopped dictation on its way from audio to text at the cursor, with
/// the settings it was recorded under.
pub struct DictationState {
    /// The session this pipeline belongs to.
    pub session_id: u64,
    pub stage: DictationStage,
    pub trim_silence: bool,
    /// The dictionary prompt for the engine; `None` when there is none.
    pub prompt: Option<String>,
    pub language: String,
    /// The cleanup model, when cleanup is on and a model is chosen.
    pub cleanup_model: Option<String>,
    /// The extra cleanup instruction for the app the user is in.
    pub cleanup_extra: Option<String>,
    pub output_mode: String,
    pub play_sounds: bool,
    /// The text so far: the transcript, then the cleaned text.
    pub text: String,
}

/// A dictation's state, as plain values.
pub struct DictationView {
    pub session_id: u64,
    pub stage: DictationStage,
    pub trim_silence: bool,
    pub prompt: Option<Seq<char>>,
    pub language: Seq<char>,
    pub cleanup_model: Option<Seq<char>>,
    pub cleanup_extra: Option<Seq<char>>,
    pub output_mode: Seq<char>,
    pub play_sounds: bool,
    pub text: Seq<char>,
}

impl View for DictationState {
    type V = DictationView;

    open spec fn view(&self) -> DictationView {
        DictationView {
            session_id: self.session_id,
            stage: self.stage,
            trim_silence: self.trim_silence,
            prompt: opt_chars(self.prompt),
            language: self.language@,
            cleanup_model: opt_chars(self.cleanup_model),
            cleanup_extra: opt_chars(self.cleanup_extra),
            output_mode: self.output_mode@,
            play_sounds: self.play_sounds,
            text: self.text@,
        }
    }
}

/// What the outside work of a dictation came back with.
pub enum DictationEvent {
    /// The recording, resampled: this many 16 kHz samples.
    Captured { samples: usize },
    /// Silence trimming: the samples left, or why it failed.
    Trimmed(Result<usize, String>),
    /// The speech engine's transcript, or why it failed.
    Transcribed(Result<String, String>),
    /// No speech engine is loaded.
    NoEngine,
    /// The cleanup model's text, or why it failed.
    Cleaned(Result<String, String>),
    /// Whether keystrokes can be synthesized (the Accessibility grant).
    Access(bool),
}

/// A dictation event, as plain values.
pub enum DictationEventView {
    Captured { samples: usize },
    Trimmed(Result<usize, Seq<char>>),
    Transcribed(Result<Seq<char>, Seq<char>>),
    NoEngine,
    Cleaned(Result<Seq<char>, Seq<char>>),
    Access(bool),
}

impl View for DictationEvent {
    type V = DictationEventView;

    open spec fn view(&self) -> DictationEventView {
        match self {
            DictationEvent::Captured { samples } => DictationEventView::Captured { samples: *samples },
            DictationEvent::Trimmed(r) => DictationEventView::Trimmed(
                match r {
                    Ok(n) => Ok(*n),
                    Err(e) => Err(e@),
                },
            ),
            DictationEvent::Transcribed(r) => DictationEventView::Transcribed(outcome_chars(*r)),
            DictationEvent::NoEngine => DictationEventView::NoEngine,
            DictationEvent::Cleaned(r) => DictationEventView::Cleaned(outcome_chars(*r)),
            DictationEvent::Access(b) => DictationEventView::Access(*b),
        }
    }
}

/// What the app is to do next for a dictation.
pub enum DictationAction {
    /// The session was cancelled or replaced, or the event came out of
    /// turn: do nothing more.
    Stop,
    /// Show `message`, wait `hold_secs` seconds, then go idle.
    Notify { message: String, hold_secs: u64 },
    /// Go idle at once.
    Idle,
    /// Trim silence from the audio.
    TrimSilence,
    /// Run the speech engine on the trimmed audio, or on the untrimmed.
    Transcribe { trimmed: bool, prompt: Option<String>, language: String },
    /// Run the cleanup model.
    Cleanup { model: String, text: String, extra: Option<String> },
    /// Find out whether keystrokes can be synthesized.
    CheckAccess,
    /// Undo the last paste ("scratch that"), with a sound when sounds are on.
    Undo { sound: bool },
    /// Drop this dictation, with a sound when sounds are on.
    Abort { sound: bool },
    /// Save the dictation to the history, show `status`, and paste the text
    /// in `mode` when `paste`, else only copy it.
    Deliver { text: String, words: usize, paste: bool, mode: String, status: String },
}

/// A dictation action, as plain values.
pub enum DictationActionView {
    Stop,
    Notify { message: Seq<char>, hold_secs: u64 },
    Idle,
    TrimSilence,
    Transcribe { trimmed: bool, prompt: Option<Seq<char>>, language: Seq<char> },
    Cleanup { model: Seq<char>, text: Seq<char>, extra: Option<Seq<char>> },
    CheckAccess,
    Undo { sound: bool },
    Abort { sound: bool },
    Deliver { text: Seq<char>, words: nat, paste: bool, mode: Seq<char>, status: Seq<char> },
}

impl View for DictationAction {
    type V = DictationActionView;

    open spec fn view(&self) -> DictationActionView {
        match self {
            DictationAction::Stop => DictationActionView::Stop,
            DictationAction::Notify { message, hold_secs } => DictationActionView::Notify {
                message: message@,
                hold_secs: *hold_secs,
            },
            DictationAction::Idle => DictationActionView::Idle,
            DictationAction::TrimSilence => DictationActionView::TrimSilence,
            DictationAction::Transcribe { trimmed, prompt, language } => DictationActionView::Transcribe {
                trimmed: *trimmed,
                prompt: opt_chars(*prompt),
                language: language@,
            },
            DictationAction::Cleanup { model, text, extra } => DictationActionView::Cleanup {
                model: model@,
                text: text@,
                extra: opt_chars(*extra),
            },
            DictationAction::CheckAccess => DictationActionView::CheckAccess,
            DictationAction::Undo { sound } => DictationActionView::Undo { sound: *sound },
            DictationAction::Abort { sound } => DictationActionView::Abort { sound: *sound },
            DictationAction::Deliver { text, words, paste, mode, status } => DictationActionView::Deliver {
                text: text@,
                words: *words as nat,
                paste: *paste,
                mode: mode@,
                status: status@,
            },
        }
    }
}

/// The cleanup instruction for the app the user was in: its profile's
/// prompt, `None` when no profile applies or its prompt is empty.
pub open spec fn profile_extra(profiles: Seq<AppProfile>, frontmost: Option<Seq<char>>) -> Option<Seq<char>> {
    match frontmost {
        None => None,
        Some(name) => match profile_prompt_for(profiles, name) {
            Some(p) => if p.len() > 0 {
                Some(p)
            } else {
                None
            },
            None => None,
        },
    }
}

/// The engine runs with the trimmed or the untrimmed audio.
pub open spec fn transcribe_with(s: DictationView, trimmed: bool) -> (DictationView, DictationActionView) {
    (
        DictationView { stage: DictationStage::Transcribing, ..s },
        DictationActionView::Transcribe { trimmed, prompt: s.prompt, language: s.language },
    )
}

/// The text is final: a voice command is carried out, anything else is
/// delivered once the Accessibility grant is known.
pub open spec fn settle_text(s: DictationView) -> (DictationView, DictationActionView) {
    match command_of(s.text) {
        VoiceCommand::Undo => (
            DictationView { stage: DictationStage::Done, ..s },
            DictationActionView::Undo { sound: s.play_sounds },
        ),
        VoiceCommand::Abort => (
            DictationView { stage: DictationStage::Done, ..s },
            DictationActionView::Abort { sound: s.play_sounds },
        ),
        VoiceCommand::Keep => (
            DictationView { stage: DictationStage::Delivering, ..s },
            DictationActionView::CheckAccess,
        ),
    }
}

/// The dictation ends showing `message` for `secs` seconds.
pub open spec fn notify(s: DictationView, message: Seq<char>, secs: u64) -> (DictationView, DictationActionView) {
    (
        DictationView { stage: DictationStage::Done, ..s },
        DictationActionView::Notify { message, hold_secs: secs },
    )
}

/// One step of a stopped dictation: from its state and the outcome of the
/// last piece of outside work to its next state and action. The session is
/// checked where the pipeline commits to more work: before the engine runs,
/// once a transcript is in, and once cleanup is over; a session that is no
/// longer the current one stops there. Audio under a second, trimming that
/// leaves nothing, a failed or missing engine end with a notice; an empty
/// transcript ends quietly. A failed cleanup keeps the transcript. An event
/// that arrives out of turn stops the pipeline.
pub open spec fn dictation_step_spec(
    s: DictationView,
    current_session: u64,
    e: DictationEventView,
) -> (DictationView, DictationActionView) {
    let superseded = s.session_id != current_session;
    match e {
        DictationEventView::Captured { samples } => if s.stage != DictationStage::Captured {
            (s, DictationActionView::Stop)
        } else if samples < MIN_SAMPLES {
            notify(s, "Audio too short"@, 1)
        } else if s.trim_silence {
            (DictationView { stage: DictationStage::Trimming, ..s }, DictationActionView::TrimSilence)
        } else if superseded {
            (s, DictationActionView::Stop)
        } else {
            transcribe_with(s, false)
        },
        DictationEventView::Trimmed(r) => if s.stage != DictationStage::Trimming {
            (s, DictationActionView::Stop)
        } else {
            match r {
                Ok(n) => if n == 0 {
                    notify(s, "No speech detected"@, 1)
                } else if superseded {
                    (s, DictationActionView::Stop)
                } else {
                    transcribe_with(s, true)
                },
                Err(_) => if superseded {
                    (s, DictationActionView::Stop)
                } else {
                    transcribe_with(s, false)
                },
            }
        },
        DictationEventView::Transcribed(r) => if s.stage != DictationStage::Transcribing {
            (s, DictationActionView::Stop)
        } else {
            match r {
                Err(_) => notify(s, "⚠ Transcription failed"@, 2),
                Ok(t) => if superseded {
                    (s, DictationActionView::Stop)
                } else if t.len() == 0 {
                    (DictationView { stage: DictationStage::Done, ..s }, DictationActionView::Idle)
                } else {
                    match s.cleanup_model {
                        Some(m) => (
                            DictationView { stage: DictationStage::CleaningUp, text: t, ..s },
                            DictationActionView::Cleanup { model: m, text: t, extra: s.cleanup_extra },
                        ),
                        None => settle_text(DictationView { text: t, ..s }),
                    }
                },
            }
        },
        DictationEventView::NoEngine => if s.stage != DictationStage::Transcribing {
            (s, DictationActionView::Stop)
        } else {
            notify(s, "No model loaded"@, 1)
        },
        DictationEventView::Cleaned(r) => if s.stage != DictationStage::CleaningUp || superseded {
            (s, DictationActionView::Stop)
        } else {
            match r {
                Ok(c) => settle_text(DictationView { text: c, ..s }),
                Err(_) => settle_text(s),
            }
        },
        DictationEventView::Access(trusted) => if s.stage != DictationStage::Delivering {
            (s, DictationActionView::Stop)
        } else {
            (
                DictationView { stage: DictationStage::Done, ..s },
                DictationActionView::Deliver {
                    text: s.text,
                    words: word_count(s.text),
                    paste: trusted,
                    mode: s.output_mode,
                    status: delivery_text(trusted, word_count(s.text)),
                },
            )
        },
    }
}

impl DictationState {
    /// The pipeline of a dictation just stopped in session `session_id`,
    /// recorded under `settings` while the user was in `frontmost`.
    pub fn new(session_id: u64, settings: &Settings, frontmost: Option<&str>) -> (d: DictationState)
        ensures
            d.session_id == session_id,
            d.output_mode@ == settings.output_mode@,
            d.play_sounds == settings.play_sounds,
            d.trim_silence == settings.trim_silence,
            d.language@ == settings.language@,
            d@ == (DictationView {
                session_id,
                stage: DictationStage::Captured,
                trim_silence: settings.trim_silence,
                prompt: if settings.custom_prompt@.len() == 0 {
                    None
                } else {
                    Some(settings.custom_prompt@)
                },
                language: settings.language@,
                cleanup_model: if settings.llm_cleanup_enabled {
                    opt_chars(settings.ollama_model)
                } else {
                    None
                },
                cleanup_extra: profile_extra(
                    settings.app_profiles@,
                    match frontmost {
                        Some(n) => Some(n@),
                        None => None,
                    },
                ),
                output_mode: settings.output_mode@,
                play_sounds: settings.play_sounds,
                text: Seq::<char>::empty(),
            }),
    {
        let prompt = if settings.custom_prompt.as_str().is_empty() {
            None
        } else {
            Some(settings.custom_prompt.clone())
        };
        let cleanup_model = if settings.llm_cleanup_enabled {
            clone_opt(&settings.ollama_model)
        } else {
            None
        };
        let no_facts: Vec<String> = Vec::new();
        assert(crate::whisper::string_views(no_facts@) =~= Seq::<Seq<char>>::empty());
        let cleanup_extra = cleanup_context(match_app_profile(&settings.app_profiles, frontmost), false, &no_facts);
        DictationState {
            session_id,
            stage: DictationStage::Captured,
            trim_silence: settings.trim_silence,
            prompt,
            language: settings.language.clone(),
            cleanup_model,
            cleanup_extra,
            output_mode: settings.output_mode.clone(),
            play_sounds: settings.play_sounds,
            text: String::new(),
        }
    }

    /// This state at `stage`, holding `text`.
    fn with(&self, stage: DictationStage, text: String) -> (r: DictationState)
        ensures
            r@ == (DictationView { stage, text: text@, ..self@ }),
    {
        DictationState {
            session_id: self.session_id,
            stage,
            trim_silence: self.trim_silence,
            prompt: clone_opt(&self.prompt),
            language: self.language.clone(),
            cleanup_model: clone_opt(&self.cleanup_model),
            cleanup_extra: clone_opt(&self.cleanup_extra),
            output_mode: self.output_mode.clone(),
            play_sounds: self.play_sounds,
            text,
        }
    }

    /// This state, unchanged.
    fn copy(&self) -> (r: DictationState)
        ensures
            r@ == self@,
    {
        self.with(self.stage, self.text.clone())
    }
}

fn notify_step(s: &DictationState, message: &str, secs: u64) -> (r: (DictationState, DictationAction))
    ensures
        (r.0@, r.1@) == notify(s@, message@, secs),
{
    (s.with(DictationStage::Done, s.text.clone()), DictationAction::Notify { message: message.to_owned(), hold_secs: secs })
}

fn transcribe_step(s: &DictationState, trimmed: bool) -> (r: (DictationState, DictationAction))
    ensures
        (r.0@, r.1@) == transcribe_with(s@, trimmed),
{
    (
        s.with(DictationStage::Transcribing, s.text.clone()),
        DictationAction::Transcribe { trimmed, prompt: clone_opt(&s.prompt), language: s.language.clone() },
    )
}

fn settle_step(s: &DictationState) -> (r: (DictationState, DictationAction))
    ensures
        (r.0@, r.1@) == settle_text(s@),
{
    match voice_command(s.text.as_str()) {
        VoiceCommand::Undo => (s.with(DictationStage::Done, s.text.clone()), DictationAction::Undo { sound: s.play_sounds }),
        VoiceCommand::Abort => (s.with(DictationStage::Done, s.text.clone()), DictationAction::Abort { sound: s.play_sounds }),
        VoiceCommand::Keep => (s.with(DictationStage::Delivering, s.text.clone()), DictationAction::CheckAccess),
    }
}

/// One step of a stopped dictation (see `dictation_step_spec`). The app
/// carries out the action and hands back what it came to as the next event.
pub fn dictation_step(state: &DictationState, current_session: u64, event: DictationEvent) -> (r: (DictationState, DictationAction))
    ensures
        (r.0@, r.1@) == dictation_step_spec(state@, current_session, event@),
        state.session_id != current_session ==> !(r.1 is Transcribe) && !(r.1 is Cleanup) && !(
        r.1 is CheckAccess) && !(r.1 is Undo) && !(r.1 is Abort) && !(r.1 is Idle),
        (event matches DictationEvent::Cleaned(Err(_))) ==> r.0.text@ == state.text@,
        r.0.session_id == state.session_id,
        r.0.output_mode@ == state.output_mode@,
        r.0.play_sounds == state.play_sounds,
        r.1 matches DictationAction::Deliver { text, words, paste, mode, status } ==> {
            &&& mode@ == state.output_mode@
            &&& text@ == state.text@
            &&& words == word_count(state.text@)
            &&& event matches DictationEvent::Access(trusted)
            &&& paste == trusted
            &&& state.stage == DictationStage::Delivering
        },
        r.1 matches DictationAction::Cleanup { model, text, extra } ==> {
            &&& state.cleanup_model matches Some(m)
            &&& model@ == m@
            &&& event matches DictationEvent::Transcribed(Ok(t))
            &&& text@ == t@
            &&& r.0.text@ == t@
        },
{
    let superseded = state.session_id != current_session;
    match event {
        DictationEvent::Captured { samples } => {
            if state.stage != DictationStage::Captured {
                (state.copy(), DictationAction::Stop)
            } else if too_short(samples) {
                notify_step(state, "Audio too short", 1)
            } else if state.trim_silence {
                (state.with(DictationStage::Trimming, state.text.clone()), DictationAction::TrimSilence)
            } else if superseded {
                (state.copy(), DictationAction::Stop)
            } else {
                transcribe_step(state, false)
            }
        },
        DictationEvent::Trimmed(r) => {
            if state.stage != DictationStage::Trimming {
                (state.copy(), DictationAction::Stop)
            } else {
                match r {
                    Ok(n) => if n == 0 {
                        notify_step(state, "No speech detected", 1)
                    } else if superseded {
                        (state.copy(), DictationAction::Stop)
                    } else {
                        transcribe_step(state, true)
                    },
                    Err(_) => if superseded {
                        (state.copy(), DictationAction::Stop)
                    } else {
                        transcribe_step(state, false)
                    },
                }
            }
        },
        DictationEvent::Transcribed(r) => {
            if state.stage != DictationStage::Transcribing {
                (state.copy(), DictationAction::Stop)
            } else {
                match r {
                    Err(_) => notify_step(state, "⚠ Transcription failed", 2),
                    Ok(t) => if superseded {
                        (state.copy(), DictationAction::Stop)
                    } else if t.as_str().is_empty() {
                        (state.with(DictationStage::Done, state.text.clone()), DictationAction::Idle)
                    } else {
                        match &state.cleanup_model {
                            Some(m) => (
                                state.with(DictationStage::CleaningUp, t.clone()),
                                DictationAction::Cleanup { model: m.clone(), text: t, extra: clone_opt(&state.cleanup_extra) },
                            ),
                            None => settle_step(&state.with(state.stage, t)),
                        }
                    },
                }
            }
        },
        DictationEvent::NoEngine => {
            if state.stage != DictationStage::Transcribing {
                (state.copy(), DictationAction::Stop)
            } else {
                notify_step(state, "No model loaded", 1)
            }
        },
        DictationEvent::Cleaned(r) => {
            if state.stage != DictationStage::CleaningUp || superseded {
                (state.copy(), DictationAction::Stop)
            } else {
                match r {
                    Ok(c) => settle_step(&state.with(state.stage, c)),
                    Err(_) => settle_step(state),
                }
            }
        },
        DictationEvent::Access(trusted) => {
            if state.stage != DictationStage::Delivering {
                (state.copy(), DictationAction::Stop)
            } else {
                let words = count_words(state.text.as_str());
                (
                    state.with(DictationStage::Done, state.text.clone()),
                    DictationAction::Deliver {
                        text: state.text.clone(),
                        words,
                        paste: trusted,
                        mode: state.output_mode.clone(),
                        status: delivery_status(trusted, words),
                    },
                )
            }
        },
    }
}


/// A dictation keeps the output mode, session and sound setting it was
/// recorded under through every step, and when it is delivered, it is
/// delivered in that mode, with its own text and word count, pasted exactly
/// when keystrokes can be synthesized.
pub proof fn law_delivery_keeps_the_chosen_output_mode(s: DictationView, current_session: u64, e: DictationEventView)
    ensures
        dictation_step_spec(s, current_session, e).0.output_mode == s.output_mode,
        dictation_step_spec(s, current_session, e).0.session_id == s.session_id,
        dictation_step_spec(s, current_session, e).0.play_sounds == s.play_sounds,
        dictation_step_spec(s, current_session, e).1 matches DictationActionView::Deliver {
            text,
            words,
            paste,
            mode,
            status,
        } ==> {
            &&& mode == s.output_mode
            &&& text == s.text
            &&& words == word_count(s.text)
            &&& e == DictationEventView::Access(paste)
        },
{
}

proof fn lemma_no_ws_run(w: Seq<char>)
    requires
        w.len() > 0,
        forall|i: int| 0 <= i < w.len() ==> !is_ws(#[trigger] w[i]),
    ensures
        word_count(w) == 1,
    decreases w.len(),
{
    assert(!is_ws(w[w.len() - 1]));
    assert(w.last() == w[w.len() - 1]);
    if w.len() > 1 {
        assert forall|i: int| 0 <= i < w.drop_last().len() implies !is_ws(#[trigger] w.drop_last()[i]) by {
            assert(w.drop_last()[i] == w[i]);
        }
        lemma_no_ws_run(w.drop_last());
        assert(!is_ws(w[w.len() - 2]));
        assert(word_count(w) == word_count(w.drop_last()));
    } else {
        assert(w.drop_last() =~= Seq::<char>::empty());
        assert(word_count(w.drop_last()) == 0);
        assert(word_count(w) == word_count(w.drop_last()) + 1);
    }
}

/// A non-empty run of characters none of which is whitespace is one word.
pub proof fn law_a_run_without_whitespace_is_one_word(w: Seq<char>)
    requires
        w.len() > 0,
        forall|i: int| 0 <= i < w.len() ==> !is_ws(#[trigger] w[i]),
    ensures
        word_count(w) == 1,
{
    lemma_no_ws_run(w);
}

/// Text made of whitespace alone (spaces, tabs, newlines, any Unicode
/// `White_Space`) has no words.
pub proof fn law_whitespace_alone_has_no_words(w: Seq<char>)
    requires
        forall|i: int| 0 <= i < w.len() ==> is_ws(#[trigger] w[i]),
    ensures
        word_count(w) == 0,
    decreases w.len(),
{
    if w.len() > 0 {
        assert forall|i: int| 0 <= i < w.drop_last().len() implies is_ws(#[trigger] w.drop_last()[i]) by {
            assert(w.drop_last()[i] == w[i]);
        }
        law_whitespace_alone_has_no_words(w.drop_last());
        assert(is_ws(w[w.len() - 1]));
    }
}

/// Any whitespace character separates words: text `a`, one whitespace
/// character (a space, a tab, a newline, any Unicode `White_Space`), then
/// text `b`, has the words of `a` plus the words of `b`.
pub proof fn law_whitespace_separates_words(a: Seq<char>, c: char, b: Seq<char>)
    requires
        is_ws(c),
    ensures
        word_count(a + seq![c] + b) == word_count(a) + word_count(b),
    decreases b.len(),
{
    let t = a + seq![c] + b;
    if b.len() == 0 {
        assert(t.drop_last() =~= a);
        assert(t.last() == c);
    } else {
        law_whitespace_separates_words(a, c, b.drop_last());
        assert(t.drop_last() =~= a + seq![c] + b.drop_last());
        assert(t.last() == b.last());
        if b.len() >= 2 {
            assert(t[t.len() - 2] == b[b.len() - 2]);
        } else {
            assert(t[t.len() - 2] == c);
            assert(b.drop_last() =~= Seq::<char>::empty());
        }
    }
}

} // verus!
