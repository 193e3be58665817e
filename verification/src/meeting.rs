//! Meeting notes: when a recording may start or stop, how speaker turns are
//! labelled and timestamped, and what a meeting is called and summarized with.
use vstd::prelude::*;
use crate::text::{decimal, push_decimal, trim, trim_range, chars_of, string_of, join, join_from, views};
use crate::whisper::string_views;
use crate::db::Settings;
use crate::ollama::MeetingAnalysis;
use crate::recording::{opt_chars, outcome_chars, MIN_SAMPLES};

verus! {

/// Whether a meeting recording may start.
pub fn meeting_start_check(dictating: bool, meeting_recording: bool) -> (r: Result<(), String>)
    ensures
        dictating ==> (r matches Err(e) && e@ == "Dictation in progress — stop it first"@),
        !dictating && meeting_recording ==> (r matches Err(e) && e@ == "Meeting recording already in progress"@),
        !dictating && !meeting_recording ==> r is Ok,
{
    if dictating {
        return Err("Dictation in progress — stop it first".to_owned());
    }
    if meeting_recording {
        return Err("Meeting recording already in progress".to_owned());
    }
    Ok(())
}

/// Whether a meeting recording may be stopped.
pub fn meeting_stop_check(meeting_recording: bool) -> (r: Result<(), String>)
    ensures
        meeting_recording ==> r is Ok,
        !meeting_recording ==> (r matches Err(e) && e@ == "No meeting recording in progress"@),
{
    if meeting_recording {
        Ok(())
    } else {
        Err("No meeting recording in progress".to_owned())
    }
}

/// What cancelling does.
#[derive(PartialEq, Eq, Structural)]
pub enum CancelAction {
    /// Still capturing: stop and throw the audio away.
    DiscardRecording,
    /// Capture is over: tell the running pipeline to stop before it saves.
    AbandonPipeline,
}

/// Cancelling while capturing discards the capture; afterwards it abandons
/// the transcription or summary under way. Dictation and meetings cancel
/// alike.
pub fn cancel_action(recording: bool) -> (r: CancelAction)
    ensures
        recording ==> r == CancelAction::DiscardRecording,
        !recording ==> r == CancelAction::AbandonPipeline,
{
    if recording {
        CancelAction::DiscardRecording
    } else {
        CancelAction::AbandonPipeline
    }
}

/// The model a meeting is summarized with: its own, else the cleanup model.
pub fn meeting_model(meeting_ollama_model: Option<String>, ollama_model: Option<String>) -> (r: Option<String>)
    ensures
        r == match meeting_ollama_model {
            Some(m) => Some(m),
            None => ollama_model,
        },
{
    match meeting_ollama_model {
        Some(m) => Some(m),
        None => ollama_model,
    }
}

/// A meeting's title: the one its analysis gave, or its length in minutes.
pub fn meeting_title(analysis_title: String, minutes: u64) -> (r: String)
    ensures
        analysis_title@.len() > 0 ==> r@ == analysis_title@,
        analysis_title@.len() == 0 ==> r@ == "Meeting · "@ + decimal(minutes as nat) + " min"@,
{
    if analysis_title.as_str().is_empty() {
        let mut t = "Meeting · ".to_owned();
        push_decimal(&mut t, minutes);
        t.append(" min");
        t
    } else {
        analysis_title
    }
}

/// `n` (below 100) in two digits.
pub open spec fn two_digits(n: nat) -> Seq<char> {
    if n < 10 {
        seq!['0'] + decimal(n)
    } else {
        decimal(n)
    }
}

/// A turn's start as the transcript shows it: `h:mm:ss` from an hour on, `mm:ss` before.
pub open spec fn timestamp(secs: nat) -> Seq<char> {
    let h = secs / 3600;
    let m = (secs % 3600) / 60;
    let s = secs % 60;
    if h > 0 {
        decimal(h) + ":"@ + two_digits(m) + ":"@ + two_digits(s)
    } else {
        two_digits(m) + ":"@ + two_digits(s)
    }
}

fn push_two_digits(out: &mut String, n: u64)
    requires
        n < 100,
    ensures
        final(out)@ == old(out)@ + two_digits(n as nat),
{
    if n < 10 {
        out.push('0');
    }
    push_decimal(out, n);
}

/// Formats whole seconds as a transcript timestamp.
pub fn fmt_ts(secs: u64) -> (r: String)
    ensures
        r@ == timestamp(secs as nat),
{
    let h = secs / 3600;
    let m = (secs % 3600) / 60;
    let s = secs % 60;
    let mut out = String::new();
    if h > 0 {
        push_decimal(&mut out, h);
        out.append(":");
    }
    push_two_digits(&mut out, m);
    out.append(":");
    push_two_digits(&mut out, s);
    out
}

/// The position of the first `x` in `s`.
pub open spec fn position(s: Seq<i32>, x: i32) -> int
    decreases s.len(),
{
    if s.len() == 0 {
        0
    } else if s[0] == x {
        0
    } else {
        position(s.drop_first(), x) + 1
    }
}

/// The speakers of `turns`, each once, in the order they first speak.
pub open spec fn speaker_order(turns: Seq<i32>) -> Seq<i32>
    decreases turns.len(),
{
    if turns.len() == 0 {
        Seq::<i32>::empty()
    } else if speaker_order(turns.drop_last()).contains(turns.last()) {
        speaker_order(turns.drop_last())
    } else {
        speaker_order(turns.drop_last()).push(turns.last())
    }
}

/// The label number of a speaker: 1 for whoever speaks first, and so on.
pub open spec fn speaker_number(turns: Seq<i32>, spk: i32) -> int {
    position(speaker_order(turns), spk) + 1
}

proof fn lemma_position_push(s: Seq<i32>, x: i32, y: i32)
    requires
        s.contains(y),
    ensures
        position(s.push(x), y) == position(s, y),
        0 <= position(s, y) < s.len(),
    decreases s.len(),
{
    if s[0] == y {
        assert(s.push(x)[0] == y);
    } else {
        let i = choose|i: int| 0 <= i < s.len() && s[i] == y;
        assert(s.drop_first()[i - 1] == y);
        lemma_position_push(s.drop_first(), x, y);
        assert(s.push(x).drop_first() =~= s.drop_first().push(x));
    }
}

proof fn lemma_position_new(s: Seq<i32>, x: i32)
    requires
        !s.contains(x),
    ensures
        position(s.push(x), x) == s.len(),
    decreases s.len(),
{
    if s.len() > 0 {
        assert(s[0] != x);
        assert(s.push(x).drop_first() =~= s.drop_first().push(x));
        assert(!s.drop_first().contains(x)) by {
            if s.drop_first().contains(x) {
                let i = choose|i: int| 0 <= i < s.drop_first().len() && s.drop_first()[i] == x;
                assert(s[i + 1] == x);
            }
        }
        lemma_position_new(s.drop_first(), x);
    } else {
        assert(s.push(x)[0] == x);
    }
}

proof fn lemma_position_first(s: Seq<i32>, x: i32, j: int)
    requires
        0 <= j < s.len(),
        s[j] == x,
        forall|t: int| 0 <= t < j ==> s[t] != x,
    ensures
        position(s, x) == j,
    decreases j,
{
    if j > 0 {
        lemma_position_first(s.drop_first(), x, j - 1);
    }
}

proof fn lemma_order_contains(turns: Seq<i32>, k: int)
    requires
        0 <= k < turns.len(),
    ensures
        speaker_order(turns).contains(turns[k]),
        speaker_order(turns).len() <= turns.len(),
    decreases turns.len(),
{
    let p = turns.drop_last();
    if k < turns.len() - 1 {
        lemma_order_contains(p, k);
        assert(p[k] == turns[k]);
        if !speaker_order(p).contains(turns.last()) {
            let i = choose|i: int| 0 <= i < speaker_order(p).len() && speaker_order(p)[i] == turns[k];
            assert(speaker_order(p).push(turns.last())[i] == turns[k]);
        }
    } else {
        if speaker_order(p).contains(turns.last()) {
        } else {
            assert(speaker_order(p).push(turns.last())[speaker_order(p).len() as int] == turns.last());
        }
        if p.len() > 0 {
            lemma_order_contains(p, 0);
        }
    }
}

/// The label number of each turn's speaker, speakers numbered from 1 in the
/// order they first speak.
pub fn speaker_numbers(turns: &Vec<i32>) -> (r: Vec<usize>)
    ensures
        r.len() == turns.len(),
        forall|k: int| 0 <= k < turns.len() ==> r@[k] == speaker_number(turns@, #[trigger] turns@[k]),
{
    let mut order: Vec<i32> = Vec::new();
    let mut i: usize = 0;
    assert(turns@.take(0) =~= Seq::<i32>::empty());
    while i < turns.len()
        invariant
            i <= turns.len(),
            order@ == speaker_order(turns@.take(i as int)),
            order.len() <= i,
        decreases turns.len() - i,
    {
        let x = turns[i];
        let mut seen = false;
        let mut j: usize = 0;
        while j < order.len()
            invariant
                j <= order.len(),
                seen == exists|t: int| 0 <= t < j && order@[t] == x,
            decreases order.len() - j,
        {
            if order[j] == x {
                seen = true;
            }
            j = j + 1;
        }
        proof {
            assert(turns@.take(i + 1).drop_last() =~= turns@.take(i as int));
            assert(turns@.take(i + 1).last() == x);
        }
        if !seen {
            order.push(x);
        }
        i = i + 1;
    }
    assert(turns@.take(turns.len() as int) =~= turns@);
    let ghost ord = speaker_order(turns@);
    let mut out: Vec<usize> = Vec::new();
    let mut k: usize = 0;
    while k < turns.len()
        invariant
            k <= turns.len(),
            order@ == ord,
            ord == speaker_order(turns@),
            order.len() <= turns.len(),
            out.len() == k,
            forall|t: int| 0 <= t < k ==> out@[t] == speaker_number(turns@, #[trigger] turns@[t]),
        decreases turns.len() - k,
    {
        let x = turns[k];
        proof {
            lemma_order_contains(turns@, k as int);
            lemma_position_push(ord, x, x);
        }
        let mut j: usize = 0;
        while j < order.len() && order[j] != x
            invariant
                j <= order.len(),
                order@ == ord,
                forall|t: int| 0 <= t < j ==> ord[t] != x,
            decreases order.len() - j,
        {
            j = j + 1;
        }
        proof {
            if j == order.len() {
                let t = choose|t: int| 0 <= t < ord.len() && ord[t] == x;
                assert(false);
            }
            lemma_position_first(ord, x, j as int);
        }
        out.push(j + 1);
        k = k + 1;
    }
    out
}

/// One transcript line: `[timestamp] Speaker N: text`.
pub open spec fn turn_line(start_secs: nat, number: nat, text: Seq<char>) -> Seq<char> {
    "["@ + timestamp(start_secs) + "] Speaker "@ + decimal(number) + ": "@ + trim(text)
}

/// The lines of the first `n` turns that produced text.
pub open spec fn turn_lines(
    speakers: Seq<i32>,
    starts: Seq<u64>,
    texts: Seq<Option<Seq<char>>>,
    n: int,
) -> Seq<Seq<char>>
    decreases n,
{
    if n <= 0 {
        Seq::<Seq<char>>::empty()
    } else {
        let prev = turn_lines(speakers, starts, texts, n - 1);
        match texts[n - 1] {
            Some(t) => if trim(t).len() > 0 {
                prev.push(
                    turn_line(
                        starts[n - 1] as nat,
                        speaker_number(speakers, speakers[n - 1]) as nat,
                        t,
                    ),
                )
            } else {
                prev
            },
            None => prev,
        }
    }
}

/// The views of optional strings.
pub open spec fn option_views(v: Seq<Option<String>>) -> Seq<Option<Seq<char>>> {
    v.map_values(
        |o: Option<String>|
            match o {
                Some(s) => Some(s@),
                None => None,
            },
    )
}

/// The outcome of labelling a diarized meeting.
pub open spec fn diarized_outcome(
    speakers: Seq<i32>,
    starts: Seq<u64>,
    texts: Seq<Option<Seq<char>>>,
) -> Result<Seq<char>, Seq<char>> {
    let lines = turn_lines(speakers, starts, texts, speakers.len() as int);
    if speakers.len() == 0 {
        Err("no speaker segments found"@)
    } else if lines.len() == 0 {
        Err("no speech in any segment"@)
    } else {
        Ok(join(lines, seq!['\n']))
    }
}

/// Writes a diarized meeting as speaker-labelled lines. Turn `k` is spoken
/// by `speakers[k]`, starts `starts[k]` whole seconds in, and transcribed to
/// `texts[k]` (`None` when that failed or the turn was too short); turns
/// without text get no line.
pub fn speaker_transcript(
    speakers: &Vec<i32>,
    starts: &Vec<u64>,
    texts: &Vec<Option<String>>,
) -> (r: Result<String, String>)
    requires
        starts.len() == speakers.len(),
        texts.len() == speakers.len(),
    ensures
        match r {
            Ok(t) => diarized_outcome(speakers@, starts@, option_views(texts@)) == Ok::<Seq<char>, Seq<char>>(t@),
            Err(e) => diarized_outcome(speakers@, starts@, option_views(texts@)) == Err::<Seq<char>, Seq<char>>(e@),
        },
{
    if speakers.len() == 0 {
        return Err("no speaker segments found".to_owned());
    }
    let numbers = speaker_numbers(speakers);
    let ghost tv = option_views(texts@);
    let mut lines: Vec<Vec<char>> = Vec::new();
    let mut k: usize = 0;
    while k < speakers.len()
        invariant
            k <= speakers.len() == starts.len() == texts.len() == numbers.len(),
            tv == option_views(texts@),
            forall|j: int| 0 <= j < speakers.len() ==> numbers@[j] == speaker_number(speakers@, #[trigger] speakers@[j]),
            views(lines@) == turn_lines(speakers@, starts@, tv, k as int),
        decreases speakers.len() - k,
    {
        match &texts[k] {
            Some(t) => {
                let tc = chars_of(t.as_str());
                let tt = trim_range(&tc, 0, tc.len());
                assert(tc@.subrange(0, tc.len() as int) =~= tc@);
                if tt.len() > 0 {
                    let mut line = "[".to_owned();
                    line.append(fmt_ts(starts[k]).as_str());
                    line.append("] Speaker ");
                    push_decimal(&mut line, numbers[k] as u64);
                    line.append(": ");
                    line.append(string_of(&tt).as_str());
                    let lv = chars_of(line.as_str());
                    lines.push(lv);
                    assert(views(lines@) =~= views(lines@).drop_last().push(lines@.last()@));
                }
            },
            None => {},
        }
        k = k + 1;
    }
    if lines.len() == 0 {
        return Err("no speech in any segment".to_owned());
    }
    let mut nl: Vec<char> = Vec::new();
    nl.push('\n');
    assert(nl@ =~= seq!['\n']);
    let out = join_from(&lines, 0, &nl);
    assert(views(lines@).skip(0) =~= views(lines@));
    Ok(string_of(&out))
}

/// The progress line while turn `i` (from 0) of `total` is transcribed.
pub fn turn_progress(i: usize, total: usize) -> (r: String)
    requires
        i < total,
    ensures
        r@ == "Transcribing turn "@ + decimal((i + 1) as nat) + " of "@ + decimal(total as nat),
{
    let mut m = "Transcribing turn ".to_owned();
    push_decimal(&mut m, (i + 1) as u64);
    m.append(" of ");
    push_decimal(&mut m, total as u64);
    m
}

proof fn lemma_order_starts_with_first(turns: Seq<i32>)
    requires
        turns.len() > 0,
    ensures
        speaker_order(turns).len() > 0,
        speaker_order(turns)[0] == turns[0],
    decreases turns.len(),
{
    if turns.len() > 1 {
        lemma_order_starts_with_first(turns.drop_last());
    } else {
        assert(speaker_order(turns.drop_last()) =~= Seq::<i32>::empty());
    }
}

proof fn lemma_position_in_bounds(s: Seq<i32>, x: i32)
    requires
        s.contains(x),
    ensures
        0 <= position(s, x) < s.len(),
    decreases s.len(),
{
    if s[0] != x {
        let i = choose|i: int| 0 <= i < s.len() && s[i] == x;
        assert(s.drop_first()[i - 1] == x);
        lemma_position_in_bounds(s.drop_first(), x);
    }
}

/// Whoever speaks first is Speaker 1, and every turn's speaker gets a number
/// between 1 and the number of distinct speakers.
pub proof fn law_speakers_numbered_by_first_appearance(turns: Seq<i32>, k: int)
    requires
        0 <= k < turns.len(),
    ensures
        speaker_number(turns, turns[0]) == 1,
        1 <= speaker_number(turns, turns[k]) <= speaker_order(turns).len(),
{
    lemma_order_starts_with_first(turns);
    lemma_order_contains(turns, k);
    lemma_position_in_bounds(speaker_order(turns), turns[k]);
}

proof fn lemma_two_digits(n: nat)
    requires
        n < 100,
    ensures
        two_digits(n).len() == 2,
{
    if n >= 10 {
        assert(decimal(n / 10).len() == 1);
    }
}

/// A turn in the first hour is stamped `mm:ss`, five characters.
pub proof fn law_first_hour_stamps_are_mm_ss(secs: nat)
    requires
        secs < 3600,
    ensures
        timestamp(secs).len() == 5,
        timestamp(secs)[2] == ':',
{
    reveal_strlit(":");
    assert(secs / 3600 == 0);
    lemma_two_digits((secs % 3600) / 60);
    lemma_two_digits(secs % 60);
    let a = two_digits((secs % 3600) / 60);
    let t = a + ":"@ + two_digits(secs % 60);
    assert(t[2] == ":"@[0]);
}


/// Whole minutes, rounded up, of this many 16 kHz samples.
pub open spec fn meeting_minutes(samples: nat) -> nat {
    (samples + 959_999) / 960_000
}

/// What a saved meeting holds besides its id, time and length.
pub struct MeetingDraft {
    pub title: String,
    pub transcript: String,
    pub summary: String,
    pub minutes: Vec<String>,
    pub decisions: Vec<String>,
    pub action_items: Vec<String>,
}

/// A meeting draft, as plain values.
pub struct DraftView {
    pub title: Seq<char>,
    pub transcript: Seq<char>,
    pub summary: Seq<char>,
    pub minutes: Seq<Seq<char>>,
    pub decisions: Seq<Seq<char>>,
    pub action_items: Seq<Seq<char>>,
}

impl View for MeetingDraft {
    type V = DraftView;

    open spec fn view(&self) -> DraftView {
        DraftView {
            title: self.title@,
            transcript: self.transcript@,
            summary: self.summary@,
            minutes: string_views(self.minutes@),
            decisions: string_views(self.decisions@),
            action_items: string_views(self.action_items@),
        }
    }
}

/// An analysis, as plain values.
pub struct AnalysisView {
    pub title: Seq<char>,
    pub summary: Seq<char>,
    pub minutes: Seq<Seq<char>>,
    pub decisions: Seq<Seq<char>>,
    pub action_items: Seq<Seq<char>>,
}

/// The plain values of an analysis.
pub open spec fn analysis_view(a: MeetingAnalysis) -> AnalysisView {
    AnalysisView {
        title: a.title@,
        summary: a.summary@,
        minutes: string_views(a.minutes@),
        decisions: string_views(a.decisions@),
        action_items: string_views(a.action_items@),
    }
}

/// Where a stopped meeting's processing stands.
#[derive(Clone, Copy, PartialEq, Eq, Structural)]
pub enum MeetingStage {
    /// The audio is read back from disk.
    Captured,
    /// Its level is being normalized.
    Normalizing,
    /// Speakers are being told apart and their turns transcribed.
    Diarizing,
    /// The whole recording is being transcribed.
    Transcribing,
    /// The analysis model is running.
    Summarizing,
    /// Nothing more to do.
    Done,
}

/// A stopped meeting on its way from audio to a saved record.
pub struct MeetingState {
    /// The session this pipeline belongs to.
    pub session_id: u64,
    pub stage: MeetingStage,
    /// Label speakers: asked for, and the diarization models are on disk.
    pub diarize: bool,
    /// The speaker count the user gave, if any.
    pub num_speakers: Option<i32>,
    /// The analysis model, if any.
    pub model: Option<String>,
    /// The recording's length in whole minutes, rounded up.
    pub minutes: u64,
    pub transcript: String,
}

/// A meeting's state, as plain values.
pub struct MeetingView {
    pub session_id: u64,
    pub stage: MeetingStage,
    pub diarize: bool,
    pub num_speakers: Option<i32>,
    pub model: Option<Seq<char>>,
    pub minutes: u64,
    pub transcript: Seq<char>,
}

impl View for MeetingState {
    type V = MeetingView;

    open spec fn view(&self) -> MeetingView {
        MeetingView {
            session_id: self.session_id,
            stage: self.stage,
            diarize: self.diarize,
            num_speakers: self.num_speakers,
            model: opt_chars(self.model),
            minutes: self.minutes,
            transcript: self.transcript@,
        }
    }
}

/// What the outside work of a meeting came back with.
pub enum MeetingEvent {
    /// The recording read back: this many 16 kHz samples.
    Captured { samples: usize },
    /// The audio is normalized.
    Normalized,
    /// The speaker-labelled transcript, or why diarization failed.
    Diarized(Result<String, String>),
    /// The plain transcript, or why transcription failed.
    Transcribed(Result<String, String>),
    /// No speech engine is loaded.
    NoEngine,
    /// The analysis, or why it failed.
    Summarized(Result<MeetingAnalysis, String>),
}

/// A meeting event, as plain values.
pub enum MeetingEventView {
    Captured { samples: usize },
    Normalized,
    Diarized(Result<Seq<char>, Seq<char>>),
    Transcribed(Result<Seq<char>, Seq<char>>),
    NoEngine,
    Summarized(Result<AnalysisView, Seq<char>>),
}

impl View for MeetingEvent {
    type V = MeetingEventView;

    open spec fn view(&self) -> MeetingEventView {
        match self {
            MeetingEvent::Captured { samples } => MeetingEventView::Captured { samples: *samples },
            MeetingEvent::Normalized => MeetingEventView::Normalized,
            MeetingEvent::Diarized(r) => MeetingEventView::Diarized(outcome_chars(*r)),
            MeetingEvent::Transcribed(r) => MeetingEventView::Transcribed(outcome_chars(*r)),
            MeetingEvent::NoEngine => MeetingEventView::NoEngine,
            MeetingEvent::Summarized(r) => MeetingEventView::Summarized(
                match r {
                    Ok(a) => Ok(analysis_view(*a)),
                    Err(e) => Err(e@),
                },
            ),
        }
    }
}

/// What the app is to do next for a meeting.
pub enum MeetingAction {
    /// The session was cancelled or replaced, or the event came out of
    /// turn: do nothing more.
    Stop,
    /// Report this error state; nothing is saved.
    Fail(String),
    /// Normalize the audio's level.
    Normalize,
    /// Diarize and transcribe turn by turn.
    Diarize { num_speakers: Option<i32> },
    /// Transcribe the whole recording.
    Transcribe,
    /// Run the analysis model on the transcript.
    Summarize { model: String, transcript: String },
    /// Save the meeting, reporting `notice` first when there is one.
    Save { draft: MeetingDraft, notice: Option<String> },
}

/// A meeting action, as plain values.
pub enum MeetingActionView {
    Stop,
    Fail(Seq<char>),
    Normalize,
    Diarize { num_speakers: Option<i32> },
    Transcribe,
    Summarize { model: Seq<char>, transcript: Seq<char> },
    Save { draft: DraftView, notice: Option<Seq<char>> },
}

impl View for MeetingAction {
    type V = MeetingActionView;

    open spec fn view(&self) -> MeetingActionView {
        match self {
            MeetingAction::Stop => MeetingActionView::Stop,
            MeetingAction::Fail(m) => MeetingActionView::Fail(m@),
            MeetingAction::Normalize => MeetingActionView::Normalize,
            MeetingAction::Diarize { num_speakers } => MeetingActionView::Diarize { num_speakers: *num_speakers },
            MeetingAction::Transcribe => MeetingActionView::Transcribe,
            MeetingAction::Summarize { model, transcript } => MeetingActionView::Summarize {
                model: model@,
                transcript: transcript@,
            },
            MeetingAction::Save { draft, notice } => MeetingActionView::Save {
                draft: draft@,
                notice: opt_chars(*notice),
            },
        }
    }
}

/// The title a meeting without an analysed title gets.
pub open spec fn fallback_title(minutes: u64) -> Seq<char> {
    "Meeting · "@ + decimal(minutes as nat) + " min"@
}

/// The record of a meeting saved with its transcript alone: no summary, no
/// lists, titled by its length.
pub open spec fn transcript_only_record(s: MeetingView) -> DraftView {
    DraftView {
        title: fallback_title(s.minutes),
        transcript: s.transcript,
        summary: Seq::<char>::empty(),
        minutes: Seq::<Seq<char>>::empty(),
        decisions: Seq::<Seq<char>>::empty(),
        action_items: Seq::<Seq<char>>::empty(),
    }
}

/// The record of a meeting saved with its analysis.
pub open spec fn analysed_record(s: MeetingView, a: AnalysisView) -> DraftView {
    DraftView {
        title: if a.title.len() > 0 {
            a.title
        } else {
            fallback_title(s.minutes)
        },
        transcript: s.transcript,
        summary: a.summary,
        minutes: a.minutes,
        decisions: a.decisions,
        action_items: a.action_items,
    }
}

/// A transcript is in: an empty one fails; otherwise a session no longer
/// current stops, and the transcript is summarized when there is a model,
/// else saved as it is.
pub open spec fn transcript_in(s: MeetingView, superseded: bool, t: Seq<char>) -> (MeetingView, MeetingActionView) {
    if t.len() == 0 {
        (MeetingView { stage: MeetingStage::Done, ..s }, MeetingActionView::Fail("error: empty transcript"@))
    } else if superseded {
        (s, MeetingActionView::Stop)
    } else {
        match s.model {
            Some(m) => (
                MeetingView { stage: MeetingStage::Summarizing, transcript: t, ..s },
                MeetingActionView::Summarize { model: m, transcript: t },
            ),
            None => (
                MeetingView { stage: MeetingStage::Done, transcript: t, ..s },
                MeetingActionView::Save {
                    draft: transcript_only_record(MeetingView { transcript: t, ..s }),
                    notice: None,
                },
            ),
        }
    }
}

/// The notice a failed summary is reported with.
pub open spec fn summary_failed_notice(e: Seq<char>) -> Seq<char> {
    "error: summary failed ("@ + e + ") — transcript saved"@
}

/// The meeting ends with an error state.
pub open spec fn fail(s: MeetingView, message: Seq<char>) -> (MeetingView, MeetingActionView) {
    (MeetingView { stage: MeetingStage::Done, ..s }, MeetingActionView::Fail(message))
}

/// One step of a stopped meeting: from its state and the outcome of the
/// last piece of outside work to its next state and action. The session is
/// checked before normalizing, after it, once a non-empty transcript is in,
/// and once the summary is in; a session no longer current stops there (a
/// failed summary is still reported, and nothing is saved). A failed
/// diarization falls back to plain transcription; a failed summary still
/// saves the transcript, with a notice. An event out of turn stops.
pub open spec fn meeting_step_spec(
    s: MeetingView,
    current_session: u64,
    e: MeetingEventView,
) -> (MeetingView, MeetingActionView) {
    let superseded = s.session_id != current_session;
    match e {
        MeetingEventView::Captured { samples } => if s.stage != MeetingStage::Captured {
            (s, MeetingActionView::Stop)
        } else if samples < MIN_SAMPLES {
            fail(s, "error: audio too short"@)
        } else if superseded {
            (s, MeetingActionView::Stop)
        } else {
            (
                MeetingView {
                    stage: MeetingStage::Normalizing,
                    minutes: meeting_minutes(samples as nat) as u64,
                    ..s
                },
                MeetingActionView::Normalize,
            )
        },
        MeetingEventView::Normalized => if s.stage != MeetingStage::Normalizing || superseded {
            (s, MeetingActionView::Stop)
        } else if s.diarize {
            (
                MeetingView { stage: MeetingStage::Diarizing, ..s },
                MeetingActionView::Diarize { num_speakers: s.num_speakers },
            )
        } else {
            (MeetingView { stage: MeetingStage::Transcribing, ..s }, MeetingActionView::Transcribe)
        },
        MeetingEventView::Diarized(r) => if s.stage != MeetingStage::Diarizing {
            (s, MeetingActionView::Stop)
        } else {
            match r {
                Ok(t) => transcript_in(s, superseded, t),
                Err(_) => (MeetingView { stage: MeetingStage::Transcribing, ..s }, MeetingActionView::Transcribe),
            }
        },
        MeetingEventView::Transcribed(r) => if s.stage != MeetingStage::Transcribing {
            (s, MeetingActionView::Stop)
        } else {
            match r {
                Ok(t) => transcript_in(s, superseded, t),
                Err(_) => fail(s, "error: transcription failed"@),
            }
        },
        MeetingEventView::NoEngine => if s.stage != MeetingStage::Transcribing {
            (s, MeetingActionView::Stop)
        } else {
            fail(s, "error: no model loaded"@)
        },
        MeetingEventView::Summarized(r) => if s.stage != MeetingStage::Summarizing {
            (s, MeetingActionView::Stop)
        } else {
            match r {
                Ok(a) => if superseded {
                    (s, MeetingActionView::Stop)
                } else {
                    (
                        MeetingView { stage: MeetingStage::Done, ..s },
                        MeetingActionView::Save { draft: analysed_record(s, a), notice: None },
                    )
                },
                Err(e) => if superseded {
                    fail(s, summary_failed_notice(e))
                } else {
                    (
                        MeetingView { stage: MeetingStage::Done, ..s },
                        MeetingActionView::Save {
                            draft: transcript_only_record(s),
                            notice: Some(summary_failed_notice(e)),
                        },
                    )
                },
            }
        },
    }
}

fn clone_opt(o: &Option<String>) -> (r: Option<String>)
    ensures
        r == *o,
{
    match o {
        Some(s) => Some(s.clone()),
        None => None,
    }
}

impl MeetingState {
    /// The pipeline of a meeting just stopped in session `session_id`:
    /// speakers are labelled when `settings` ask for it and the diarization
    /// models are on disk; the analysis model is the meeting's own, else the
    /// cleanup model.
    pub fn new(session_id: u64, settings: &Settings, diarization_ready: bool, num_speakers: Option<i32>) -> (m: MeetingState)
        ensures
            m@ == (MeetingView {
                session_id,
                stage: MeetingStage::Captured,
                diarize: settings.diarize_meetings && diarization_ready,
                num_speakers,
                model: match settings.meeting_ollama_model {
                    Some(x) => Some(x@),
                    None => opt_chars(settings.ollama_model),
                },
                minutes: 0,
                transcript: Seq::<char>::empty(),
            }),
    {
        MeetingState {
            session_id,
            stage: MeetingStage::Captured,
            diarize: settings.diarize_meetings && diarization_ready,
            num_speakers,
            model: meeting_model(clone_opt(&settings.meeting_ollama_model), clone_opt(&settings.ollama_model)),
            minutes: 0,
            transcript: String::new(),
        }
    }

    /// This state at `stage`, with `minutes` and `transcript`.
    fn with(&self, stage: MeetingStage, minutes: u64, transcript: String) -> (r: MeetingState)
        ensures
            r@ == (MeetingView { stage, minutes, transcript: transcript@, ..self@ }),
    {
        MeetingState {
            session_id: self.session_id,
            stage,
            diarize: self.diarize,
            num_speakers: self.num_speakers,
            model: clone_opt(&self.model),
            minutes,
            transcript,
        }
    }

    /// This state at `stage`.
    fn at(&self, stage: MeetingStage) -> (r: MeetingState)
        ensures
            r@ == (MeetingView { stage, ..self@ }),
    {
        self.with(stage, self.minutes, self.transcript.clone())
    }
}

fn fallback_draft(minutes: u64, transcript: String) -> (d: MeetingDraft)
    ensures
        d@ == (DraftView {
            title: fallback_title(minutes),
            transcript: transcript@,
            summary: Seq::<char>::empty(),
            minutes: Seq::<Seq<char>>::empty(),
            decisions: Seq::<Seq<char>>::empty(),
            action_items: Seq::<Seq<char>>::empty(),
        }),
{
    let d = MeetingDraft {
        title: meeting_title(String::new(), minutes),
        transcript,
        summary: String::new(),
        minutes: Vec::new(),
        decisions: Vec::new(),
        action_items: Vec::new(),
    };
    assert(string_views(d.minutes@) =~= Seq::<Seq<char>>::empty());
    assert(string_views(d.decisions@) =~= Seq::<Seq<char>>::empty());
    assert(string_views(d.action_items@) =~= Seq::<Seq<char>>::empty());
    d
}

fn transcript_in_step(s: &MeetingState, superseded: bool, t: String) -> (r: (MeetingState, MeetingAction))
    ensures
        (r.0@, r.1@) == transcript_in(s@, superseded, t@),
{
    if t.as_str().is_empty() {
        return (s.at(MeetingStage::Done), MeetingAction::Fail("error: empty transcript".to_owned()));
    }
    if superseded {
        return (s.at(s.stage), MeetingAction::Stop);
    }
    match &s.model {
        Some(m) => (
            s.with(MeetingStage::Summarizing, s.minutes, t.clone()),
            MeetingAction::Summarize { model: m.clone(), transcript: t },
        ),
        None => (
            s.with(MeetingStage::Done, s.minutes, t.clone()),
            MeetingAction::Save { draft: fallback_draft(s.minutes, t), notice: None },
        ),
    }
}

fn summary_failed(e: &str) -> (n: String)
    ensures
        n@ == summary_failed_notice(e@),
{
    let mut notice = "error: summary failed (".to_owned();
    notice.append(e);
    notice.append(") — transcript saved");
    notice
}

fn fail_step(s: &MeetingState, message: &str) -> (r: (MeetingState, MeetingAction))
    ensures
        (r.0@, r.1@) == fail(s@, message@),
{
    (s.at(MeetingStage::Done), MeetingAction::Fail(message.to_owned()))
}

/// One step of a stopped meeting (see `meeting_step_spec`). The app carries
/// out the action and hands back what it came to as the next event.
pub fn meeting_step(state: &MeetingState, current_session: u64, event: MeetingEvent) -> (r: (MeetingState, MeetingAction))
    ensures
        (r.0@, r.1@) == meeting_step_spec(state@, current_session, event@),
        state.session_id != current_session ==> !(r.1 is Save) && !(r.1 is Summarize) && !(
        r.1 is Normalize),
        state.session_id == current_session && state.stage == MeetingStage::Summarizing && (
        event matches MeetingEvent::Summarized(Err(_))) ==> (r.1@ matches MeetingActionView::Save {
            draft,
            notice: Some(_),
        } && draft == transcript_only_record(state@)),
        event matches MeetingEvent::Summarized(Ok(a)) ==> (state.session_id != current_session
            || state.stage != MeetingStage::Summarizing || (r.1 matches MeetingAction::Save {
            draft,
            notice,
        } && {
            &&& notice is None
            &&& draft.summary@ == a.summary@
            &&& draft.minutes@ == a.minutes@
            &&& draft.decisions@ == a.decisions@
            &&& draft.action_items@ == a.action_items@
            &&& draft.transcript@ == state.transcript@
            &&& a.title@.len() > 0 ==> draft.title@ == a.title@
            &&& a.title@.len() == 0 ==> draft.title@ == "Meeting · "@ + decimal(state.minutes as nat)
                + " min"@
        })),
{
    let superseded = state.session_id != current_session;
    match event {
        MeetingEvent::Captured { samples } => {
            if state.stage != MeetingStage::Captured {
                (state.at(state.stage), MeetingAction::Stop)
            } else if samples < MIN_SAMPLES {
                fail_step(state, "error: audio too short")
            } else if superseded {
                (state.at(state.stage), MeetingAction::Stop)
            } else {
                let whole = samples / 960_000;
                let minutes: usize = if samples % 960_000 > 0 {
                    whole + 1
                } else {
                    whole
                };
                assert(minutes == meeting_minutes(samples as nat)) by (nonlinear_arith)
                    requires
                        whole == samples / 960_000,
                        samples % 960_000 > 0 ==> minutes == whole + 1,
                        samples % 960_000 == 0 ==> minutes == whole,
                ;
                (
                    state.with(MeetingStage::Normalizing, minutes as u64, state.transcript.clone()),
                    MeetingAction::Normalize,
                )
            }
        },
        MeetingEvent::Normalized => {
            if state.stage != MeetingStage::Normalizing || superseded {
                (state.at(state.stage), MeetingAction::Stop)
            } else if state.diarize {
                (state.at(MeetingStage::Diarizing), MeetingAction::Diarize { num_speakers: state.num_speakers })
            } else {
                (state.at(MeetingStage::Transcribing), MeetingAction::Transcribe)
            }
        },
        MeetingEvent::Diarized(r) => {
            if state.stage != MeetingStage::Diarizing {
                (state.at(state.stage), MeetingAction::Stop)
            } else {
                match r {
                    Ok(t) => transcript_in_step(state, superseded, t),
                    Err(_) => (state.at(MeetingStage::Transcribing), MeetingAction::Transcribe),
                }
            }
        },
        MeetingEvent::Transcribed(r) => {
            if state.stage != MeetingStage::Transcribing {
                (state.at(state.stage), MeetingAction::Stop)
            } else {
                match r {
                    Ok(t) => transcript_in_step(state, superseded, t),
                    Err(_) => fail_step(state, "error: transcription failed"),
                }
            }
        },
        MeetingEvent::NoEngine => {
            if state.stage != MeetingStage::Transcribing {
                (state.at(state.stage), MeetingAction::Stop)
            } else {
                fail_step(state, "error: no model loaded")
            }
        },
        MeetingEvent::Summarized(r) => {
            if state.stage != MeetingStage::Summarizing {
                (state.at(state.stage), MeetingAction::Stop)
            } else {
                match r {
                    Ok(a) => {
                        if superseded {
                            return (state.at(state.stage), MeetingAction::Stop);
                        }
                        let ghost av = analysis_view(a);
                        let MeetingAnalysis { title, summary, minutes, decisions, action_items } = a;
                        let draft = MeetingDraft {
                            title: meeting_title(title, state.minutes),
                            transcript: state.transcript.clone(),
                            summary,
                            minutes,
                            decisions,
                            action_items,
                        };
                        assert(draft@ == analysed_record(state@, av));
                        (state.at(MeetingStage::Done), MeetingAction::Save { draft, notice: None })
                    },
                    Err(e) => {
                        let notice = summary_failed(e.as_str());
                        if superseded {
                            (state.at(MeetingStage::Done), MeetingAction::Fail(notice))
                        } else {
                            (
                                state.at(MeetingStage::Done),
                                MeetingAction::Save {
                                    draft: fallback_draft(state.minutes, state.transcript.clone()),
                                    notice: Some(notice),
                                },
                            )
                        }
                    },
                }
            }
        },
    }
}


/// A summary that arrives for the current session is saved with the
/// meeting: the record carries the analysis's summary, minutes, decisions and
/// action items, the transcript, and the analysis's title (or the length
/// title when it has none), with no notice.
pub proof fn law_a_summary_is_saved_with_the_meeting(s: MeetingView, current_session: u64, a: AnalysisView)
    requires
        s.session_id == current_session,
        s.stage == MeetingStage::Summarizing,
    ensures
        meeting_step_spec(s, current_session, MeetingEventView::Summarized(Ok(a))).1 matches MeetingActionView::Save {
            draft,
            notice,
        } && {
            &&& notice is None
            &&& draft.summary == a.summary
            &&& draft.minutes == a.minutes
            &&& draft.decisions == a.decisions
            &&& draft.action_items == a.action_items
            &&& draft.transcript == s.transcript
            &&& a.title.len() > 0 ==> draft.title == a.title
            &&& a.title.len() == 0 ==> draft.title == "Meeting · "@ + decimal(s.minutes as nat) + " min"@
        },
{
}

proof fn lemma_position_finds(s: Seq<i32>, x: i32)
    requires
        s.contains(x),
    ensures
        0 <= position(s, x) < s.len(),
        s[position(s, x)] == x,
    decreases s.len(),
{
    if s[0] != x {
        let i = choose|i: int| 0 <= i < s.len() && s[i] == x;
        assert(s.drop_first()[i - 1] == x);
        lemma_position_finds(s.drop_first(), x);
    }
}

/// Different speakers get different numbers.
pub proof fn law_different_speakers_get_different_numbers(turns: Seq<i32>, j: int, k: int)
    requires
        0 <= j < turns.len(),
        0 <= k < turns.len(),
        turns[j] != turns[k],
    ensures
        speaker_number(turns, turns[j]) != speaker_number(turns, turns[k]),
{
    lemma_order_contains(turns, j);
    lemma_order_contains(turns, k);
    lemma_position_finds(speaker_order(turns), turns[j]);
    lemma_position_finds(speaker_order(turns), turns[k]);
}

proof fn lemma_turn_lines_hold(speakers: Seq<i32>, starts: Seq<u64>, texts: Seq<Option<Seq<char>>>, n: int, k: int)
    requires
        0 <= k < n <= speakers.len(),
        starts.len() == speakers.len(),
        texts.len() == speakers.len(),
        texts[k] matches Some(t) && trim(t).len() > 0,
    ensures
        turn_lines(speakers, starts, texts, n).contains(
            "["@ + timestamp(starts[k] as nat) + "] Speaker "@ + decimal(speaker_number(speakers, speakers[k]) as nat)
                + ": "@ + trim(texts[k]->0),
        ),
    decreases n,
{
    let line = "["@ + timestamp(starts[k] as nat) + "] Speaker "@ + decimal(
        speaker_number(speakers, speakers[k]) as nat,
    ) + ": "@ + trim(texts[k]->0);
    let prev = turn_lines(speakers, starts, texts, n - 1);
    if k == n - 1 {
        let cur = turn_lines(speakers, starts, texts, n);
        assert(cur == prev.push(line));
        assert(cur[prev.len() as int] == line);
    } else {
        lemma_turn_lines_hold(speakers, starts, texts, n - 1, k);
        let i = choose|i: int| 0 <= i < prev.len() && prev[i] == line;
        let cur = turn_lines(speakers, starts, texts, n);
        if cur != prev {
            assert(cur[i] == prev[i]);
        }
    }
}

/// Every turn that produced text has its line in the labelled transcript,
/// `[timestamp] Speaker N: text`, where N is the number of that turn's own
/// speaker: 1 for whoever spoke first, different for different speakers.
pub proof fn law_each_line_names_its_speaker(
    speakers: Seq<i32>,
    starts: Seq<u64>,
    texts: Seq<Option<Seq<char>>>,
    k: int,
)
    requires
        0 <= k < speakers.len(),
        starts.len() == speakers.len(),
        texts.len() == speakers.len(),
        texts[k] matches Some(t) && trim(t).len() > 0,
    ensures
        turn_lines(speakers, starts, texts, speakers.len() as int).contains(
            "["@ + timestamp(starts[k] as nat) + "] Speaker "@ + decimal(speaker_number(speakers, speakers[k]) as nat)
                + ": "@ + trim(texts[k]->0),
        ),
        speakers[k] == speakers[0] ==> speaker_number(speakers, speakers[k]) == 1,
        forall|j: int|
            0 <= j < speakers.len() && speakers[j] != speakers[k] ==> speaker_number(speakers, speakers[j])
                != speaker_number(speakers, speakers[k]),
{
    lemma_turn_lines_hold(speakers, starts, texts, speakers.len() as int, k);
    law_speakers_numbered_by_first_appearance(speakers, k);
    assert forall|j: int|
        0 <= j < speakers.len() && speakers[j] != speakers[k] implies speaker_number(speakers, speakers[j])
            != speaker_number(speakers, speakers[k]) by {
        law_different_speakers_get_different_numbers(speakers, j, k);
    }
}

} // verus!
