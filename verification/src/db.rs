//! Patter's stored data: settings, usage stats, the dictation history and
//! meeting notes. `Db` holds the store's contents and every change the app
//! makes to them; reading and writing the files is the caller's job.
use vstd::prelude::*;
use crate::text::decimal;
use crate::ollama::MeetingAnalysis;

verus! {

/// Where the HUD pill sits when no position was ever chosen.
pub fn default_hud_position() -> (r: String)
    ensures
        r@ == "bottom"@,
{
    "bottom".to_owned()
}

/// UI sounds are on unless turned off.
pub fn default_play_sounds() -> (r: bool)
    ensures
        r,
{
    true
}

/// Update checks are on unless turned off.
pub fn default_auto_update() -> (r: bool)
    ensures
        r,
{
    true
}

/// Silence trimming is on unless turned off.
pub fn default_trim_silence() -> (r: bool)
    ensures
        r,
{
    true
}

/// An extra cleanup instruction for the apps whose name matches `app`.
#[derive(Clone)]
pub struct AppProfile {
    /// Case-insensitive substrings of the app name, comma separated ("slack", "mail").
    pub app: String,
    /// Extra instruction for the Ollama cleanup pass in that app.
    pub prompt: String,
}

/// Everything the user can configure.
#[derive(Clone)]
pub struct Settings {
    pub hotkey: String,
    pub microphone: Option<String>,
    pub output_mode: String,
    pub custom_prompt: String,
    pub autostart: bool,
    pub language: String,
    pub silence_timeout_ms: u32,
    pub active_engine_id: Option<String>,
    pub llm_cleanup_enabled: bool,
    pub ollama_model: Option<String>,
    pub meeting_ollama_model: Option<String>,
    pub hud_position: String,
    pub play_sounds: bool,
    pub trim_silence: bool,
    /// False for fresh installs and installs predating onboarding.
    pub onboarding_done: bool,
    /// Hold hotkey to record, release to transcribe (vs press-to-toggle).
    pub push_to_talk: bool,
    /// Label speakers in meeting transcripts (needs diarization models).
    pub diarize_meetings: bool,
    /// Per-app cleanup instructions, matched against the frontmost app name.
    pub app_profiles: Vec<AppProfile>,
    /// Check for updates on launch.
    pub auto_update: bool,
    /// The hotkey that starts and stops meeting recording, separate from the
    /// dictation hotkey; empty when none is bound.
    pub meeting_hotkey: String,
}

/// The settings of a fresh install.
pub open spec fn is_default_settings(s: Settings) -> bool {
    &&& s.hotkey@ == "Alt+Space"@
    &&& s.microphone is None
    &&& s.output_mode@ == "type"@
    &&& s.custom_prompt@ == ""@
    &&& s.autostart
    &&& s.language@ == "auto"@
    &&& s.silence_timeout_ms == 1000
    &&& s.active_engine_id is None
    &&& !s.llm_cleanup_enabled
    &&& s.ollama_model is None
    &&& s.meeting_ollama_model is None
    &&& s.hud_position@ == "bottom"@
    &&& s.play_sounds
    &&& s.trim_silence
    &&& !s.onboarding_done
    &&& !s.push_to_talk
    &&& !s.diarize_meetings
    &&& s.app_profiles@.len() == 0
    &&& s.auto_update
    &&& s.meeting_hotkey@ == ""@
}

impl Default for Settings {
    fn default() -> (s: Self)
        ensures
            is_default_settings(s),
    {
        Settings {
            hotkey: "Alt+Space".to_owned(),
            microphone: None,
            output_mode: "type".to_owned(),
            custom_prompt: "".to_owned(),
            autostart: true,
            language: "auto".to_owned(),
            silence_timeout_ms: 1000,
            active_engine_id: None,
            llm_cleanup_enabled: false,
            ollama_model: None,
            meeting_ollama_model: None,
            hud_position: default_hud_position(),
            play_sounds: default_play_sounds(),
            trim_silence: default_trim_silence(),
            onboarding_done: false,
            push_to_talk: false,
            diarize_meetings: false,
            app_profiles: Vec::new(),
            auto_update: default_auto_update(),
            meeting_hotkey: "".to_owned(),
        }
    }
}

/// Settings as read from the settings file: the fields an older file may
/// lack are `None`.
pub struct StoredSettings {
    pub hotkey: String,
    pub microphone: Option<String>,
    pub output_mode: String,
    pub custom_prompt: String,
    pub autostart: bool,
    pub language: String,
    pub silence_timeout_ms: u32,
    pub active_engine_id: Option<String>,
    pub llm_cleanup_enabled: Option<bool>,
    pub ollama_model: Option<String>,
    pub meeting_ollama_model: Option<String>,
    pub hud_position: Option<String>,
    pub play_sounds: Option<bool>,
    pub trim_silence: Option<bool>,
    pub onboarding_done: Option<bool>,
    pub push_to_talk: Option<bool>,
    pub diarize_meetings: Option<bool>,
    pub app_profiles: Option<Vec<AppProfile>>,
    pub auto_update: Option<bool>,
    pub meeting_hotkey: Option<String>,
}

/// `o`'s value, or `d` when it is missing.
pub open spec fn or_default<T>(o: Option<T>, d: T) -> T {
    match o {
        Some(x) => x,
        None => d,
    }
}

/// `o`'s characters, or `d` when it is missing.
pub open spec fn chars_or(o: Option<String>, d: Seq<char>) -> Seq<char> {
    match o {
        Some(x) => x@,
        None => d,
    }
}

/// `s` is what a settings file holding `st` loads as: every field the file
/// has is taken as it is; a missing one gets its default (cleanup, the
/// onboarding, push-to-talk and diarization off; no models; the HUD at the
/// bottom; sounds, silence trimming and update checks on; no profiles; no
/// meeting hotkey).
pub open spec fn loads_as(st: StoredSettings, s: Settings) -> bool {
    &&& s.hotkey@ == st.hotkey@
    &&& s.microphone == st.microphone
    &&& s.output_mode@ == st.output_mode@
    &&& s.custom_prompt@ == st.custom_prompt@
    &&& s.autostart == st.autostart
    &&& s.language@ == st.language@
    &&& s.silence_timeout_ms == st.silence_timeout_ms
    &&& s.active_engine_id == st.active_engine_id
    &&& s.llm_cleanup_enabled == or_default(st.llm_cleanup_enabled, false)
    &&& s.ollama_model == st.ollama_model
    &&& s.meeting_ollama_model == st.meeting_ollama_model
    &&& s.hud_position@ == chars_or(st.hud_position, "bottom"@)
    &&& s.play_sounds == or_default(st.play_sounds, true)
    &&& s.trim_silence == or_default(st.trim_silence, true)
    &&& s.onboarding_done == or_default(st.onboarding_done, false)
    &&& s.push_to_talk == or_default(st.push_to_talk, false)
    &&& s.diarize_meetings == or_default(st.diarize_meetings, false)
    &&& s.app_profiles@ == match st.app_profiles {
        Some(p) => p@,
        None => Seq::<AppProfile>::empty(),
    }
    &&& s.auto_update == or_default(st.auto_update, true)
    &&& s.meeting_hotkey@ == chars_or(st.meeting_hotkey, ""@)
}

/// `st` is the file `save_settings` writes for `s`: every field present.
pub open spec fn stores(s: Settings, st: StoredSettings) -> bool {
    &&& st.hotkey@ == s.hotkey@
    &&& st.microphone == s.microphone
    &&& st.output_mode@ == s.output_mode@
    &&& st.custom_prompt@ == s.custom_prompt@
    &&& st.autostart == s.autostart
    &&& st.language@ == s.language@
    &&& st.silence_timeout_ms == s.silence_timeout_ms
    &&& st.active_engine_id == s.active_engine_id
    &&& st.llm_cleanup_enabled == Some(s.llm_cleanup_enabled)
    &&& st.ollama_model == s.ollama_model
    &&& st.meeting_ollama_model == s.meeting_ollama_model
    &&& st.hud_position matches Some(h) && h@ == s.hud_position@
    &&& st.play_sounds == Some(s.play_sounds)
    &&& st.trim_silence == Some(s.trim_silence)
    &&& st.onboarding_done == Some(s.onboarding_done)
    &&& st.push_to_talk == Some(s.push_to_talk)
    &&& st.diarize_meetings == Some(s.diarize_meetings)
    &&& st.app_profiles matches Some(p) && p@ == s.app_profiles@
    &&& st.auto_update == Some(s.auto_update)
    &&& st.meeting_hotkey matches Some(m) && m@ == s.meeting_hotkey@
}

/// The settings a settings file holds, with defaults for what it lacks.
pub fn settings_from_stored(st: StoredSettings) -> (s: Settings)
    ensures
        loads_as(st, s),
{
    let StoredSettings {
        hotkey,
        microphone,
        output_mode,
        custom_prompt,
        autostart,
        language,
        silence_timeout_ms,
        active_engine_id,
        llm_cleanup_enabled,
        ollama_model,
        meeting_ollama_model,
        hud_position,
        play_sounds,
        trim_silence,
        onboarding_done,
        push_to_talk,
        diarize_meetings,
        app_profiles,
        auto_update,
        meeting_hotkey,
    } = st;
    Settings {
        hotkey,
        microphone,
        output_mode,
        custom_prompt,
        autostart,
        language,
        silence_timeout_ms,
        active_engine_id,
        llm_cleanup_enabled: match llm_cleanup_enabled {
            Some(b) => b,
            None => false,
        },
        ollama_model,
        meeting_ollama_model,
        hud_position: match hud_position {
            Some(h) => h,
            None => default_hud_position(),
        },
        play_sounds: match play_sounds {
            Some(b) => b,
            None => default_play_sounds(),
        },
        trim_silence: match trim_silence {
            Some(b) => b,
            None => default_trim_silence(),
        },
        onboarding_done: match onboarding_done {
            Some(b) => b,
            None => false,
        },
        push_to_talk: match push_to_talk {
            Some(b) => b,
            None => false,
        },
        diarize_meetings: match diarize_meetings {
            Some(b) => b,
            None => false,
        },
        app_profiles: match app_profiles {
            Some(p) => p,
            None => Vec::new(),
        },
        auto_update: match auto_update {
            Some(b) => b,
            None => default_auto_update(),
        },
        meeting_hotkey: match meeting_hotkey {
            Some(m) => m,
            None => "".to_owned(),
        },
    }
}

/// The settings file `save_settings` writes: every field present.
pub fn stored_settings(s: Settings) -> (st: StoredSettings)
    ensures
        stores(s, st),
{
    StoredSettings {
        hotkey: s.hotkey,
        microphone: s.microphone,
        output_mode: s.output_mode,
        custom_prompt: s.custom_prompt,
        autostart: s.autostart,
        language: s.language,
        silence_timeout_ms: s.silence_timeout_ms,
        active_engine_id: s.active_engine_id,
        llm_cleanup_enabled: Some(s.llm_cleanup_enabled),
        ollama_model: s.ollama_model,
        meeting_ollama_model: s.meeting_ollama_model,
        hud_position: Some(s.hud_position),
        play_sounds: Some(s.play_sounds),
        trim_silence: Some(s.trim_silence),
        onboarding_done: Some(s.onboarding_done),
        push_to_talk: Some(s.push_to_talk),
        diarize_meetings: Some(s.diarize_meetings),
        app_profiles: Some(s.app_profiles),
        auto_update: Some(s.auto_update),
        meeting_hotkey: Some(s.meeting_hotkey),
    }
}

/// Settings saved and loaded again come back field for field: whatever a
/// file written for `s` loads as agrees with `s` on every field.
pub proof fn law_saved_settings_load_back(s: Settings, st: StoredSettings, loaded: Settings)
    requires
        stores(s, st),
        loads_as(st, loaded),
    ensures
        loaded.hotkey@ == s.hotkey@,
        loaded.microphone == s.microphone,
        loaded.output_mode@ == s.output_mode@,
        loaded.custom_prompt@ == s.custom_prompt@,
        loaded.autostart == s.autostart,
        loaded.language@ == s.language@,
        loaded.silence_timeout_ms == s.silence_timeout_ms,
        loaded.active_engine_id == s.active_engine_id,
        loaded.llm_cleanup_enabled == s.llm_cleanup_enabled,
        loaded.ollama_model == s.ollama_model,
        loaded.meeting_ollama_model == s.meeting_ollama_model,
        loaded.hud_position@ == s.hud_position@,
        loaded.play_sounds == s.play_sounds,
        loaded.trim_silence == s.trim_silence,
        loaded.onboarding_done == s.onboarding_done,
        loaded.push_to_talk == s.push_to_talk,
        loaded.diarize_meetings == s.diarize_meetings,
        loaded.app_profiles@ == s.app_profiles@,
        loaded.auto_update == s.auto_update,
        loaded.meeting_hotkey@ == s.meeting_hotkey@,
{
}

/// Running totals shown on the dashboard.
#[derive(Clone)]
pub struct AppStats {
    pub total_words: u32,
    pub time_saved_seconds: u32,
    pub transcriptions_count: u32,
}

impl Default for AppStats {
    fn default() -> (s: Self)
        ensures
            s.total_words == 0,
            s.time_saved_seconds == 0,
            s.transcriptions_count == 0,
    {
        AppStats { total_words: 0, time_saved_seconds: 0, transcriptions_count: 0 }
    }
}

/// One saved dictation.
#[derive(Clone)]
pub struct TranscriptionRecord {
    pub id: String,
    pub timestamp_ms: u64,
    pub text: String,
    /// The recording's length in seconds, as the bit pattern of an IEEE-754
    /// single (`f32::to_bits`); the store keeps it without reading it.
    pub duration_bits: u32,
    pub words: u32,
    /// Engine inference time; 0 for records predating this field.
    pub transcribe_ms: u32,
}

/// One saved meeting.
#[derive(Clone)]
pub struct MeetingRecord {
    pub id: String,
    pub timestamp_ms: u64,
    pub title: String,
    /// The meeting's length in seconds, as the bit pattern of an IEEE-754
    /// single (`f32::to_bits`); the store keeps it without reading it.
    pub duration_bits: u32,
    pub transcript: String,
    pub summary: String,
    pub minutes: Vec<String>,
    pub decisions: Vec<String>,
    pub action_items: Vec<String>,
}

/// The most dictations the history keeps; older ones fall off the end.
pub const HISTORY_LIMIT: usize = 1000;

/// The contents of Patter's store.
pub struct Db {
    pub settings: Settings,
    pub stats: AppStats,
    /// Newest first.
    pub history: Vec<TranscriptionRecord>,
    /// Newest first.
    pub meetings: Vec<MeetingRecord>,
}

/// `rs` without the records whose id is `id`.
pub open spec fn history_without(rs: Seq<TranscriptionRecord>, id: Seq<char>) -> Seq<TranscriptionRecord>
    decreases rs.len(),
{
    if rs.len() == 0 {
        rs
    } else if rs.last().id@ == id {
        history_without(rs.drop_last(), id)
    } else {
        history_without(rs.drop_last(), id).push(rs.last())
    }
}

/// `ms` without the meetings whose id is `id`.
pub open spec fn meetings_without(ms: Seq<MeetingRecord>, id: Seq<char>) -> Seq<MeetingRecord>
    decreases ms.len(),
{
    if ms.len() == 0 {
        ms
    } else if ms.last().id@ == id {
        meetings_without(ms.drop_last(), id)
    } else {
        meetings_without(ms.drop_last(), id).push(ms.last())
    }
}

/// Some record in `rs` has id `id`.
pub open spec fn has_record(rs: Seq<TranscriptionRecord>, id: Seq<char>) -> bool {
    exists|k: int| 0 <= k < rs.len() && (#[trigger] rs[k]).id@ == id
}

/// Some meeting in `ms` has id `id`.
pub open spec fn has_meeting(ms: Seq<MeetingRecord>, id: Seq<char>) -> bool {
    exists|k: int| 0 <= k < ms.len() && (#[trigger] ms[k]).id@ == id
}

/// `k` is the position of the first record with id `id`.
pub open spec fn first_record(rs: Seq<TranscriptionRecord>, id: Seq<char>, k: int) -> bool {
    0 <= k < rs.len() && rs[k].id@ == id && forall|j: int| 0 <= j < k ==> (#[trigger] rs[j]).id@ != id
}

/// `k` is the position of the first meeting with id `id`.
pub open spec fn first_meeting(ms: Seq<MeetingRecord>, id: Seq<char>, k: int) -> bool {
    0 <= k < ms.len() && ms[k].id@ == id && forall|j: int| 0 <= j < k ==> (#[trigger] ms[j]).id@ != id
}

/// The id a record gets when it is added without one: the time in ms, in decimal.
pub open spec fn assigned_id(id: Seq<char>, now_ms: u64) -> Seq<char> {
    if id.len() == 0 {
        decimal(now_ms as nat)
    } else {
        id
    }
}

fn fresh_id(id: String, now_ms: u64) -> (r: String)
    ensures
        r@ == assigned_id(id@, now_ms),
{
    if id.as_str().is_empty() {
        let mut s = String::new();
        crate::text::push_decimal(&mut s, now_ms);
        assert(s@ =~= decimal(now_ms as nat));
        s
    } else {
        id
    }
}

/// Deleting by id never grows the history, shrinks it exactly when some
/// record had that id, and leaves no record with that id.
pub proof fn law_delete_record_removes_every_match(rs: Seq<TranscriptionRecord>, id: Seq<char>)
    ensures
        history_without(rs, id).len() <= rs.len(),
        history_without(rs, id).len() == rs.len() <==> !has_record(rs, id),
        forall|k: int|
            0 <= k < history_without(rs, id).len() ==> (#[trigger] history_without(rs, id)[k]).id@ != id,
    decreases rs.len(),
{
    if rs.len() > 0 {
        let p = rs.drop_last();
        law_delete_record_removes_every_match(p, id);
        if has_record(p, id) {
            let k = choose|k: int| 0 <= k < p.len() && (#[trigger] p[k]).id@ == id;
            assert(rs[k] == p[k]);
        }
        if has_record(rs, id) && rs.last().id@ != id {
            let k = choose|k: int| 0 <= k < rs.len() && (#[trigger] rs[k]).id@ == id;
            assert(k < rs.len() - 1);
            assert(p[k] == rs[k]);
        }
        if rs.last().id@ == id {
            assert(rs[rs.len() - 1].id@ == id);
        }
    }
}

/// Deleting a meeting by id never grows the list, shrinks it exactly when
/// some meeting had that id, and leaves no meeting with that id.
pub proof fn law_delete_meeting_removes_every_match(ms: Seq<MeetingRecord>, id: Seq<char>)
    ensures
        meetings_without(ms, id).len() <= ms.len(),
        meetings_without(ms, id).len() == ms.len() <==> !has_meeting(ms, id),
        forall|k: int|
            0 <= k < meetings_without(ms, id).len() ==> (#[trigger] meetings_without(ms, id)[k]).id@ != id,
    decreases ms.len(),
{
    if ms.len() > 0 {
        let p = ms.drop_last();
        law_delete_meeting_removes_every_match(p, id);
        if has_meeting(p, id) {
            let k = choose|k: int| 0 <= k < p.len() && (#[trigger] p[k]).id@ == id;
            assert(ms[k] == p[k]);
        }
        if has_meeting(ms, id) && ms.last().id@ != id {
            let k = choose|k: int| 0 <= k < ms.len() && (#[trigger] ms[k]).id@ == id;
            assert(k < ms.len() - 1);
            assert(p[k] == ms[k]);
        }
        if ms.last().id@ == id {
            assert(ms[ms.len() - 1].id@ == id);
        }
    }
}

impl Db {
    /// A store holding the given contents.
    pub fn new(
        settings: Settings,
        stats: AppStats,
        history: Vec<TranscriptionRecord>,
        meetings: Vec<MeetingRecord>,
    ) -> (db: Db)
        ensures
            db.settings == settings,
            db.stats == stats,
            db.history == history,
            db.meetings == meetings,
    {
        Db { settings, stats, history, meetings }
    }

    /// The saved settings.
    pub fn get_settings(&self) -> (s: &Settings)
        ensures
            *s == self.settings,
    {
        &self.settings
    }

    /// Replaces the saved settings.
    pub fn save_settings(&mut self, settings: Settings)
        ensures
            final(self).settings == settings,
            final(self).stats == old(self).stats,
            final(self).history == old(self).history,
            final(self).meetings == old(self).meetings,
    {
        self.settings = settings;
    }

    /// The usage totals.
    pub fn get_stats(&self) -> (s: &AppStats)
        ensures
            *s == self.stats,
    {
        &self.stats
    }

    /// Replaces the usage totals.
    pub fn save_stats(&mut self, stats: AppStats)
        ensures
            final(self).stats == stats,
            final(self).settings == old(self).settings,
            final(self).history == old(self).history,
            final(self).meetings == old(self).meetings,
    {
        self.stats = stats;
    }

    /// The dictation history, newest first.
    pub fn get_history(&self) -> (h: &Vec<TranscriptionRecord>)
        ensures
            *h == self.history,
    {
        &self.history
    }

    /// Replaces the dictation history.
    pub fn save_history(&mut self, history: Vec<TranscriptionRecord>)
        ensures
            final(self).history == history,
            final(self).settings == old(self).settings,
            final(self).stats == old(self).stats,
            final(self).meetings == old(self).meetings,
    {
        self.history = history;
    }

    /// The meetings, newest first.
    pub fn get_meetings(&self) -> (m: &Vec<MeetingRecord>)
        ensures
            *m == self.meetings,
    {
        &self.meetings
    }

    /// Replaces the meetings.
    pub fn save_meetings(&mut self, meetings: Vec<MeetingRecord>)
        ensures
            final(self).meetings == meetings,
            final(self).settings == old(self).settings,
            final(self).stats == old(self).stats,
            final(self).history == old(self).history,
    {
        self.meetings = meetings;
    }

    /// Saves a dictation at the front of the history and counts it. A record
    /// without an id gets `now_ms` in decimal; the history keeps the newest
    /// `HISTORY_LIMIT`. `time_saved_seconds` is the typing time it saved, in
    /// whole seconds, added to the running total.
    pub fn add_record(&mut self, record: TranscriptionRecord, now_ms: u64, time_saved_seconds: u32)
        requires
            old(self).stats.total_words + record.words <= u32::MAX,
            old(self).stats.transcriptions_count + 1 <= u32::MAX,
            old(self).stats.time_saved_seconds + time_saved_seconds <= u32::MAX,
        ensures
            final(self).history.len() == if old(self).history.len() + 1 > HISTORY_LIMIT {
                HISTORY_LIMIT as int
            } else {
                old(self).history.len() + 1
            },
            final(self).history[0].id@ == assigned_id(record.id@, now_ms),
            final(self).history[0].timestamp_ms == record.timestamp_ms,
            final(self).history[0].text == record.text,
            final(self).history[0].duration_bits == record.duration_bits,
            final(self).history[0].words == record.words,
            final(self).history[0].transcribe_ms == record.transcribe_ms,
            forall|k: int|
                1 <= k < final(self).history.len() ==> #[trigger] final(self).history[k] == old(
                    self,
                ).history[k - 1],
            final(self).stats.total_words == old(self).stats.total_words + record.words,
            final(self).stats.transcriptions_count == old(self).stats.transcriptions_count + 1,
            final(self).stats.time_saved_seconds == old(self).stats.time_saved_seconds
                + time_saved_seconds,
            final(self).settings == old(self).settings,
            final(self).meetings == old(self).meetings,
    {
        let TranscriptionRecord { id, timestamp_ms, text, duration_bits, words, transcribe_ms } =
            record;
        let id = fresh_id(id, now_ms);
        let rec = TranscriptionRecord { id, timestamp_ms, text, duration_bits, words, transcribe_ms };
        let ghost before = self.history@;
        self.history.insert(0, rec);
        if self.history.len() > HISTORY_LIMIT {
            self.history.truncate(HISTORY_LIMIT);
        }
        assert forall|k: int| 1 <= k < self.history.len() implies #[trigger] self.history[k]
            == before[k - 1] by {}
        self.stats.total_words = self.stats.total_words + words;
        self.stats.transcriptions_count = self.stats.transcriptions_count + 1;
        self.stats.time_saved_seconds = self.stats.time_saved_seconds + time_saved_seconds;
    }

    /// Empties the dictation history. The usage totals are kept.
    pub fn clear_history(&mut self)
        ensures
            final(self).history.len() == 0,
            final(self).settings == old(self).settings,
            final(self).stats == old(self).stats,
            final(self).meetings == old(self).meetings,
    {
        self.history = Vec::new();
    }

    /// Removes every dictation whose id is `id`; true when there was one.
    pub fn delete_record(&mut self, id: &str) -> (removed: bool)
        ensures
            final(self).history@ == history_without(old(self).history@, id@),
            removed == has_record(old(self).history@, id@),
            final(self).settings == old(self).settings,
            final(self).stats == old(self).stats,
            final(self).meetings == old(self).meetings,
    {
        let ghost orig = self.history@;
        let mut rest: Vec<TranscriptionRecord> = Vec::new();
        std::mem::swap(&mut rest, &mut self.history);
        let mut kept: Vec<TranscriptionRecord> = Vec::new();
        let mut removed = false;
        while rest.len() > 0
            invariant
                rest.len() <= orig.len(),
                rest@ == orig.skip(orig.len() - rest.len()),
                kept@ == history_without(orig.take(orig.len() - rest.len()), id@),
                removed == has_record(orig.take(orig.len() - rest.len()), id@),
            decreases rest.len(),
        {
            let ghost n = orig.len() - rest.len();
            let r = rest.remove(0);
            proof {
                assert(r == orig[n]);
                assert(rest@ =~= orig.skip(orig.len() - rest.len()));
                assert(orig.take(n + 1).drop_last() =~= orig.take(n));
                assert(orig.take(n + 1).last() == orig[n]);
                if has_record(orig.take(n), id@) {
                    let k = choose|k: int| 0 <= k < n && (#[trigger] orig.take(n)[k]).id@ == id@;
                    assert(orig.take(n + 1)[k] == orig.take(n)[k]);
                }
                if has_record(orig.take(n + 1), id@) && orig[n].id@ != id@ {
                    let k = choose|k: int| 0 <= k < n + 1 && (#[trigger] orig.take(n + 1)[k]).id@ == id@;
                    assert(orig.take(n)[k] == orig.take(n + 1)[k]);
                }
                if orig[n].id@ == id@ {
                    assert(orig.take(n + 1)[n] == orig[n]);
                }
            }
            if crate::text::same_chars(r.id.as_str(), id) {
                removed = true;
            } else {
                kept.push(r);
            }
        }
        assert(orig.take(orig.len() as int) =~= orig);
        self.history = kept;
        removed
    }

    /// Saves a meeting at the front of the list; one without an id gets
    /// `now_ms` in decimal.
    pub fn add_meeting(&mut self, record: MeetingRecord, now_ms: u64)
        ensures
            final(self).meetings.len() == old(self).meetings.len() + 1,
            final(self).meetings[0].id@ == assigned_id(record.id@, now_ms),
            final(self).meetings[0].timestamp_ms == record.timestamp_ms,
            final(self).meetings[0].title == record.title,
            final(self).meetings[0].duration_bits == record.duration_bits,
            final(self).meetings[0].transcript == record.transcript,
            final(self).meetings[0].summary == record.summary,
            final(self).meetings[0].minutes == record.minutes,
            final(self).meetings[0].decisions == record.decisions,
            final(self).meetings[0].action_items == record.action_items,
            forall|k: int|
                1 <= k < final(self).meetings.len() ==> #[trigger] final(self).meetings[k] == old(
                    self,
                ).meetings[k - 1],
            final(self).settings == old(self).settings,
            final(self).stats == old(self).stats,
            final(self).history == old(self).history,
    {
        let MeetingRecord {
            id,
            timestamp_ms,
            title,
            duration_bits,
            transcript,
            summary,
            minutes,
            decisions,
            action_items,
        } = record;
        let id = fresh_id(id, now_ms);
        let rec = MeetingRecord {
            id,
            timestamp_ms,
            title,
            duration_bits,
            transcript,
            summary,
            minutes,
            decisions,
            action_items,
        };
        self.meetings.insert(0, rec);
    }

    /// Removes every meeting whose id is `id`; true when there was one.
    pub fn delete_meeting(&mut self, id: &str) -> (removed: bool)
        ensures
            final(self).meetings@ == meetings_without(old(self).meetings@, id@),
            removed == has_meeting(old(self).meetings@, id@),
            final(self).settings == old(self).settings,
            final(self).stats == old(self).stats,
            final(self).history == old(self).history,
    {
        let ghost orig = self.meetings@;
        let mut rest: Vec<MeetingRecord> = Vec::new();
        std::mem::swap(&mut rest, &mut self.meetings);
        let mut kept: Vec<MeetingRecord> = Vec::new();
        let mut removed = false;
        while rest.len() > 0
            invariant
                rest.len() <= orig.len(),
                rest@ == orig.skip(orig.len() - rest.len()),
                kept@ == meetings_without(orig.take(orig.len() - rest.len()), id@),
                removed == has_meeting(orig.take(orig.len() - rest.len()), id@),
            decreases rest.len(),
        {
            let ghost n = orig.len() - rest.len();
            let r = rest.remove(0);
            proof {
                assert(r == orig[n]);
                assert(rest@ =~= orig.skip(orig.len() - rest.len()));
                assert(orig.take(n + 1).drop_last() =~= orig.take(n));
                assert(orig.take(n + 1).last() == orig[n]);
                if has_meeting(orig.take(n), id@) {
                    let k = choose|k: int| 0 <= k < n && (#[trigger] orig.take(n)[k]).id@ == id@;
                    assert(orig.take(n + 1)[k] == orig.take(n)[k]);
                }
                if has_meeting(orig.take(n + 1), id@) && orig[n].id@ != id@ {
                    let k = choose|k: int| 0 <= k < n + 1 && (#[trigger] orig.take(n + 1)[k]).id@ == id@;
                    assert(orig.take(n)[k] == orig.take(n + 1)[k]);
                }
                if orig[n].id@ == id@ {
                    assert(orig.take(n + 1)[n] == orig[n]);
                }
            }
            if crate::text::same_chars(r.id.as_str(), id) {
                removed = true;
            } else {
                kept.push(r);
            }
        }
        assert(orig.take(orig.len() as int) =~= orig);
        self.meetings = kept;
        removed
    }

    /// Replaces the text of the first dictation whose id is `id`; true when there was one.
    pub fn update_record_text(&mut self, id: &str, new_text: &str) -> (found: bool)
        ensures
            found == has_record(old(self).history@, id@),
            final(self).history.len() == old(self).history.len(),
            !found ==> final(self).history == old(self).history,
            found ==> exists|k: int|
                first_record(old(self).history@, id@, k) && final(self).history[k].text@ == new_text@
                    && final(self).history[k].id == old(self).history[k].id
                    && final(self).history[k].timestamp_ms == old(self).history[k].timestamp_ms
                    && final(self).history[k].duration_bits == old(self).history[k].duration_bits
                    && final(self).history[k].words == old(self).history[k].words
                    && final(self).history[k].transcribe_ms == old(self).history[k].transcribe_ms
                    && forall|j: int|
                    0 <= j < final(self).history.len() && j != k ==> #[trigger] final(self).history[j]
                        == old(self).history[j],
            final(self).settings == old(self).settings,
            final(self).stats == old(self).stats,
            final(self).meetings == old(self).meetings,
    {
        let mut k: usize = 0;
        while k < self.history.len()
            invariant
                k <= self.history.len(),
                self.history == old(self).history,
                self.settings == old(self).settings,
                self.stats == old(self).stats,
                self.meetings == old(self).meetings,
                forall|j: int| 0 <= j < k ==> (#[trigger] self.history@[j]).id@ != id@,
            decreases self.history.len() - k,
        {
            if crate::text::same_chars(self.history[k].id.as_str(), id) {
                let ghost before = self.history@;
                self.history[k].text = new_text.to_owned();
                assert(first_record(before, id@, k as int));
                assert(forall|j: int|
                    0 <= j < self.history.len() && j != k ==> #[trigger] self.history[j] == before[j]);
                return true;
            }
            k = k + 1;
        }
        assert(!has_record(self.history@, id@));
        false
    }

    /// The position of the first meeting whose id is `id`.
    fn find_meeting(&self, id: &str) -> (r: Option<usize>)
        ensures
            match r {
                Some(k) => first_meeting(self.meetings@, id@, k as int),
                None => !has_meeting(self.meetings@, id@),
            },
    {
        let mut k: usize = 0;
        while k < self.meetings.len()
            invariant
                k <= self.meetings.len(),
                forall|j: int| 0 <= j < k ==> (#[trigger] self.meetings@[j]).id@ != id@,
            decreases self.meetings.len() - k,
        {
            if crate::text::same_chars(self.meetings[k].id.as_str(), id) {
                return Some(k);
            }
            k = k + 1;
        }
        None
    }

    /// Replaces the title and transcript of the first meeting whose id is
    /// `id`; true when there was one.
    pub fn update_meeting(&mut self, id: &str, title: &str, transcript: &str) -> (found: bool)
        ensures
            found == has_meeting(old(self).meetings@, id@),
            final(self).meetings.len() == old(self).meetings.len(),
            !found ==> final(self).meetings == old(self).meetings,
            found ==> exists|k: int|
                first_meeting(old(self).meetings@, id@, k) && final(self).meetings[k] == (MeetingRecord {
                    title: final(self).meetings[k].title,
                    transcript: final(self).meetings[k].transcript,
                    ..old(self).meetings[k]
                }) && final(self).meetings[k].title@ == title@
                    && final(self).meetings[k].transcript@ == transcript@
                    && forall|j: int|
                    0 <= j < final(self).meetings.len() && j != k ==> #[trigger] final(self).meetings[j]
                        == old(self).meetings[j],
            final(self).settings == old(self).settings,
            final(self).stats == old(self).stats,
            final(self).history == old(self).history,
    {
        match self.find_meeting(id) {
            Some(k) => {
                let ghost before = self.meetings@;
                self.meetings[k].title = title.to_owned();
                self.meetings[k].transcript = transcript.to_owned();
                assert(forall|j: int|
                    0 <= j < self.meetings.len() && j != k ==> #[trigger] self.meetings[j] == before[j]);
                true
            },
            None => false,
        }
    }

    /// Replaces the action items of the first meeting whose id is `id`;
    /// true when there was one.
    pub fn update_meeting_action_items(&mut self, id: &str, action_items: Vec<String>) -> (found: bool)
        ensures
            found == has_meeting(old(self).meetings@, id@),
            final(self).meetings.len() == old(self).meetings.len(),
            !found ==> final(self).meetings == old(self).meetings,
            found ==> exists|k: int|
                first_meeting(old(self).meetings@, id@, k) && final(self).meetings[k] == (MeetingRecord {
                    action_items: action_items,
                    ..old(self).meetings[k]
                }) && forall|j: int|
                    0 <= j < final(self).meetings.len() && j != k ==> #[trigger] final(self).meetings[j]
                        == old(self).meetings[j],
            final(self).settings == old(self).settings,
            final(self).stats == old(self).stats,
            final(self).history == old(self).history,
    {
        match self.find_meeting(id) {
            Some(k) => {
                let ghost before = self.meetings@;
                let ghost items = action_items;
                self.meetings[k].action_items = action_items;
                assert(self.meetings[k as int] == (MeetingRecord { action_items: items, ..before[k as int] }));
                assert(forall|j: int|
                    0 <= j < self.meetings.len() && j != k ==> #[trigger] self.meetings[j] == before[j]);
                true
            },
            None => false,
        }
    }

    /// Puts a fresh analysis on the first meeting whose id is `id`: its
    /// summary, minutes, decisions and action items, and its title unless
    /// the analysis came back without one. True when there was such a meeting.
    pub fn update_meeting_analysis(&mut self, id: &str, analysis: MeetingAnalysis) -> (found: bool)
        ensures
            found == has_meeting(old(self).meetings@, id@),
            final(self).meetings.len() == old(self).meetings.len(),
            !found ==> final(self).meetings == old(self).meetings,
            found ==> exists|k: int|
                first_meeting(old(self).meetings@, id@, k) && final(self).meetings[k] == (MeetingRecord {
                    title: if analysis.title@.len() == 0 {
                        old(self).meetings[k].title
                    } else {
                        analysis.title
                    },
                    summary: analysis.summary,
                    minutes: analysis.minutes,
                    decisions: analysis.decisions,
                    action_items: analysis.action_items,
                    ..old(self).meetings[k]
                }) && forall|j: int|
                    0 <= j < final(self).meetings.len() && j != k ==> #[trigger] final(self).meetings[j]
                        == old(self).meetings[j],
            final(self).settings == old(self).settings,
            final(self).stats == old(self).stats,
            final(self).history == old(self).history,
    {
        match self.find_meeting(id) {
            Some(k) => {
                let ghost before = self.meetings@;
                let MeetingAnalysis { title, summary, minutes, decisions, action_items } = analysis;
                if !title.as_str().is_empty() {
                    self.meetings[k].title = title;
                }
                self.meetings[k].summary = summary;
                self.meetings[k].minutes = minutes;
                self.meetings[k].decisions = decisions;
                self.meetings[k].action_items = action_items;
                assert(forall|j: int|
                    0 <= j < self.meetings.len() && j != k ==> #[trigger] self.meetings[j] == before[j]);
                true
            },
            None => false,
        }
    }
}

proof fn lemma_history_without_absent(rs: Seq<TranscriptionRecord>, id: Seq<char>)
    requires
        !has_record(rs, id),
    ensures
        history_without(rs, id) == rs,
    decreases rs.len(),
{
    if rs.len() > 0 {
        let p = rs.drop_last();
        assert(!has_record(p, id)) by {
            if has_record(p, id) {
                let k = choose|k: int| 0 <= k < p.len() && (#[trigger] p[k]).id@ == id;
                assert(rs[k] == p[k]);
            }
        }
        lemma_history_without_absent(p, id);
        assert(rs[rs.len() - 1] == rs.last());
        assert(p.push(rs.last()) =~= rs);
    }
}

/// Deleting the same dictation twice: the second delete finds nothing and
/// changes nothing.
pub proof fn law_delete_record_twice(rs: Seq<TranscriptionRecord>, id: Seq<char>)
    ensures
        !has_record(history_without(rs, id), id),
        history_without(history_without(rs, id), id) == history_without(rs, id),
{
    law_delete_record_removes_every_match(rs, id);
    let once = history_without(rs, id);
    if has_record(once, id) {
        let k = choose|k: int| 0 <= k < once.len() && (#[trigger] once[k]).id@ == id;
    }
    lemma_history_without_absent(once, id);
}

/// Deleting an id no dictation has leaves the history as it was.
pub proof fn law_delete_absent_record_changes_nothing(rs: Seq<TranscriptionRecord>, id: Seq<char>)
    requires
        !has_record(rs, id),
    ensures
        history_without(rs, id) == rs,
{
    lemma_history_without_absent(rs, id);
}

} // verus!
