//! Decisions behind the app's commands: what a settings change has to
//! re-apply, how a speech model is loaded, and how an app's icon is looked up.
use vstd::prelude::*;
use crate::db::{first_meeting, MeetingRecord, Settings};
use crate::registry::{joined, lookup, EngineKind, ModelManager};
use crate::text::{alnum_of, chars_of, is_alphanumeric, lower_of, same_chars, string_of, to_lowercase, trim, trim_range};

verus! {

/// What saving new settings has to re-apply beyond storing them.
pub struct SettingsUpdatePlan {
    /// Turn launch-at-login on or off.
    pub autostart: Option<bool>,
    /// Unregister the old dictation hotkey and register the new one.
    pub rebind_hotkey: bool,
    /// Move the HUD to its new position.
    pub reposition_hud: bool,
    /// Unregister the old meeting hotkey (it changed and was bound).
    pub unbind_meeting_hotkey: bool,
    /// Register the new meeting hotkey (it changed and is bound).
    pub bind_meeting_hotkey: bool,
}

/// The work a change from `current` to `new` settings takes.
pub fn plan_settings_update(current: &Settings, new: &Settings) -> (p: SettingsUpdatePlan)
    ensures
        p.autostart == (if new.autostart != current.autostart {
            Some(new.autostart)
        } else {
            None
        }),
        p.rebind_hotkey == (current.hotkey@ != new.hotkey@),
        p.reposition_hud == (current.hud_position@ != new.hud_position@),
        p.unbind_meeting_hotkey == (current.meeting_hotkey@ != new.meeting_hotkey@
            && current.meeting_hotkey@.len() > 0),
        p.bind_meeting_hotkey == (current.meeting_hotkey@ != new.meeting_hotkey@
            && new.meeting_hotkey@.len() > 0),
{
    let meeting_changed = !same_chars(current.meeting_hotkey.as_str(), new.meeting_hotkey.as_str());
    SettingsUpdatePlan {
        autostart: if new.autostart != current.autostart {
            Some(new.autostart)
        } else {
            None
        },
        rebind_hotkey: !same_chars(current.hotkey.as_str(), new.hotkey.as_str()),
        reposition_hud: !same_chars(current.hud_position.as_str(), new.hud_position.as_str()),
        unbind_meeting_hotkey: meeting_changed && !current.meeting_hotkey.as_str().is_empty(),
        bind_meeting_hotkey: meeting_changed && !new.meeting_hotkey.as_str().is_empty(),
    }
}

/// The HUD sits near the top of the screen for "top", near the bottom otherwise.
pub fn hud_at_top(hud_position: &str) -> (r: bool)
    ensures
        r == (hud_position@ == "top"@),
{
    same_chars(hud_position, "top")
}

/// How a speech model is loaded.
pub enum EngineLoad {
    /// Whisper: the single weights file.
    WhisperFile(String),
    /// Parakeet: the directory of its files.
    ParakeetDir(String),
}

/// What loading model `id` takes, or why it can't be loaded.
pub fn engine_load_plan(mm: &ModelManager, id: &str) -> (r: Result<EngineLoad, String>)
    ensures
        match lookup(id@) {
            None => r matches Err(e) && e@ == "Unknown engine"@,
            Some(v) => match v.engine {
                EngineKind::Diarization => r matches Err(e) && e@ == "Not an ASR engine"@,
                EngineKind::Whisper => if v.files@.len() > 0 {
                    r matches Ok(EngineLoad::WhisperFile(p)) && p@ == joined(
                        joined(mm.models_dir@, v.dest_subdir@),
                        v.files@[0].name@,
                    )
                } else {
                    r matches Err(e) && e@ == "Unknown engine"@
                },
                EngineKind::Parakeet => r matches Ok(EngineLoad::ParakeetDir(d)) && d@ == joined(
                    mm.models_dir@,
                    v.dest_subdir@,
                ),
            },
        },
{
    match mm.get_engine_kind(id) {
        Some(EngineKind::Whisper) => match mm.variant_file_path(id) {
            Some(p) => Ok(EngineLoad::WhisperFile(p)),
            None => Err("Unknown engine".to_owned()),
        },
        Some(EngineKind::Parakeet) => match mm.variant_dir(id) {
            Some(d) => Ok(EngineLoad::ParakeetDir(d)),
            None => Err("Unknown engine".to_owned()),
        },
        Some(EngineKind::Diarization) => Err("Not an ASR engine".to_owned()),
        None => Err("Unknown engine".to_owned()),
    }
}

/// A load plan as plain values: whether it is a Whisper file, and its path.
pub open spec fn load_view(l: EngineLoad) -> (bool, Seq<char>) {
    match l {
        EngineLoad::WhisperFile(p) => (true, p@),
        EngineLoad::ParakeetDir(d) => (false, d@),
    }
}

/// How model `id` would be loaded, if it is a speech engine.
pub open spec fn planned_load(models_dir: Seq<char>, id: Seq<char>) -> Option<(bool, Seq<char>)> {
    match lookup(id) {
        None => None,
        Some(v) => match v.engine {
            EngineKind::Diarization => None,
            EngineKind::Whisper => if v.files@.len() > 0 {
                Some((true, joined(joined(models_dir, v.dest_subdir@), v.files@[0].name@)))
            } else {
                None
            },
            EngineKind::Parakeet => Some((false, joined(models_dir, v.dest_subdir@))),
        },
    }
}

/// The model loaded at launch: the saved engine if it is on disk in full,
/// or, when none was ever chosen, Whisper Base if that is on disk. A saved
/// engine that is missing leaves the app with none.
pub fn startup_engine(
    mm: &ModelManager,
    active_engine_id: Option<&str>,
    active_downloaded: bool,
    base_downloaded: bool,
) -> (r: Option<(String, EngineLoad)>)
    ensures
        match active_engine_id {
            Some(id) => match r {
                Some((i, l)) => active_downloaded && i@ == id@ && planned_load(mm.models_dir@, id@)
                    == Some(load_view(l)),
                None => !active_downloaded || planned_load(mm.models_dir@, id@) is None,
            },
            None => match r {
                Some((i, l)) => base_downloaded && i@ == "whisper-base"@ && planned_load(
                    mm.models_dir@,
                    "whisper-base"@,
                ) == Some(load_view(l)),
                None => !base_downloaded || planned_load(mm.models_dir@, "whisper-base"@) is None,
            },
        },
{
    let id = match active_engine_id {
        Some(id) => {
            if !active_downloaded {
                return None;
            }
            id
        },
        None => {
            if !base_downloaded {
                return None;
            }
            "whisper-base"
        },
    };
    match engine_load_plan(mm, id) {
        Ok(l) => Some((id.to_owned(), l)),
        Err(_) => None,
    }
}

/// When the running meeting recording started, so a view opened mid-meeting
/// shows the same elapsed time; `None` when no meeting is recording.
pub fn meeting_start(meeting_recording: bool, start_ms: u64) -> (r: Option<u64>)
    ensures
        meeting_recording ==> r == Some(start_ms),
        !meeting_recording ==> r is None,
{
    if meeting_recording {
        Some(start_ms)
    } else {
        None
    }
}

/// Which meeting to summarize again, and with which model: the meeting's own
/// summary model, else the cleanup model.
pub fn regenerate_target(meetings: &Vec<MeetingRecord>, id: &str, settings: &Settings) -> (r: Result<(usize, String), String>)
    ensures
        match r {
            Ok((k, model)) => first_meeting(meetings@, id@, k as int) && (match settings.meeting_ollama_model {
                Some(m) => model@ == m@,
                None => settings.ollama_model matches Some(m) && model@ == m@,
            }),
            Err(e) => (!crate::db::has_meeting(meetings@, id@) && e@ == "Meeting not found"@)
                || (crate::db::has_meeting(meetings@, id@) && settings.meeting_ollama_model is None
                && settings.ollama_model is None && e@ == "No Ollama model selected"@),
        },
{
    let mut k: usize = 0;
    while k < meetings.len()
        invariant
            k <= meetings.len(),
            forall|j: int| 0 <= j < k ==> (#[trigger] meetings@[j]).id@ != id@,
        ensures
            k <= meetings.len(),
            forall|j: int| 0 <= j < k ==> (#[trigger] meetings@[j]).id@ != id@,
            k < meetings.len() ==> meetings@[k as int].id@ == id@,
        decreases meetings.len() - k,
    {
        if same_chars(meetings[k].id.as_str(), id) {
            break;
        }
        k = k + 1;
    }
    if k == meetings.len() {
        return Err("Meeting not found".to_owned());
    }
    assert(first_meeting(meetings@, id@, k as int));
    let model = match &settings.meeting_ollama_model {
        Some(m) => m.as_str().to_owned(),
        None => match &settings.ollama_model {
            Some(m) => m.as_str().to_owned(),
            None => return Err("No Ollama model selected".to_owned()),
        },
    };
    Ok((k, model))
}

/// The alphanumeric characters of `s`, in order.
pub open spec fn alnum_only(s: Seq<char>) -> Seq<char>
    decreases s.len(),
{
    if s.len() == 0 {
        s
    } else if alnum_of(s.last()) {
        alnum_only(s.drop_last()).push(s.last())
    } else {
        alnum_only(s.drop_last())
    }
}

/// The file-name-safe key an app's icon is cached under: its name's letters
/// and digits, lowercased; an error when there are none.
pub fn icon_cache_key(app_name: &str) -> (r: Result<String, String>)
    ensures
        ({
            let key = lower_of(alnum_only(app_name@));
            match r {
                Ok(k) => alnum_only(app_name@).len() > 0 && k@ == key,
                Err(e) => alnum_only(app_name@).len() == 0 && e@ == "Invalid app name"@,
            }
        }),
{
    let v = chars_of(app_name);
    let mut kept: Vec<char> = Vec::new();
    let mut i: usize = 0;
    assert(v@.take(0) =~= Seq::<char>::empty());
    while i < v.len()
        invariant
            i <= v.len(),
            kept@ == alnum_only(v@.take(i as int)),
        decreases v.len() - i,
    {
        assert(v@.take(i + 1).drop_last() =~= v@.take(i as int));
        if is_alphanumeric(v[i]) {
            kept.push(v[i]);
        }
        i = i + 1;
    }
    assert(v@.take(v.len() as int) =~= v@);
    if kept.len() == 0 {
        return Err("Invalid app name".to_owned());
    }
    let lower = to_lowercase(string_of(&kept).as_str());
    Ok(lower)
}

/// The Spotlight query that finds an application bundle by name.
pub fn spotlight_query(app_name: &str) -> (r: String)
    ensures
        r@ == "kMDItemKind == 'Application' && (kMDItemFSName == '*"@ + app_name@
            + "*.app'cd || kMDItemAlternateNames == '*"@ + app_name@ + "*.app'cd)"@,
{
    let mut q = "kMDItemKind == 'Application' && (kMDItemFSName == '*".to_owned();
    q.append(app_name);
    q.append("*.app'cd || kMDItemAlternateNames == '*");
    q.append(app_name);
    q.append("*.app'cd)");
    q
}

/// `s` ends with `p`.
pub open spec fn ends_with(s: Seq<char>, p: Seq<char>) -> bool {
    s.len() >= p.len() && s.skip(s.len() - p.len()) == p
}

/// The icon file a bundle names in its `CFBundleIconFile`: trimmed, `AppIcon`
/// when unset, with `.icns` added unless it is there.
pub open spec fn icon_file_of(plist_value: Seq<char>) -> Seq<char> {
    let t = trim(plist_value);
    let name = if t.len() == 0 {
        "AppIcon"@
    } else {
        t
    };
    if ends_with(name, ".icns"@) {
        name
    } else {
        name + ".icns"@
    }
}

/// The icon file name from the bundle's `CFBundleIconFile` value.
pub fn icon_file_name(plist_value: &str) -> (r: String)
    ensures
        r@ == icon_file_of(plist_value@),
{
    let v = chars_of(plist_value);
    let t = trim_range(&v, 0, v.len());
    assert(v@.subrange(0, v.len() as int) =~= v@);
    let mut name = if t.len() == 0 {
        "AppIcon".to_owned()
    } else {
        string_of(&t)
    };
    let nv = chars_of(name.as_str());
    let suffix = chars_of(".icns");
    let has_suffix = if suffix.len() <= nv.len() {
        let r = crate::text::matches_at(&nv, &suffix, nv.len() - suffix.len());
        assert(nv@.subrange(nv.len() - suffix.len(), nv.len() as int) =~= nv@.skip(nv.len() - suffix.len()));
        r
    } else {
        false
    };
    if !has_suffix {
        name.append(".icns");
    }
    name
}

/// The bundle's `Info.plist`.
pub fn info_plist_path(app_path: &str) -> (r: String)
    ensures
        r@ == app_path@ + "/Contents/Info.plist"@,
{
    let mut p = app_path.to_owned();
    p.append("/Contents/Info.plist");
    p
}

/// The bundle's icon file.
pub fn icns_path(app_path: &str, icon_file: &str) -> (r: String)
    ensures
        r@ == app_path@ + "/Contents/Resources/"@ + icon_file@,
{
    let mut p = app_path.to_owned();
    p.append("/Contents/Resources/");
    p.append(icon_file);
    p
}

} // verus!
