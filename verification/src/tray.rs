//! The tray menu: its labels, what it shows for the app's current state, and
//! what a click on one of its items asks for.
use vstd::prelude::*;
use crate::db::TranscriptionRecord;
use crate::text::{
    chars_of, join, join_from, replace, replace_all, same_chars, split, split_ranges, string_of,
    trim, trim_range, upper_of, char_to_uppercase, views,
};

verus! {

/// A catalog word as the tray shows it: its first character uppercased.
pub open spec fn label_word(w: Seq<char>) -> Seq<char> {
    if w.len() == 0 {
        Seq::<char>::empty()
    } else {
        upper_of(w[0]) + w.drop_first()
    }
}

/// A model id as the tray shows it: "whisper-base" reads "Whisper Base".
pub open spec fn model_label_of(id: Seq<char>) -> Seq<char> {
    join(split(id, '-').map_values(|w: Seq<char>| label_word(w)), seq![' '])
}

/// The tray label of a model id.
pub fn model_label(id: &str) -> (r: String)
    ensures
        r@ == model_label_of(id@),
{
    let v = chars_of(id);
    let ranges = split_ranges(&v, '-');
    let ghost ws = split(v@, '-');
    let mut words: Vec<Vec<char>> = Vec::new();
    let mut k: usize = 0;
    while k < ranges.len()
        invariant
            k <= ranges.len() == ws.len(),
            ws == split(v@, '-'),
            forall|j: int|
                0 <= j < ranges.len() ==> {
                    &&& (#[trigger] ranges@[j]).0 <= ranges@[j].1 <= v.len()
                    &&& v@.subrange(ranges@[j].0 as int, ranges@[j].1 as int) == ws[j]
                },
            words.len() == k,
            forall|j: int| 0 <= j < k ==> (#[trigger] words@[j])@ == label_word(ws[j]),
        decreases ranges.len() - k,
    {
        let (a, b) = ranges[k];
        let mut w: Vec<char> = Vec::new();
        if a < b {
            let up = chars_of(char_to_uppercase(v[a]).as_str());
            w = up;
            let mut i = a + 1;
            while i < b
                invariant
                    a < i <= b <= v.len(),
                    w@ == upper_of(v@[a as int]) + v@.subrange(a + 1, i as int),
                decreases b - i,
            {
                w.push(v[i]);
                i = i + 1;
                assert(w@ =~= upper_of(v@[a as int]) + v@.subrange(a + 1, i as int));
            }
            proof {
                let wk = ws[k as int];
                assert(wk[0] == v@[a as int]);
                assert(wk.drop_first() =~= v@.subrange(a + 1, b as int));
            }
        }
        words.push(w);
        k = k + 1;
    }
    let mut space: Vec<char> = Vec::new();
    space.push(' ');
    assert(views(words@).skip(0) =~= ws.map_values(|w: Seq<char>| label_word(w)));
    string_of(&join_from(&words, 0, &space))
}

/// Longest recent-transcription label, in characters, before it is cut.
pub const LABEL_MAX_CHARS: usize = 40;

/// A transcription as a one-line menu label: trimmed, newlines turned into
/// spaces, and cut to 40 characters with an ellipsis when longer.
pub open spec fn label_of(text: Seq<char>) -> Seq<char> {
    let clean = replace_all(trim(text), seq!['\n'], seq![' ']);
    if clean.len() > LABEL_MAX_CHARS {
        clean.take(LABEL_MAX_CHARS as int).push('…')
    } else {
        clean
    }
}

/// The menu label of a transcription.
pub fn truncate_label(text: &str) -> (r: String)
    ensures
        r@ == label_of(text@),
{
    let v = chars_of(text);
    let t = trim_range(&v, 0, v.len());
    assert(v@.subrange(0, v.len() as int) =~= v@);
    let mut nl: Vec<char> = Vec::new();
    nl.push('\n');
    let mut sp: Vec<char> = Vec::new();
    sp.push(' ');
    let clean = replace(&t, &nl, &sp);
    assert(nl@ =~= seq!['\n']);
    assert(sp@ =~= seq![' ']);
    if clean.len() > LABEL_MAX_CHARS {
        let mut cut: Vec<char> = Vec::new();
        let mut i: usize = 0;
        while i < LABEL_MAX_CHARS
            invariant
                i <= LABEL_MAX_CHARS < clean.len(),
                cut@ == clean@.take(i as int),
            decreases LABEL_MAX_CHARS - i,
        {
            cut.push(clean[i]);
            i = i + 1;
            assert(cut@ =~= clean@.take(i as int));
        }
        cut.push('…');
        string_of(&cut)
    } else {
        string_of(&clean)
    }
}

/// The icons tray items carry.
#[derive(Clone, Copy, PartialEq, Eq, Structural)]
pub enum MenuIcon {
    Users,
    Copy,
    Pause,
    Play,
    Gear,
    Dictionary,
    Sparkle,
    Folder,
    History,
    Home,
}

/// A clickable tray item.
pub enum MenuLeaf {
    Item {
        id: String,
        label: String,
        enabled: bool,
        icon: Option<MenuIcon>,
        accelerator: Option<&'static str>,
    },
    Check { id: String, label: String, checked: bool },
}

/// One row of the tray menu.
pub enum MenuEntry {
    Leaf(MenuLeaf),
    Submenu { label: &'static str, items: Vec<MenuLeaf> },
    Separator,
}

/// A tray item, as plain values.
pub enum LeafView {
    Item {
        id: Seq<char>,
        label: Seq<char>,
        enabled: bool,
        icon: Option<MenuIcon>,
        accelerator: Option<Seq<char>>,
    },
    Check { id: Seq<char>, label: Seq<char>, checked: bool },
}

/// A tray menu row, as plain values.
pub enum EntryView {
    Leaf(LeafView),
    Submenu { label: Seq<char>, items: Seq<LeafView> },
    Separator,
}

impl View for MenuLeaf {
    type V = LeafView;

    open spec fn view(&self) -> LeafView {
        match self {
            MenuLeaf::Item { id, label, enabled, icon, accelerator } => LeafView::Item {
                id: id@,
                label: label@,
                enabled: *enabled,
                icon: *icon,
                accelerator: match accelerator {
                    Some(a) => Some(a@),
                    None => None,
                },
            },
            MenuLeaf::Check { id, label, checked } => LeafView::Check {
                id: id@,
                label: label@,
                checked: *checked,
            },
        }
    }
}

/// The views of tray items.
pub open spec fn leaf_views(v: Seq<MenuLeaf>) -> Seq<LeafView> {
    v.map_values(|l: MenuLeaf| l@)
}

impl View for MenuEntry {
    type V = EntryView;

    open spec fn view(&self) -> EntryView {
        match self {
            MenuEntry::Leaf(l) => EntryView::Leaf(l@),
            MenuEntry::Submenu { label, items } => EntryView::Submenu {
                label: label@,
                items: leaf_views(items@),
            },
            MenuEntry::Separator => EntryView::Separator,
        }
    }
}

/// The views of menu rows.
pub open spec fn entry_views(v: Seq<MenuEntry>) -> Seq<EntryView> {
    v.map_values(|e: MenuEntry| e@)
}

/// What the tray menu reflects.
pub struct MenuState {
    pub paused: bool,
    pub meeting_active: bool,
    pub active_engine: Option<String>,
    pub selected_mic: Option<String>,
    /// Speech models on disk in full.
    pub downloaded: Vec<&'static str>,
    /// Input devices, or `None` when they could not be listed.
    pub microphones: Option<Vec<String>>,
}

/// `o` holds a string equal to `s`.
pub open spec fn holds(o: Option<String>, s: Seq<char>) -> bool {
    o matches Some(x) && x@ == s
}

/// A plain item row.
pub open spec fn item_row(
    id: Seq<char>,
    label: Seq<char>,
    enabled: bool,
    icon: Option<MenuIcon>,
    accelerator: Option<Seq<char>>,
) -> EntryView {
    EntryView::Leaf(LeafView::Item { id, label, enabled, icon, accelerator })
}

/// The model switcher: one check per downloaded model, ticked when active.
pub open spec fn model_checks(downloaded: Seq<&'static str>, active: Option<String>) -> Seq<LeafView> {
    Seq::new(
        downloaded.len(),
        |k: int|
            LeafView::Check {
                id: "model:"@ + downloaded[k]@,
                label: model_label_of(downloaded[k]@),
                checked: holds(active, downloaded[k]@),
            },
    )
}

/// The microphone picker: the system default, then each device, the selected one ticked.
pub open spec fn mic_checks(mics: Seq<String>, selected: Option<String>) -> Seq<LeafView> {
    seq![LeafView::Check { id: "mic:"@, label: "System Default"@, checked: selected is None }]
        + Seq::new(
        mics.len(),
        |k: int|
            LeafView::Check {
                id: "mic:"@ + mics[k]@,
                label: mics[k]@,
                checked: holds(selected, mics[k]@),
            },
    )
}

/// The three newest transcriptions, each copyable from the menu.
pub open spec fn recent_items(history: Seq<TranscriptionRecord>) -> Seq<LeafView> {
    Seq::new(
        if history.len() < 3 {
            history.len()
        } else {
            3
        },
        |k: int|
            LeafView::Item {
                id: "recent:"@ + history[k].id@,
                label: label_of(history[k].text@),
                enabled: true,
                icon: None,
                accelerator: None,
            },
    )
}

/// The tray menu for `state` and the dictation history (newest first).
pub open spec fn menu_of(state: MenuState, history: Seq<TranscriptionRecord>) -> Seq<EntryView> {
    seq![
        item_row(
            "meeting"@,
            if state.meeting_active {
                "Stop Meeting Notes"@
            } else {
                "Start Meeting Notes"@
            },
            true,
            Some(MenuIcon::Users),
            None,
        ),
        item_row("copy-last"@, "Copy Last Transcription"@, history.len() > 0, Some(MenuIcon::Copy), None),
        item_row(
            "pause"@,
            if state.paused {
                "Resume Dictation"@
            } else {
                "Pause Dictation"@
            },
            true,
            Some(
                if state.paused {
                    MenuIcon::Play
                } else {
                    MenuIcon::Pause
                },
            ),
            None,
        ),
        EntryView::Separator,
        item_row("nav:dashboard"@, "Home"@, true, Some(MenuIcon::Home), None),
        item_row("nav:preferences"@, "General Settings"@, true, Some(MenuIcon::Gear), Some("CmdOrCtrl+,"@)),
    ] + (if state.downloaded@.len() > 0 {
        seq![EntryView::Submenu { label: "Speech Models"@, items: model_checks(state.downloaded@, state.active_engine) }]
    } else {
        Seq::<EntryView>::empty()
    }) + (match state.microphones {
        Some(m) => seq![EntryView::Submenu { label: "Microphone"@, items: mic_checks(m@, state.selected_mic) }],
        None => Seq::<EntryView>::empty(),
    }) + seq![
        item_row("nav:dictionary"@, "Dictionary"@, true, Some(MenuIcon::Dictionary), None),
        EntryView::Separator,
        item_row("nav:ai"@, "Intelligence Setup"@, true, Some(MenuIcon::Sparkle), None),
        item_row("nav:meetings"@, "Meetings & Notes"@, true, Some(MenuIcon::Folder), None),
        EntryView::Separator,
        item_row("nav:history"@, "History"@, true, Some(MenuIcon::History), None),
    ] + (if history.len() > 0 {
        seq![EntryView::Submenu { label: "Recent Transcriptions"@, items: recent_items(history) }]
    } else {
        Seq::<EntryView>::empty()
    }) + seq![
        EntryView::Separator,
        item_row("quit"@, "Quit Patter"@, true, None, Some("CmdOrCtrl+Q"@)),
    ]
}

fn item(
    id: &str,
    label: &str,
    enabled: bool,
    icon: Option<MenuIcon>,
    accelerator: Option<&'static str>,
) -> (e: MenuEntry)
    ensures
        e@ == item_row(
            id@,
            label@,
            enabled,
            icon,
            match accelerator {
                Some(a) => Some(a@),
                None => None,
            },
        ),
{
    MenuEntry::Leaf(
        MenuLeaf::Item { id: id.to_owned(), label: label.to_owned(), enabled, icon, accelerator },
    )
}

fn prefixed(prefix: &str, s: &str) -> (r: String)
    ensures
        r@ == prefix@ + s@,
{
    let mut r = prefix.to_owned();
    r.append(s);
    r
}

fn holds_str(o: &Option<String>, s: &str) -> (r: bool)
    ensures
        r == holds(*o, s@),
{
    match o {
        Some(x) => same_chars(x.as_str(), s),
        None => false,
    }
}

fn push_entry(entries: &mut Vec<MenuEntry>, e: MenuEntry)
    ensures
        entry_views(final(entries)@) == entry_views(old(entries)@).push(e@),
{
    entries.push(e);
    assert(entry_views(entries@) =~= entry_views(old(entries)@).push(e@));
}

/// The tray menu for the app's current state and its dictation history
/// (newest first).
#[verifier::spinoff_prover]
#[verifier::rlimit(50)]
pub fn build_menu(state: &MenuState, history: &Vec<TranscriptionRecord>) -> (r: Vec<MenuEntry>)
    ensures
        entry_views(r@) == menu_of(*state, history@),
{
    let mut entries: Vec<MenuEntry> = Vec::new();
    let ghost e0 = entry_views(entries@);
    push_entry(&mut entries, item(
        "meeting",
        if state.meeting_active {
            "Stop Meeting Notes"
        } else {
            "Start Meeting Notes"
        },
        true,
        Some(MenuIcon::Users),
        None,
    ));
    push_entry(&mut entries, item("copy-last", "Copy Last Transcription", history.len() > 0, Some(MenuIcon::Copy), None));
    push_entry(&mut entries, item(
        "pause",
        if state.paused {
            "Resume Dictation"
        } else {
            "Pause Dictation"
        },
        true,
        Some(
            if state.paused {
                MenuIcon::Play
            } else {
                MenuIcon::Pause
            },
        ),
        None,
    ));
    push_entry(&mut entries, MenuEntry::Separator);
    push_entry(&mut entries, item("nav:dashboard", "Home", true, Some(MenuIcon::Home), None));
    push_entry(&mut entries, item("nav:preferences", "General Settings", true, Some(MenuIcon::Gear), Some("CmdOrCtrl+,")));
    let ghost part1 = entry_views(entries@);
    if state.downloaded.len() > 0 {
        let mut items: Vec<MenuLeaf> = Vec::new();
        let mut k: usize = 0;
        while k < state.downloaded.len()
            invariant
                k <= state.downloaded.len(),
                items.len() == k,
                forall|j: int| 0 <= j < k ==> (#[trigger] items@[j])@ == model_checks(state.downloaded@, state.active_engine)[j],
            decreases state.downloaded.len() - k,
        {
            let id = state.downloaded[k];
            items.push(MenuLeaf::Check {
                id: prefixed("model:", id),
                label: model_label(id),
                checked: holds_str(&state.active_engine, id),
            });
            k = k + 1;
        }
        assert(leaf_views(items@) =~= model_checks(state.downloaded@, state.active_engine));
        push_entry(&mut entries, MenuEntry::Submenu { label: "Speech Models", items });
    }
    let ghost part2 = entry_views(entries@);
    match &state.microphones {
        Some(mics) => {
            let mut items: Vec<MenuLeaf> = Vec::new();
            items.push(MenuLeaf::Check {
                id: "mic:".to_owned(),
                label: "System Default".to_owned(),
                checked: state.selected_mic.is_none(),
            });
            let mut k: usize = 0;
            while k < mics.len()
                invariant
                    k <= mics.len(),
                    items.len() == k + 1,
                    forall|j: int| 0 <= j < k + 1 ==> (#[trigger] items@[j])@ == mic_checks(mics@, state.selected_mic)[j],
                decreases mics.len() - k,
            {
                items.push(MenuLeaf::Check {
                    id: prefixed("mic:", mics[k].as_str()),
                    label: mics[k].as_str().to_owned(),
                    checked: holds_str(&state.selected_mic, mics[k].as_str()),
                });
                k = k + 1;
            }
            assert(leaf_views(items@) =~= mic_checks(mics@, state.selected_mic));
            push_entry(&mut entries, MenuEntry::Submenu { label: "Microphone", items });
        },
        None => {},
    }
    let ghost part3 = entry_views(entries@);
    push_entry(&mut entries, item("nav:dictionary", "Dictionary", true, Some(MenuIcon::Dictionary), None));
    push_entry(&mut entries, MenuEntry::Separator);
    push_entry(&mut entries, item("nav:ai", "Intelligence Setup", true, Some(MenuIcon::Sparkle), None));
    push_entry(&mut entries, item("nav:meetings", "Meetings & Notes", true, Some(MenuIcon::Folder), None));
    push_entry(&mut entries, MenuEntry::Separator);
    push_entry(&mut entries, item("nav:history", "History", true, Some(MenuIcon::History), None));
    let ghost part4 = entry_views(entries@);
    if history.len() > 0 {
        let n = if history.len() < 3 {
            history.len()
        } else {
            3
        };
        let mut items: Vec<MenuLeaf> = Vec::new();
        let mut k: usize = 0;
        while k < n
            invariant
                k <= n <= history.len(),
                n == if history.len() < 3 {
                    history.len()
                } else {
                    3
                },
                items.len() == k,
                forall|j: int| 0 <= j < k ==> (#[trigger] items@[j])@ == recent_items(history@)[j],
            decreases n - k,
        {
            items.push(MenuLeaf::Item {
                id: prefixed("recent:", history[k].id.as_str()),
                label: truncate_label(history[k].text.as_str()),
                enabled: true,
                icon: None,
                accelerator: None,
            });
            k = k + 1;
        }
        assert(leaf_views(items@) =~= recent_items(history@));
        push_entry(&mut entries, MenuEntry::Submenu { label: "Recent Transcriptions", items });
    }
    let ghost part5 = entry_views(entries@);
    push_entry(&mut entries, MenuEntry::Separator);
    push_entry(&mut entries, item("quit", "Quit Patter", true, None, Some("CmdOrCtrl+Q")));
    assert(entry_views(entries@) =~= menu_of(*state, history@));
    entries
}

/// What a click on a tray item asks for.
pub enum MenuAction {
    Quit,
    /// Stop the meeting recording if one is running, else start one.
    ToggleMeeting,
    /// Copy the newest transcription.
    CopyLast,
    /// Pause dictation, or resume it.
    TogglePause,
    /// Open the dashboard on this tab.
    Navigate(String),
    /// Copy the transcription with this id.
    CopyRecent(String),
    /// Switch to this speech model.
    SelectModel(String),
    /// Record from this device; `None` is the system default.
    SelectMicrophone(Option<String>),
    /// Not an item this menu has.
    Ignore,
}

/// A tray action, as plain values.
pub enum ActionView {
    Quit,
    ToggleMeeting,
    CopyLast,
    TogglePause,
    Navigate(Seq<char>),
    CopyRecent(Seq<char>),
    SelectModel(Seq<char>),
    SelectMicrophone(Option<Seq<char>>),
    Ignore,
}

impl View for MenuAction {
    type V = ActionView;

    open spec fn view(&self) -> ActionView {
        match self {
            MenuAction::Quit => ActionView::Quit,
            MenuAction::ToggleMeeting => ActionView::ToggleMeeting,
            MenuAction::CopyLast => ActionView::CopyLast,
            MenuAction::TogglePause => ActionView::TogglePause,
            MenuAction::Navigate(t) => ActionView::Navigate(t@),
            MenuAction::CopyRecent(t) => ActionView::CopyRecent(t@),
            MenuAction::SelectModel(t) => ActionView::SelectModel(t@),
            MenuAction::SelectMicrophone(m) => ActionView::SelectMicrophone(
                match m {
                    Some(x) => Some(x@),
                    None => None,
                },
            ),
            MenuAction::Ignore => ActionView::Ignore,
        }
    }
}

/// `id` starts with `p`.
pub open spec fn has_prefix(id: Seq<char>, p: Seq<char>) -> bool {
    id.len() >= p.len() && id.take(p.len() as int) == p
}

/// The action for a click on the item with id `id`.
pub open spec fn action_of(id: Seq<char>) -> ActionView {
    if id == "quit"@ {
        ActionView::Quit
    } else if id == "meeting"@ {
        ActionView::ToggleMeeting
    } else if id == "copy-last"@ {
        ActionView::CopyLast
    } else if id == "pause"@ {
        ActionView::TogglePause
    } else if has_prefix(id, "nav:"@) {
        ActionView::Navigate(id.skip(4))
    } else if has_prefix(id, "recent:"@) {
        ActionView::CopyRecent(id.skip(7))
    } else if has_prefix(id, "model:"@) {
        ActionView::SelectModel(id.skip(6))
    } else if has_prefix(id, "mic:"@) {
        ActionView::SelectMicrophone(
            if id.len() == 4 {
                None
            } else {
                Some(id.skip(4))
            },
        )
    } else {
        ActionView::Ignore
    }
}

/// `s` without its first `p.len()` characters, when `s` starts with `p`.
fn strip_prefix(s: &Vec<char>, p: &str) -> (r: Option<String>)
    ensures
        match r {
            Some(t) => has_prefix(s@, p@) && t@ == s@.skip(p@.len() as int),
            None => !has_prefix(s@, p@),
        },
{
    let pv = chars_of(p);
    if !crate::text::matches_at(s, &pv, 0) {
        if pv.len() <= s.len() {
            assert(s@.subrange(0, pv.len() as int) =~= s@.take(pv.len() as int));
        }
        return None;
    }
    assert(s@.subrange(0, pv.len() as int) =~= s@.take(pv.len() as int));
    let mut out: Vec<char> = Vec::new();
    let mut i = pv.len();
    while i < s.len()
        invariant
            pv.len() <= i <= s.len(),
            out@ == s@.subrange(pv.len() as int, i as int),
        decreases s.len() - i,
    {
        out.push(s[i]);
        i = i + 1;
        assert(out@ =~= s@.subrange(pv.len() as int, i as int));
    }
    Some(string_of(&out))
}

/// What a click on the tray item `id` asks for.
pub fn menu_action(id: &str) -> (r: MenuAction)
    ensures
        r@ == action_of(id@),
{
    proof {
        reveal_strlit("nav:");
        reveal_strlit("recent:");
        reveal_strlit("model:");
        reveal_strlit("mic:");
    }
    if same_chars(id, "quit") {
        return MenuAction::Quit;
    }
    if same_chars(id, "meeting") {
        return MenuAction::ToggleMeeting;
    }
    if same_chars(id, "copy-last") {
        return MenuAction::CopyLast;
    }
    if same_chars(id, "pause") {
        return MenuAction::TogglePause;
    }
    let v = chars_of(id);
    if let Some(tab) = strip_prefix(&v, "nav:") {
        return MenuAction::Navigate(tab);
    }
    if let Some(rec) = strip_prefix(&v, "recent:") {
        return MenuAction::CopyRecent(rec);
    }
    if let Some(model) = strip_prefix(&v, "model:") {
        return MenuAction::SelectModel(model);
    }
    if let Some(mic) = strip_prefix(&v, "mic:") {
        if mic.as_str().is_empty() {
            return MenuAction::SelectMicrophone(None);
        }
        return MenuAction::SelectMicrophone(Some(mic));
    }
    MenuAction::Ignore
}

proof fn lemma_replace_newlines(s: Seq<char>)
    ensures
        !replace_all(s, seq!['\n'], seq![' ']).contains('\n'),
    decreases s.len(),
{
    let r = replace_all(s, seq!['\n'], seq![' ']);
    if s.len() > 0 {
        if s.take(1) == seq!['\n'] {
            lemma_replace_newlines(s.skip(1));
            let rest = replace_all(s.skip(1), seq!['\n'], seq![' ']);
            assert(r == seq![' '] + rest);
            if r.contains('\n') {
                let i = choose|i: int| 0 <= i < r.len() && r[i] == '\n';
                assert(rest[i - 1] == '\n');
            }
        } else {
            lemma_replace_newlines(s.drop_first());
            let rest = replace_all(s.drop_first(), seq!['\n'], seq![' ']);
            assert(r == seq![s[0]] + rest);
            assert(s[0] != '\n') by {
                if s[0] == '\n' {
                    assert(s.take(1) =~= seq!['\n']);
                }
            }
            if r.contains('\n') {
                let i = choose|i: int| 0 <= i < r.len() && r[i] == '\n';
                assert(rest[i - 1] == '\n');
            }
        }
    }
}

/// A recent-transcription label is one line of at most 41 characters.
pub proof fn law_label_is_one_short_line(text: Seq<char>)
    ensures
        label_of(text).len() <= LABEL_MAX_CHARS + 1,
        !label_of(text).contains('\n'),
{
    let clean = replace_all(trim(text), seq!['\n'], seq![' ']);
    lemma_replace_newlines(trim(text));
    let l = label_of(text);
    if l.contains('\n') {
        let i = choose|i: int| 0 <= i < l.len() && l[i] == '\n';
        if clean.len() > LABEL_MAX_CHARS {
            if i < LABEL_MAX_CHARS {
                assert(clean[i] == '\n');
            }
        } else {
            assert(clean[i] == '\n');
        }
    }
}

/// The ids the tray menu gives its items mean, when clicked, what the items
/// say: a model item selects that model, a microphone item that device (the
/// default for the empty name), a recent item copies that transcription, and
/// a navigation item opens that tab.
pub proof fn law_menu_ids_round_trip(x: Seq<char>)
    ensures
        action_of("model:"@ + x) == ActionView::SelectModel(x),
        action_of("recent:"@ + x) == ActionView::CopyRecent(x),
        action_of("nav:"@ + x) == ActionView::Navigate(x),
        action_of("mic:"@ + x) == ActionView::SelectMicrophone(
            if x.len() == 0 {
                None
            } else {
                Some(x)
            },
        ),
        action_of("meeting"@) == ActionView::ToggleMeeting,
        action_of("copy-last"@) == ActionView::CopyLast,
        action_of("pause"@) == ActionView::TogglePause,
        action_of("quit"@) == ActionView::Quit,
{
    reveal_strlit("model:");
    reveal_strlit("recent:");
    reveal_strlit("nav:");
    reveal_strlit("mic:");
    reveal_strlit("meeting");
    reveal_strlit("copy-last");
    reveal_strlit("pause");
    reveal_strlit("quit");
    let m = "model:"@ + x;
    assert(m[0] == 'm' && m[1] == 'o');
    assert(m.take(6) =~= "model:"@);
    assert(m.skip(6) =~= x);
    assert(m != "quit"@ && m != "meeting"@ && m != "copy-last"@ && m != "pause"@);
    assert(!has_prefix(m, "nav:"@) && !has_prefix(m, "recent:"@));
    let r = "recent:"@ + x;
    assert(r[0] == 'r');
    assert(r.take(7) =~= "recent:"@);
    assert(r.skip(7) =~= x);
    assert(r != "quit"@ && r != "meeting"@ && r != "copy-last"@ && r != "pause"@);
    assert(!has_prefix(r, "nav:"@));
    let n = "nav:"@ + x;
    assert(n[0] == 'n');
    assert(n.take(4) =~= "nav:"@);
    assert(n.skip(4) =~= x);
    assert(n != "quit"@ && n != "meeting"@ && n != "copy-last"@ && n != "pause"@);
    let c = "mic:"@ + x;
    assert(c[0] == 'm' && c[1] == 'i');
    assert(c.take(4) =~= "mic:"@);
    assert(c.skip(4) =~= x);
    assert(c != "quit"@ && c != "meeting"@ && c != "copy-last"@ && c != "pause"@);
    assert(!has_prefix(c, "nav:"@) && !has_prefix(c, "recent:"@) && !has_prefix(c, "model:"@));
    assert("meeting"@[0] != "quit"@[0]);
    assert("copy-last"@[0] != "quit"@[0] && "copy-last"@[0] != "meeting"@[0]);
    assert("pause"@[0] != "quit"@[0] && "pause"@[0] != "meeting"@[0] && "pause"@[0] != "copy-last"@[0]);
}


/// `e` is the microphone picker for devices `mics` with `selected` in use:
/// System Default first, ticked exactly when no device is chosen, then each
/// device, ticked exactly when its name is the chosen one.
pub open spec fn ticks_selected_mic(e: EntryView, mics: Seq<String>, selected: Option<String>) -> bool {
    match e {
        EntryView::Submenu { label, items } => {
            &&& label == "Microphone"@
            &&& items.len() == mics.len() + 1
            &&& items[0] == LeafView::Check { id: "mic:"@, label: "System Default"@, checked: selected is None }
            &&& forall|k: int|
                0 <= k < mics.len() ==> #[trigger] items[k + 1] == LeafView::Check {
                    id: "mic:"@ + mics[k]@,
                    label: mics[k]@,
                    checked: match selected {
                        Some(sel) => sel@ == mics[k]@,
                        None => false,
                    },
                }
        },
        _ => false,
    }
}

/// The tray menu holds a microphone picker that ticks the device in use
/// (see `ticks_selected_mic`) whenever the devices could be listed.
pub proof fn law_microphone_menu_ticks_the_selected_device(state: MenuState, history: Seq<TranscriptionRecord>)
    requires
        state.microphones is Some,
    ensures
        exists|i: int|
            0 <= i < menu_of(state, history).len() && ticks_selected_mic(
                #[trigger] menu_of(state, history)[i],
                state.microphones->0@,
                state.selected_mic,
            ),
{
    let i: int = if state.downloaded@.len() > 0 {
        7
    } else {
        6
    };
    let m = menu_of(state, history);
    let mics = state.microphones->0@;
    let items = mic_checks(mics, state.selected_mic);
    assert(m[i] == EntryView::Submenu { label: "Microphone"@, items });
    assert forall|k: int| 0 <= k < mics.len() implies #[trigger] items[k + 1] == LeafView::Check {
        id: "mic:"@ + mics[k]@,
        label: mics[k]@,
        checked: match state.selected_mic {
            Some(sel) => sel@ == mics[k]@,
            None => false,
        },
    } by {
        assert(items[k + 1] == LeafView::Check {
            id: "mic:"@ + mics[k]@,
            label: mics[k]@,
            checked: holds(state.selected_mic, mics[k]@),
        });
    }
    assert(ticks_selected_mic(m[i], mics, state.selected_mic));
}

} // verus!
