use vstd::prelude::*;
use crate::text::{chars_of, chars_equal, starts_with_chars, starts_with_seq, string_from_chars, owned, concat_strs};

verus! {

/// Which tray icon is shown.
#[derive(Debug, Clone, Copy, PartialEq, Eq, Structural)]
pub enum MenuIconVariant {
    Default,
    Update,
}

/// One checkable entry of a tray submenu, as the front end sends it.
#[derive(Debug, Clone)]
pub struct TrayMenuItemConfig {
    pub id: String,
    pub label: String,
    pub checked: bool,
}

/// What the tray menu is built from.
#[derive(Debug, Clone)]
pub struct TrayMenuConfig {
    pub update_available: bool,
    pub microphones: Vec<TrayMenuItemConfig>,
    pub tones: Vec<TrayMenuItemConfig>,
    pub transcription_providers: Vec<TrayMenuItemConfig>,
    pub post_processing_providers: Vec<TrayMenuItemConfig>,
}

/// One entry of the tray menu, in the order in which it is shown.
#[derive(Debug, Clone)]
pub enum MenuEntry {
    Item { id: String, label: String },
    Separator,
    Submenu { label: String, items: Vec<TrayMenuItemConfig> },
}

pub struct CheckItemView {
    pub id: Seq<char>,
    pub label: Seq<char>,
    pub checked: bool,
}

pub enum EntryView {
    Item(Seq<char>, Seq<char>),
    Separator,
    Submenu(Seq<char>, Seq<CheckItemView>),
}

pub open spec fn check_item_view(i: TrayMenuItemConfig) -> CheckItemView {
    CheckItemView { id: i.id@, label: i.label@, checked: i.checked }
}

pub open spec fn check_items_view(v: Seq<TrayMenuItemConfig>) -> Seq<CheckItemView> {
    v.map_values(|i: TrayMenuItemConfig| check_item_view(i))
}

pub open spec fn entry_view(e: MenuEntry) -> EntryView {
    match e {
        MenuEntry::Item { id, label } => EntryView::Item(id@, label@),
        MenuEntry::Separator => EntryView::Separator,
        MenuEntry::Submenu { label, items } => EntryView::Submenu(label@, check_items_view(items@)),
    }
}

pub open spec fn entries_view(v: Seq<MenuEntry>) -> Seq<EntryView> {
    v.map_values(|e: MenuEntry| entry_view(e))
}

/// The entries of a submenu: each configured item, its id behind `prefix`.
pub open spec fn prefixed_items(prefix: Seq<char>, items: Seq<TrayMenuItemConfig>) -> Seq<CheckItemView> {
    Seq::new(
        items.len(),
        |k: int| CheckItemView { id: prefix + items[k].id@, label: items[k].label@, checked: items[k].checked },
    )
}

/// The whole tray menu for a configuration: the five pages, a separator, the copy entry,
/// a separator, the four submenus, a separator, the update entry when an update is
/// available, and the quit entry.
pub open spec fn tray_menu(c: TrayMenuConfig) -> Seq<EntryView> {
    seq![
        EntryView::Item("navigate-home"@, "Home"@),
        EntryView::Item("navigate-history"@, "History"@),
        EntryView::Item("navigate-dictionary"@, "Dictionary"@),
        EntryView::Item("navigate-styles"@, "Styles"@),
        EntryView::Item("navigate-settings"@, "Settings"@),
        EntryView::Separator,
        EntryView::Item("copy-last-transcription"@, "Copy Last Transcription"@),
        EntryView::Separator,
        EntryView::Submenu("Microphone"@, prefixed_items("mic-"@, c.microphones@)),
        EntryView::Submenu("Style"@, prefixed_items("tone-"@, c.tones@)),
        EntryView::Submenu("Transcription Provider"@, prefixed_items("transcription-"@, c.transcription_providers@)),
        EntryView::Submenu("Post-processing Provider"@, prefixed_items("post-processing-"@, c.post_processing_providers@)),
        EntryView::Separator,
    ] + (if c.update_available {
        seq![EntryView::Item("install-update"@, "Install Update"@)]
    } else {
        Seq::empty()
    }) + seq![EntryView::Item("quit-voquill"@, "Quit Voquill"@)]
}

fn item(id: &str, label: &str) -> (r: MenuEntry)
    ensures
        entry_view(r) == EntryView::Item(id@, label@),
{
    MenuEntry::Item { id: owned(id), label: owned(label) }
}

/// The items of a submenu, each id put behind `prefix`.
fn submenu_items(prefix: &str, items: &Vec<TrayMenuItemConfig>) -> (r: Vec<TrayMenuItemConfig>)
    ensures
        check_items_view(r@) == prefixed_items(prefix@, items@),
{
    let mut out: Vec<TrayMenuItemConfig> = Vec::new();
    let mut k: usize = 0;
    while k < items.len()
        invariant
            k <= items@.len(),
            out@.len() == k,
            forall|j: int| 0 <= j < k ==> #[trigger] check_item_view(out@[j]) == prefixed_items(prefix@, items@)[j],
        decreases items@.len() - k,
    {
        let it = &items[k];
        let id = concat_strs(prefix, it.id.as_str());
        let label = it.label.clone();
        out.push(TrayMenuItemConfig { id, label, checked: it.checked });
        k += 1;
    }
    assert(check_items_view(out@) =~= prefixed_items(prefix@, items@));
    out
}

/// The tray menu that `config` describes, entry by entry.
pub fn tray_menu_entries(config: &TrayMenuConfig) -> (r: Vec<MenuEntry>)
    ensures
        entries_view(r@) == tray_menu(*config),
{
    let mut v: Vec<MenuEntry> = Vec::new();
    v.push(item("navigate-home", "Home"));
    v.push(item("navigate-history", "History"));
    v.push(item("navigate-dictionary", "Dictionary"));
    v.push(item("navigate-styles", "Styles"));
    v.push(item("navigate-settings", "Settings"));
    v.push(MenuEntry::Separator);
    v.push(item("copy-last-transcription", "Copy Last Transcription"));
    v.push(MenuEntry::Separator);
    let mics = submenu_items("mic-", &config.microphones);
    v.push(MenuEntry::Submenu { label: owned("Microphone"), items: mics });
    let tones = submenu_items("tone-", &config.tones);
    v.push(MenuEntry::Submenu { label: owned("Style"), items: tones });
    let providers = submenu_items("transcription-", &config.transcription_providers);
    v.push(MenuEntry::Submenu { label: owned("Transcription Provider"), items: providers });
    let post = submenu_items("post-processing-", &config.post_processing_providers);
    v.push(MenuEntry::Submenu { label: owned("Post-processing Provider"), items: post });
    v.push(MenuEntry::Separator);
    if config.update_available {
        v.push(item("install-update", "Install Update"));
    }
    v.push(item("quit-voquill", "Quit Voquill"));
    assert(entries_view(v@) =~= tray_menu(*config));
    v
}

/// The icon shown for the tray: the update icon exactly when an update is available.
pub fn menu_icon_variant(update_available: bool) -> (r: MenuIconVariant)
    ensures
        r == (if update_available { MenuIconVariant::Update } else { MenuIconVariant::Default }),
{
    if update_available {
        MenuIconVariant::Update
    } else {
        MenuIconVariant::Default
    }
}

/// What a click on a tray menu entry asks for.
#[derive(Debug, Clone)]
pub enum TrayAction {
    Navigate(String),
    CopyLastTranscription,
    SelectMicrophone(String),
    SelectTone(String),
    SelectTranscriptionProvider(String),
    SelectPostProcessingProvider(String),
    InstallUpdate,
    Quit,
    Ignore,
}

pub enum ActionView {
    Navigate(Seq<char>),
    CopyLastTranscription,
    SelectMicrophone(Seq<char>),
    SelectTone(Seq<char>),
    SelectTranscriptionProvider(Seq<char>),
    SelectPostProcessingProvider(Seq<char>),
    InstallUpdate,
    Quit,
    Ignore,
}

pub open spec fn action_view(a: TrayAction) -> ActionView {
    match a {
        TrayAction::Navigate(s) => ActionView::Navigate(s@),
        TrayAction::CopyLastTranscription => ActionView::CopyLastTranscription,
        TrayAction::SelectMicrophone(s) => ActionView::SelectMicrophone(s@),
        TrayAction::SelectTone(s) => ActionView::SelectTone(s@),
        TrayAction::SelectTranscriptionProvider(s) => ActionView::SelectTranscriptionProvider(s@),
        TrayAction::SelectPostProcessingProvider(s) => ActionView::SelectPostProcessingProvider(s@),
        TrayAction::InstallUpdate => ActionView::InstallUpdate,
        TrayAction::Quit => ActionView::Quit,
        TrayAction::Ignore => ActionView::Ignore,
    }
}

pub open spec fn is_page_id(id: Seq<char>) -> bool {
    ||| id == "navigate-home"@
    ||| id == "navigate-history"@
    ||| id == "navigate-dictionary"@
    ||| id == "navigate-styles"@
    ||| id == "navigate-settings"@
}

/// How a menu entry id is answered: the pages by their route (the id without
/// `navigate-`), the submenu entries by the id behind their prefix, tested in the order
/// microphone, style, transcription provider, post-processing provider.
pub open spec fn route_of(id: Seq<char>) -> ActionView {
    if is_page_id(id) {
        ActionView::Navigate(id.skip("navigate-"@.len() as int))
    } else if id == "copy-last-transcription"@ {
        ActionView::CopyLastTranscription
    } else if starts_with_seq(id, "mic-"@) {
        ActionView::SelectMicrophone(id.skip("mic-"@.len() as int))
    } else if starts_with_seq(id, "tone-"@) {
        ActionView::SelectTone(id.skip("tone-"@.len() as int))
    } else if starts_with_seq(id, "transcription-"@) {
        ActionView::SelectTranscriptionProvider(id.skip("transcription-"@.len() as int))
    } else if starts_with_seq(id, "post-processing-"@) {
        ActionView::SelectPostProcessingProvider(id.skip("post-processing-"@.len() as int))
    } else if id == "install-update"@ {
        ActionView::InstallUpdate
    } else if id == "quit-voquill"@ {
        ActionView::Quit
    } else {
        ActionView::Ignore
    }
}

fn equals_literal(id: &Vec<char>, lit: &str) -> (r: bool)
    ensures
        r == (id@ == lit@),
{
    let l = chars_of(lit);
    chars_equal(id.as_slice(), l.as_slice())
}

/// `id` without its first `n` characters.
fn suffix_string(id: &Vec<char>, n: usize) -> (r: String)
    requires
        n <= id@.len(),
    ensures
        r@ == id@.skip(n as int),
{
    let mut out: Vec<char> = Vec::new();
    let mut k: usize = n;
    while k < id.len()
        invariant
            n <= k <= id@.len(),
            out@ == id@.subrange(n as int, k as int),
        decreases id@.len() - k,
    {
        out.push(id[k]);
        k += 1;
        assert(out@ =~= id@.subrange(n as int, k as int));
    }
    string_from_chars(out.as_slice())
}

/// If `id` starts with `prefix`, the rest of it.
fn strip_literal(id: &Vec<char>, prefix: &str) -> (r: Option<String>)
    ensures
        r is Some <==> starts_with_seq(id@, prefix@),
        r is Some ==> r->0@ == id@.skip(prefix@.len() as int),
{
    let p = chars_of(prefix);
    if starts_with_chars(id.as_slice(), p.as_slice()) {
        Some(suffix_string(id, p.len()))
    } else {
        None
    }
}

/// What a click on the menu entry with id `id` asks for.
pub fn route_menu_event(id: &str) -> (r: TrayAction)
    ensures
        action_view(r) == route_of(id@),
{
    let v = chars_of(id);
    if equals_literal(&v, "navigate-home") || equals_literal(&v, "navigate-history")
        || equals_literal(&v, "navigate-dictionary") || equals_literal(&v, "navigate-styles")
        || equals_literal(&v, "navigate-settings") {
        let n = chars_of("navigate-");
        proof {
            reveal_strlit("navigate-");
            reveal_strlit("navigate-home");
            reveal_strlit("navigate-history");
            reveal_strlit("navigate-dictionary");
            reveal_strlit("navigate-styles");
            reveal_strlit("navigate-settings");
        }
        return TrayAction::Navigate(suffix_string(&v, n.len()));
    }
    if equals_literal(&v, "copy-last-transcription") {
        return TrayAction::CopyLastTranscription;
    }
    match strip_literal(&v, "mic-") {
        Some(rest) => { return TrayAction::SelectMicrophone(rest); },
        None => {},
    }
    match strip_literal(&v, "tone-") {
        Some(rest) => { return TrayAction::SelectTone(rest); },
        None => {},
    }
    match strip_literal(&v, "transcription-") {
        Some(rest) => { return TrayAction::SelectTranscriptionProvider(rest); },
        None => {},
    }
    match strip_literal(&v, "post-processing-") {
        Some(rest) => { return TrayAction::SelectPostProcessingProvider(rest); },
        None => {},
    }
    if equals_literal(&v, "install-update") {
        return TrayAction::InstallUpdate;
    }
    if equals_literal(&v, "quit-voquill") {
        return TrayAction::Quit;
    }
    TrayAction::Ignore
}

/// Routing a submenu entry id gives back the item that the entry was built from: an
/// entry of the microphone submenu selects its microphone, and so on for each submenu.
pub proof fn lemma_submenu_ids_route_back(x: Seq<char>)
    ensures
        route_of("mic-"@ + x) == ActionView::SelectMicrophone(x),
        route_of("tone-"@ + x) == ActionView::SelectTone(x),
        route_of("transcription-"@ + x) == ActionView::SelectTranscriptionProvider(x),
        route_of("post-processing-"@ + x) == ActionView::SelectPostProcessingProvider(x),
{
    reveal_strlit("navigate-home");
    reveal_strlit("navigate-history");
    reveal_strlit("navigate-dictionary");
    reveal_strlit("navigate-styles");
    reveal_strlit("navigate-settings");
    reveal_strlit("copy-last-transcription");
    reveal_strlit("mic-");
    reveal_strlit("tone-");
    reveal_strlit("transcription-");
    reveal_strlit("post-processing-");
    let m = "mic-"@ + x;
    let t = "tone-"@ + x;
    let p = "transcription-"@ + x;
    let q = "post-processing-"@ + x;
    assert(m[0] == 'm' && t[0] == 't' && t[1] == 'o' && p[0] == 't' && p[1] == 'r' && q[0] == 'p');
    assert(m.subrange(0, 4) =~= "mic-"@);
    assert(m.skip(4) =~= x);
    assert(t.subrange(0, 5) =~= "tone-"@);
    assert(t.skip(5) =~= x);
    assert(p.subrange(0, 14) =~= "transcription-"@);
    assert(p.skip(14) =~= x);
    assert(q.subrange(0, 16) =~= "post-processing-"@);
    assert(q.skip(16) =~= x);
    assert(!is_page_id(m) && m != "copy-last-transcription"@) by {
        assert(m[0] != "navigate-home"@[0]);
    }
    assert(!is_page_id(t) && t != "copy-last-transcription"@);
    assert(!starts_with_seq(t, "mic-"@)) by {
        assert(t.subrange(0, 4)[0] != "mic-"@[0]);
    }
    assert(!is_page_id(p) && p != "copy-last-transcription"@);
    assert(!starts_with_seq(p, "mic-"@)) by {
        assert(p.subrange(0, 4)[0] != "mic-"@[0]);
    }
    assert(!starts_with_seq(p, "tone-"@)) by {
        assert(p.subrange(0, 5)[1] != "tone-"@[1]);
    }
    assert(!is_page_id(q) && q != "copy-last-transcription"@);
    assert(!starts_with_seq(q, "mic-"@)) by {
        assert(q.subrange(0, 4)[0] != "mic-"@[0]);
    }
    assert(!starts_with_seq(q, "tone-"@)) by {
        assert(q.subrange(0, 5)[0] != "tone-"@[0]);
    }
    assert(!starts_with_seq(q, "transcription-"@)) by {
        assert(q.subrange(0, 14)[0] != "transcription-"@[0]);
    }
}

/// Every entry of the tray menu that can be clicked is answered: the pages navigate to
/// their route, the copy, update and quit entries do what they say, and every submenu
/// entry selects the item it was built from.
pub proof fn lemma_menu_entries_are_routed(c: TrayMenuConfig)
    ensures
        route_of("navigate-home"@) == ActionView::Navigate("home"@),
        route_of("navigate-history"@) == ActionView::Navigate("history"@),
        route_of("navigate-dictionary"@) == ActionView::Navigate("dictionary"@),
        route_of("navigate-styles"@) == ActionView::Navigate("styles"@),
        route_of("navigate-settings"@) == ActionView::Navigate("settings"@),
        route_of("copy-last-transcription"@) == ActionView::CopyLastTranscription,
        route_of("install-update"@) == ActionView::InstallUpdate,
        route_of("quit-voquill"@) == ActionView::Quit,
        forall|k: int| 0 <= k < c.microphones@.len() ==>
            route_of(#[trigger] prefixed_items("mic-"@, c.microphones@)[k].id)
                == ActionView::SelectMicrophone(c.microphones@[k].id@),
        forall|k: int| 0 <= k < c.tones@.len() ==>
            route_of(#[trigger] prefixed_items("tone-"@, c.tones@)[k].id)
                == ActionView::SelectTone(c.tones@[k].id@),
        forall|k: int| 0 <= k < c.transcription_providers@.len() ==>
            route_of(#[trigger] prefixed_items("transcription-"@, c.transcription_providers@)[k].id)
                == ActionView::SelectTranscriptionProvider(c.transcription_providers@[k].id@),
        forall|k: int| 0 <= k < c.post_processing_providers@.len() ==>
            route_of(#[trigger] prefixed_items("post-processing-"@, c.post_processing_providers@)[k].id)
                == ActionView::SelectPostProcessingProvider(c.post_processing_providers@[k].id@),
{
    reveal_strlit("navigate-");
    reveal_strlit("navigate-home");
    reveal_strlit("navigate-history");
    reveal_strlit("navigate-dictionary");
    reveal_strlit("navigate-styles");
    reveal_strlit("navigate-settings");
    reveal_strlit("home");
    reveal_strlit("history");
    reveal_strlit("dictionary");
    reveal_strlit("styles");
    reveal_strlit("settings");
    reveal_strlit("copy-last-transcription");
    reveal_strlit("install-update");
    reveal_strlit("quit-voquill");
    reveal_strlit("mic-");
    reveal_strlit("tone-");
    reveal_strlit("transcription-");
    reveal_strlit("post-processing-");
    assert("navigate-home"@.skip(9) =~= "home"@);
    assert("navigate-history"@.skip(9) =~= "history"@);
    assert("navigate-dictionary"@.skip(9) =~= "dictionary"@);
    assert("navigate-styles"@.skip(9) =~= "styles"@);
    assert("navigate-settings"@.skip(9) =~= "settings"@);
    let cp = "copy-last-transcription"@;
    assert(!is_page_id(cp)) by {
        assert(cp[0] != "navigate-home"@[0]);
    }
    let iu = "install-update"@;
    assert(!is_page_id(iu) && iu != cp) by {
        assert(iu[0] != "navigate-home"@[0]);
        assert(iu[0] != cp[0]);
    }
    assert(!starts_with_seq(iu, "mic-"@)) by { assert(iu.subrange(0, 4)[0] != 'm'); }
    assert(!starts_with_seq(iu, "tone-"@)) by { assert(iu.subrange(0, 5)[0] != 't'); }
    assert(!starts_with_seq(iu, "transcription-"@)) by { assert(iu.subrange(0, 14)[0] != 't'); }
    assert(!starts_with_seq(iu, "post-processing-"@)) by { assert(iu.subrange(0, 14)[0] != 'p'); }
    let qv = "quit-voquill"@;
    assert(!is_page_id(qv) && qv != cp && qv != iu) by {
        assert(qv[0] != "navigate-home"@[0]);
        assert(qv[0] != cp[0]);
        assert(qv[0] != iu[0]);
    }
    assert(!starts_with_seq(qv, "mic-"@)) by { assert(qv.subrange(0, 4)[0] != 'm'); }
    assert(!starts_with_seq(qv, "tone-"@)) by { assert(qv.subrange(0, 5)[0] != 't'); }
    assert(!starts_with_seq(qv, "transcription-"@)) by { assert(qv.subrange(0, 12)[0] != 't'); }
    assert(!starts_with_seq(qv, "post-processing-"@)) by { assert(qv.len() < 16); }
    assert forall|k: int| 0 <= k < c.microphones@.len() implies
        route_of(#[trigger] prefixed_items("mic-"@, c.microphones@)[k].id)
            == ActionView::SelectMicrophone(c.microphones@[k].id@) by {
        lemma_submenu_ids_route_back(c.microphones@[k].id@);
    }
    assert forall|k: int| 0 <= k < c.tones@.len() implies
        route_of(#[trigger] prefixed_items("tone-"@, c.tones@)[k].id)
            == ActionView::SelectTone(c.tones@[k].id@) by {
        lemma_submenu_ids_route_back(c.tones@[k].id@);
    }
    assert forall|k: int| 0 <= k < c.transcription_providers@.len() implies
        route_of(#[trigger] prefixed_items("transcription-"@, c.transcription_providers@)[k].id)
            == ActionView::SelectTranscriptionProvider(c.transcription_providers@[k].id@) by {
        lemma_submenu_ids_route_back(c.transcription_providers@[k].id@);
    }
    assert forall|k: int| 0 <= k < c.post_processing_providers@.len() implies
        route_of(#[trigger] prefixed_items("post-processing-"@, c.post_processing_providers@)[k].id)
            == ActionView::SelectPostProcessingProvider(c.post_processing_providers@[k].id@) by {
        lemma_submenu_ids_route_back(c.post_processing_providers@[k].id@);
    }
}

} // verus!
