//! The menu in the tray: what it shows, and what its entries stand for.

use crate::config::{Config, ConfigView};
use crate::text::{law_prefixes_come_off, occurs_at, same, strip_prefix, without_prefix};
use vstd::prelude::*;

verus! {

/// The shortcuts to choose from.
pub const SHORTCUTS: [&'static str; 4] = ["Alt+R", "Alt+J", "Alt+Q", "Ctrl+Space"];

/// What shows when the pointer rests on the icon.
pub const TOOLTIP: &'static str = "Riff · dictado por voz";

/// An entry with a tick.
pub struct CheckItem {
    pub id: String,
    pub label: String,
    pub enabled: bool,
    pub checked: bool,
}

/// An entry of the menu.
pub enum MenuEntry {
    Item { id: String, label: String, enabled: bool },
    Check(CheckItem),
    Separator,
    Submenu { id: String, label: String, enabled: bool, items: Vec<CheckItem> },
}

/// [`CheckItem`], with texts as sequences of characters.
pub struct CheckItemView {
    pub id: Seq<char>,
    pub label: Seq<char>,
    pub enabled: bool,
    pub checked: bool,
}

/// [`MenuEntry`], with texts as sequences of characters.
pub enum MenuEntryView {
    Item { id: Seq<char>, label: Seq<char>, enabled: bool },
    Check(CheckItemView),
    Separator,
    Submenu { id: Seq<char>, label: Seq<char>, enabled: bool, items: Seq<CheckItemView> },
}

impl View for CheckItem {
    type V = CheckItemView;

    open spec fn view(&self) -> CheckItemView {
        CheckItemView {
            id: self.id@,
            label: self.label@,
            enabled: self.enabled,
            checked: self.checked,
        }
    }
}

/// Entries with a tick, with texts as sequences of characters.
pub open spec fn item_views(items: Seq<CheckItem>) -> Seq<CheckItemView> {
    Seq::new(items.len(), |i: int| items[i]@)
}

impl View for MenuEntry {
    type V = MenuEntryView;

    open spec fn view(&self) -> MenuEntryView {
        match *self {
            MenuEntry::Item { id, label, enabled } => MenuEntryView::Item {
                id: id@,
                label: label@,
                enabled,
            },
            MenuEntry::Check(item) => MenuEntryView::Check(item@),
            MenuEntry::Separator => MenuEntryView::Separator,
            MenuEntry::Submenu { id, label, enabled, items } => MenuEntryView::Submenu {
                id: id@,
                label: label@,
                enabled,
                items: item_views(items@),
            },
        }
    }
}

/// Entries, with texts as sequences of characters.
pub open spec fn entry_views(entries: Seq<MenuEntry>) -> Seq<MenuEntryView> {
    Seq::new(entries.len(), |i: int| entries[i]@)
}

/// The identifier of the entry that chooses a shortcut.
pub open spec fn shortcut_id(choice: Seq<char>) -> Seq<char> {
    "shortcut:"@ + choice
}

/// The entry that chooses a shortcut, ticked where it is the one in use.
pub open spec fn shortcut_item(choice: Seq<char>, config: ConfigView) -> CheckItemView {
    CheckItemView {
        id: shortcut_id(choice),
        label: choice,
        enabled: true,
        checked: config.shortcut == choice,
    }
}

/// The entry that chooses a shortcut, ticked where it is the one in use.
pub fn shortcut_option(choice: &str, config: &Config) -> (r: CheckItem)
    ensures
        r@ == shortcut_item(choice@, config@),
{
    CheckItem {
        id: "shortcut:".to_string().concat(choice),
        label: choice.to_string(),
        enabled: true,
        checked: same(config.shortcut.as_str(), choice),
    }
}

/// The entries that choose among the shortcuts.
pub open spec fn shortcut_items(config: ConfigView) -> Seq<CheckItemView> {
    Seq::new(SHORTCUTS@.len(), |i: int| shortcut_item(SHORTCUTS@[i]@, config))
}

/// The menu, where `autostart` says whether Riff starts with the system.
pub open spec fn tray_menu(config: ConfigView, autostart: bool) -> Seq<MenuEntryView> {
    seq![
        MenuEntryView::Item {
            id: "heading"@,
            label: "Riff · "@ + config.shortcut,
            enabled: false,
        },
        MenuEntryView::Separator,
        MenuEntryView::Submenu {
            id: "shortcuts"@,
            label: "Atajo"@,
            enabled: true,
            items: shortcut_items(config),
        },
        MenuEntryView::Check(
            CheckItemView {
                id: "polish"@,
                label: "Pulir con IA"@,
                enabled: true,
                checked: config.polish,
            },
        ),
        MenuEntryView::Check(
            CheckItemView {
                id: "autostart"@,
                label: "Iniciar con Windows"@,
                enabled: true,
                checked: autostart,
            },
        ),
        MenuEntryView::Separator,
        MenuEntryView::Item { id: "settings"@, label: "Ajustes…"@, enabled: true },
        MenuEntryView::Item { id: "quit"@, label: "Salir de Riff"@, enabled: true },
    ]
}

/// The entries that choose among the shortcuts.
fn shortcut_options(config: &Config) -> (r: Vec<CheckItem>)
    ensures
        item_views(r@) == shortcut_items(config@),
{
    let mut items: Vec<CheckItem> = Vec::new();
    let mut i: usize = 0;
    while i < SHORTCUTS.len()
        invariant
            i <= SHORTCUTS@.len(),
            item_views(items@) =~= shortcut_items(config@).take(i as int),
        decreases SHORTCUTS@.len() - i,
    {
        let item = shortcut_option(SHORTCUTS[i], config);
        assert(item@ == shortcut_items(config@)[i as int]);
        let ghost before = item_views(items@);
        items.push(item);
        assert(item_views(items@) =~= before.push(item@));
        assert(shortcut_items(config@).take(i + 1) =~= before.push(item@));
        i = i + 1;
    }
    assert(shortcut_items(config@).take(i as int) =~= shortcut_items(config@));
    items
}

/// The menu, where `autostart` says whether Riff starts with the system.
pub fn build_tray(config: &Config, autostart: bool) -> (r: Vec<MenuEntry>)
    ensures
        entry_views(r@) == tray_menu(config@, autostart),
{
    let entries = vec![
        MenuEntry::Item {
            id: "heading".to_string(),
            label: "Riff · ".to_string().concat(config.shortcut.as_str()),
            enabled: false,
        },
        MenuEntry::Separator,
        MenuEntry::Submenu {
            id: "shortcuts".to_string(),
            label: "Atajo".to_string(),
            enabled: true,
            items: shortcut_options(config),
        },
        MenuEntry::Check(
            CheckItem {
                id: "polish".to_string(),
                label: "Pulir con IA".to_string(),
                enabled: true,
                checked: config.polish,
            },
        ),
        MenuEntry::Check(
            CheckItem {
                id: "autostart".to_string(),
                label: "Iniciar con Windows".to_string(),
                enabled: true,
                checked: autostart,
            },
        ),
        MenuEntry::Separator,
        MenuEntry::Item {
            id: "settings".to_string(),
            label: "Ajustes…".to_string(),
            enabled: true,
        },
        MenuEntry::Item {
            id: "quit".to_string(),
            label: "Salir de Riff".to_string(),
            enabled: true,
        },
    ];
    assert(entry_views(entries@) =~= tray_menu(config@, autostart));
    entries
}

/// What an entry stands for.
pub enum MenuChoice {
    Quit,
    Settings,
    Polish,
    Autostart,
    Shortcut(String),
    Nothing,
}

/// [`MenuChoice`], with texts as sequences of characters.
pub enum MenuChoiceView {
    Quit,
    Settings,
    Polish,
    Autostart,
    Shortcut(Seq<char>),
    Nothing,
}

impl View for MenuChoice {
    type V = MenuChoiceView;

    open spec fn view(&self) -> MenuChoiceView {
        match *self {
            MenuChoice::Quit => MenuChoiceView::Quit,
            MenuChoice::Settings => MenuChoiceView::Settings,
            MenuChoice::Polish => MenuChoiceView::Polish,
            MenuChoice::Autostart => MenuChoiceView::Autostart,
            MenuChoice::Shortcut(choice) => MenuChoiceView::Shortcut(choice@),
            MenuChoice::Nothing => MenuChoiceView::Nothing,
        }
    }
}

/// What the entry with the identifier `id` stands for.
pub open spec fn choice_of(id: Seq<char>) -> MenuChoiceView {
    if id == "quit"@ {
        MenuChoiceView::Quit
    } else if id == "settings"@ {
        MenuChoiceView::Settings
    } else if id == "polish"@ {
        MenuChoiceView::Polish
    } else if id == "autostart"@ {
        MenuChoiceView::Autostart
    } else {
        match without_prefix(id, "shortcut:"@) {
            Some(choice) => MenuChoiceView::Shortcut(choice),
            None => MenuChoiceView::Nothing,
        }
    }
}

/// Whether Riff starts with the system once the entry for that is chosen, where `enabled` says whether
/// it did, if that is known: the other way round, and where it is not known, from now on.
pub fn autostart_next(enabled: Option<bool>) -> (r: bool)
    ensures
        r == !(enabled == Some(true)),
{
    match enabled {
        Some(on) => !on,
        None => true,
    }
}

/// What the entry with the identifier `id` stands for.
pub fn menu_choice(id: &str) -> (r: MenuChoice)
    ensures
        r@ == choice_of(id@),
{
    if same(id, "quit") {
        MenuChoice::Quit
    } else if same(id, "settings") {
        MenuChoice::Settings
    } else if same(id, "polish") {
        MenuChoice::Polish
    } else if same(id, "autostart") {
        MenuChoice::Autostart
    } else {
        match strip_prefix(id, "shortcut:") {
            Some(choice) => MenuChoice::Shortcut(choice.to_string()),
            None => MenuChoice::Nothing,
        }
    }
}

/// The entry made for a shortcut stands for that shortcut.
pub proof fn law_shortcut_entries_are_understood(choice: Seq<char>)
    ensures
        choice_of(shortcut_id(choice)) == MenuChoiceView::Shortcut(choice),
{
    reveal_strlit("quit");
    reveal_strlit("settings");
    reveal_strlit("polish");
    reveal_strlit("autostart");
    reveal_strlit("shortcut:");
    let id = shortcut_id(choice);
    let prefix = "shortcut:"@;
    assert(id[1] == 'h');
    assert("quit"@[1] == 'u');
    assert("settings"@[1] == 'e');
    assert("polish"@[1] == 'o');
    assert("autostart"@[1] == 'u');
    assert(id.subrange(0, prefix.len() as int) =~= prefix);
    assert(occurs_at(prefix, id, 0));
    assert(id.skip(prefix.len() as int) =~= choice);
}

/// An entry that can be chosen stands for something, and two that stand for the same have the same
/// identifier.
pub proof fn law_choices_are_told_apart(a: Seq<char>, b: Seq<char>)
    requires
        !(choice_of(a) is Nothing),
        choice_of(a) == choice_of(b),
    ensures
        a == b,
{
    if choice_of(a) is Shortcut {
        let prefix = "shortcut:"@;
        assert(a =~= prefix + a.skip(prefix.len() as int)) by {
            assert(occurs_at(prefix, a, 0));
            assert(a.subrange(0, prefix.len() as int) == prefix);
            assert(forall|i: int| 0 <= i < prefix.len() ==> a[i] == a.subrange(0, prefix.len() as int)[i]);
        }
        assert(b =~= prefix + b.skip(prefix.len() as int)) by {
            assert(occurs_at(prefix, b, 0));
            assert(b.subrange(0, prefix.len() as int) == prefix);
            assert(forall|i: int| 0 <= i < prefix.len() ==> b[i] == b.subrange(0, prefix.len() as int)[i]);
        }
    }
}

/// Among the shortcuts, just the one in use is ticked.
pub proof fn law_the_shortcut_in_use_is_ticked(config: ConfigView, i: int)
    requires
        0 <= i < SHORTCUTS@.len(),
    ensures
        shortcut_items(config)[i].checked <==> SHORTCUTS@[i]@ == config.shortcut,
{
}

/// Every entry of the menu that can be chosen stands for something.
pub proof fn law_every_entry_is_understood(config: ConfigView, autostart: bool)
    ensures
        forall|i: int|
            0 <= i < tray_menu(config, autostart).len() ==> match #[trigger] tray_menu(
                config,
                autostart,
            )[i] {
                MenuEntryView::Item { id, enabled, .. } => enabled ==> !(choice_of(id) is Nothing),
                MenuEntryView::Check(item) => !(choice_of(item.id) is Nothing),
                MenuEntryView::Separator => true,
                MenuEntryView::Submenu { items, .. } => forall|k: int|
                    0 <= k < items.len() ==> !(choice_of((#[trigger] items[k]).id) is Nothing),
            },
{
    let items = shortcut_items(config);
    assert forall|k: int| 0 <= k < items.len() implies !(choice_of((#[trigger] items[k]).id) is Nothing) by {
        law_shortcut_entries_are_understood(SHORTCUTS@[k]@);
    }
}

/// The menu shows the settings as they are: the shortcut in use, the four to choose from, whether
/// texts are polished, and whether Riff starts with the system; the heading alone cannot be chosen.
pub proof fn law_the_menu_shows_the_settings(config: ConfigView, autostart: bool)
    ensures
        ({
            let menu = tray_menu(config, autostart);
            &&& menu.len() == 8
            &&& menu[0] is Item && menu[0]->Item_label == "Riff · "@ + config.shortcut
            &&& !menu[0]->Item_enabled
            &&& menu[1] is Separator
            &&& menu[2] is Submenu && menu[2]->Submenu_label == "Atajo"@ && menu[2]->Submenu_enabled
            &&& menu[2]->items.len() == 4
            &&& menu[2]->items[0].label == "Alt+R"@
            &&& menu[2]->items[1].label == "Alt+J"@
            &&& menu[2]->items[2].label == "Alt+Q"@
            &&& menu[2]->items[3].label == "Ctrl+Space"@
            &&& forall|k: int|
                0 <= k < 4 ==> {
                    let item = #[trigger] menu[2]->items[k];
                    &&& item.enabled
                    &&& item.id == "shortcut:"@ + item.label
                    &&& item.checked <==> config.shortcut == item.label
                }
            &&& menu[3] is Check && menu[3]->Check_0.label == "Pulir con IA"@
            &&& choice_of(menu[3]->Check_0.id) is Polish
            &&& menu[3]->Check_0.enabled && menu[3]->Check_0.checked == config.polish
            &&& menu[4] is Check && menu[4]->Check_0.label == "Iniciar con Windows"@
            &&& choice_of(menu[4]->Check_0.id) is Autostart
            &&& menu[4]->Check_0.enabled && menu[4]->Check_0.checked == autostart
            &&& menu[5] is Separator
            &&& menu[6] is Item && menu[6]->Item_label == "Ajustes…"@ && menu[6]->Item_enabled
            &&& choice_of(menu[6]->Item_id) is Settings
            &&& menu[7] is Item && menu[7]->Item_label == "Salir de Riff"@ && menu[7]->Item_enabled
            &&& choice_of(menu[7]->Item_id) is Quit
        }),
{
    lemma_fixed_ids();
}

proof fn lemma_fixed_ids()
    ensures
        choice_of("quit"@) is Quit,
        choice_of("settings"@) is Settings,
        choice_of("polish"@) is Polish,
        choice_of("autostart"@) is Autostart,
{
    reveal_strlit("quit");
    reveal_strlit("settings");
    reveal_strlit("polish");
    reveal_strlit("autostart");
    assert("quit"@.len() == 4 && "settings"@.len() == 8 && "polish"@.len() == 6
        && "autostart"@.len() == 9);
}

/// Each identifier stands for what its name says, and any other that chooses no shortcut stands for
/// nothing.
pub proof fn law_identifiers_mean_what_they_say(id: Seq<char>, choice: Seq<char>)
    ensures
        choice_of("quit"@) is Quit,
        choice_of("settings"@) is Settings,
        choice_of("polish"@) is Polish,
        choice_of("autostart"@) is Autostart,
        choice_of("shortcut:"@ + choice) == MenuChoiceView::Shortcut(choice),
        !(choice_of(id) is Nothing) ==> id == "quit"@ || id == "settings"@ || id == "polish"@ || id
            == "autostart"@ || (choice_of(id) is Shortcut && id == "shortcut:"@
            + choice_of(id)->Shortcut_0),
{
    lemma_fixed_ids();
    law_shortcut_entries_are_understood(choice);
    law_prefixes_come_off(id, "shortcut:"@, choice);
}

/// Entries are seen with all that they hold.
pub proof fn law_entries_are_seen_whole(
    item: CheckItem,
    items: Seq<CheckItem>,
    entries: Seq<MenuEntry>,
    i: int,
)
    ensures
        item@.id == item.id@ && item@.label == item.label@,
        item@.enabled == item.enabled && item@.checked == item.checked,
        MenuEntry::Check(item)@ == MenuEntryView::Check(item@),
        item_views(items).len() == items.len(),
        0 <= i < items.len() ==> item_views(items)[i] == items[i]@,
        entry_views(entries).len() == entries.len(),
        0 <= i < entries.len() ==> entry_views(entries)[i] == entries[i]@,
        0 <= i < entries.len() && entries[i] is Submenu ==> entries[i]@ is Submenu
            && entries[i]@->items == item_views(entries[i]->items@) && entries[i]@->Submenu_label
            == entries[i]->Submenu_label@ && entries[i]@->Submenu_enabled
            == entries[i]->Submenu_enabled,
        0 <= i < entries.len() && entries[i] is Item ==> entries[i]@ is Item && entries[i]@->Item_id
            == entries[i]->Item_id@ && entries[i]@->Item_label == entries[i]->Item_label@
            && entries[i]@->Item_enabled == entries[i]->Item_enabled,
{
}

/// A choice is seen as it is.
pub proof fn law_choices_are_seen_whole(choice: String)
    ensures
        MenuChoice::Shortcut(choice)@ == MenuChoiceView::Shortcut(choice@),
        TOOLTIP@ == "Riff · dictado por voz"@,
{
}

} // verus!
