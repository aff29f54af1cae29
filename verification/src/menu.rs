use vstd::prelude::*;
use crate::electron_types::Menu;
use crate::text::{
    byte_len, byte_offset, chars_of, find_last, last_index, push_str, split, split_chars, str_is,
    string_of, substring, substring_of, utf8_len,
};

verus! {

/// The operating system a menu is made for.
#[derive(Clone, Copy, Debug, PartialEq, Eq, Structural)]
pub enum TargetOs {
    MacOs,
    Windows,
    Other,
}

/// A set of modifier keys.
#[derive(Clone, Copy, Debug, PartialEq, Eq, Structural)]
pub struct Modifiers {
    pub super_key: bool,
    pub control: bool,
    pub alt: bool,
    pub shift: bool,
}

/// A key of an accelerator.
#[derive(Clone, Copy, Debug, PartialEq, Eq, Structural)]
pub enum KeyCode {
    /// A letter key, `A` to `Z`.
    Letter(char),
    Minus,
    NumpadAdd,
    Equal,
}

/// A keyboard shortcut: modifiers (none given when the shortcut has no `+`) and a key.
#[derive(Clone, Copy, Debug, PartialEq, Eq, Structural)]
pub struct Accelerator {
    pub modifiers: Option<Modifiers>,
    pub key: KeyCode,
}

/// The modifier a name stands for: `Cmd` super, `Ctrl` control, `Alt`, `Shift`, and
/// `CmdOrCtrl` super on macOS and control on Windows (unknown elsewhere).
pub open spec fn modifier_named(name: Seq<char>, os: TargetOs) -> Option<Modifiers> {
    let none = Modifiers { super_key: false, control: false, alt: false, shift: false };
    if name == "Cmd"@ {
        Some(Modifiers { super_key: true, ..none })
    } else if name == "Ctrl"@ {
        Some(Modifiers { control: true, ..none })
    } else if name == "Alt"@ {
        Some(Modifiers { alt: true, ..none })
    } else if name == "Shift"@ {
        Some(Modifiers { shift: true, ..none })
    } else if name == "CmdOrCtrl"@ && os == TargetOs::MacOs {
        Some(Modifiers { super_key: true, ..none })
    } else if name == "CmdOrCtrl"@ && os == TargetOs::Windows {
        Some(Modifiers { control: true, ..none })
    } else {
        None
    }
}

/// The key a name stands for: a capital letter, `-`, `+` (the numpad plus) or `=`.
pub open spec fn key_named(name: Seq<char>) -> Option<KeyCode> {
    if name.len() == 1 && 'A' <= name[0] <= 'Z' {
        Some(KeyCode::Letter(name[0]))
    } else if name == "-"@ {
        Some(KeyCode::Minus)
    } else if name == "+"@ {
        Some(KeyCode::NumpadAdd)
    } else if name == "="@ {
        Some(KeyCode::Equal)
    } else {
        None
    }
}

/// The union of two modifier sets.
pub open spec fn union_mods(a: Modifiers, b: Modifiers) -> Modifiers {
    Modifiers { super_key: a.super_key || b.super_key, control: a.control || b.control, alt: a.alt || b.alt, shift: a.shift || b.shift }
}

/// The modifiers named by the parts of a modifier list; unknown names add nothing.
pub open spec fn mods_of(parts: Seq<Seq<char>>, os: TargetOs) -> Modifiers
    decreases parts.len(),
{
    if parts.len() == 0 {
        Modifiers { super_key: false, control: false, alt: false, shift: false }
    } else {
        let acc = mods_of(parts.drop_last(), os);
        match modifier_named(parts.last(), os) {
            Some(m) => union_mods(acc, m),
            None => acc,
        }
    }
}

/// The shortcut a menu item's accelerator text describes. The text is cut at its last
/// `+`: what follows names the key, what precedes is a `+`-separated list of modifiers.
/// The cut is made where `str::rfind` reports it, a byte offset, used as a character
/// index. Without a `+` the whole text names the key and no modifiers are given. An
/// unknown key gives no shortcut.
pub open spec fn accelerator_of(acc: Seq<char>, os: TargetOs) -> Option<Accelerator> {
    if crate::text::contains_seq(acc, "+"@) {
        let pos = utf8_len(acc.take(last_index(acc, "+"@))) as int;
        let keystr = substring_of(acc, pos + 1, utf8_len(acc) as int);
        let modstr = substring_of(acc, 0, pos);
        match key_named(keystr) {
            Some(k) => Some(Accelerator { modifiers: Some(mods_of(split(modstr, '+'), os)), key: k }),
            None => None,
        }
    } else {
        match key_named(acc) {
            Some(k) => Some(Accelerator { modifiers: None, key: k }),
            None => None,
        }
    }
}

fn modifier_for(name: &Vec<char>, os: TargetOs) -> (r: Option<Modifiers>)
    ensures
        r == modifier_named(name@, os),
{
    let none = Modifiers { super_key: false, control: false, alt: false, shift: false };
    let s = string_of(name);
    if str_is(s.as_str(), "Cmd") {
        Some(Modifiers { super_key: true, ..none })
    } else if str_is(s.as_str(), "Ctrl") {
        Some(Modifiers { control: true, ..none })
    } else if str_is(s.as_str(), "Alt") {
        Some(Modifiers { alt: true, ..none })
    } else if str_is(s.as_str(), "Shift") {
        Some(Modifiers { shift: true, ..none })
    } else if str_is(s.as_str(), "CmdOrCtrl") && os == TargetOs::MacOs {
        Some(Modifiers { super_key: true, ..none })
    } else if str_is(s.as_str(), "CmdOrCtrl") && os == TargetOs::Windows {
        Some(Modifiers { control: true, ..none })
    } else {
        None
    }
}

fn key_for(name: &str) -> (r: Option<KeyCode>)
    ensures
        r == key_named(name@),
{
    let c = chars_of(name);
    if c.len() == 1 && 'A' <= c[0] && c[0] <= 'Z' {
        Some(KeyCode::Letter(c[0]))
    } else if str_is(name, "-") {
        Some(KeyCode::Minus)
    } else if str_is(name, "+") {
        Some(KeyCode::NumpadAdd)
    } else if str_is(name, "=") {
        Some(KeyCode::Equal)
    } else {
        None
    }
}

fn modifiers_for(parts: &Vec<Vec<char>>, os: TargetOs) -> (r: Modifiers)
    ensures
        r == mods_of(crate::text::views(parts@), os),
{
    let mut m = Modifiers { super_key: false, control: false, alt: false, shift: false };
    let mut i: usize = 0;
    assert(crate::text::views(parts@).take(0) =~= Seq::<Seq<char>>::empty());
    while i < parts.len()
        invariant
            i <= parts@.len(),
            m == mods_of(crate::text::views(parts@).take(i as int), os),
        decreases parts.len() - i,
    {
        assert(crate::text::views(parts@).take(i + 1).drop_last() =~= crate::text::views(parts@).take(i as int));
        assert(crate::text::views(parts@).take(i + 1).last() == parts@[i as int]@);
        match modifier_for(&parts[i], os) {
            Some(x) => {
                m = Modifiers {
                    super_key: m.super_key || x.super_key,
                    control: m.control || x.control,
                    alt: m.alt || x.alt,
                    shift: m.shift || x.shift,
                };
            },
            None => {},
        }
        i = i + 1;
    }
    assert(crate::text::views(parts@).take(parts.len() as int) =~= crate::text::views(parts@));
    m
}

fn accelerator_from(keystr: &str, modstr: &str, os: TargetOs) -> (r: Option<Accelerator>)
    ensures
        r == match key_named(keystr@) {
            Some(k) => Some(Accelerator { modifiers: Some(mods_of(split(modstr@, '+'), os)), key: k }),
            None => None,
        },
{
    match key_for(keystr) {
        Some(key) => {
            let mc = chars_of(modstr);
            let parts = split_chars(&mc, '+');
            let mods = modifiers_for(&parts, os);
            Some(Accelerator { modifiers: Some(mods), key })
        },
        None => None,
    }
}

/// The shortcut an accelerator text describes.
pub fn parse_accelerator(acc: &String, os: TargetOs) -> (r: Option<Accelerator>)
    ensures
        r == accelerator_of(acc@, os),
{
    let a = chars_of(acc.as_str());
    let plus = chars_of("+");
    match find_last(&a, &plus) {
        Some(k) => {
            let total = byte_len(acc.as_str());
            let pos = byte_offset(&a, k);
            proof {
                reveal_strlit("+");
                crate::text::lemma_prefix_bytes(a@, k as int);
            }
            let keystr = substring(acc.as_str(), pos + 1, total);
            let modstr = substring(acc.as_str(), 0, pos);
            accelerator_from(keystr, modstr, os)
        },
        None => match key_for(acc.as_str()) {
            Some(key) => Some(Accelerator { modifiers: None, key }),
            None => None,
        },
    }
}

/// A menu entry that the platform provides.
#[derive(Clone, Copy, Debug, PartialEq, Eq, Structural)]
pub enum PredefinedItem {
    Cut,
    Copy,
    Paste,
    Undo,
    Redo,
    Hide,
    HideOthers,
    BringAllToFront,
    CloseWindow,
}

/// What a menu item description becomes.
pub enum MenuItemKind {
    /// A submenu with this label; its entries come from the item's submenu.
    Submenu { label: String },
    /// A plain item that reports its id when chosen.
    Item { id: String, label: String, accelerator: Option<Accelerator> },
    Separator,
    Predefined { item: PredefinedItem },
    /// Nothing is shown.
    Skip,
}

/// The predefined entry a role names.
pub open spec fn predefined_role(role: Seq<char>) -> Option<PredefinedItem> {
    if role == "cut"@ {
        Some(PredefinedItem::Cut)
    } else if role == "copy"@ {
        Some(PredefinedItem::Copy)
    } else if role == "paste"@ {
        Some(PredefinedItem::Paste)
    } else if role == "undo"@ {
        Some(PredefinedItem::Undo)
    } else if role == "redo"@ {
        Some(PredefinedItem::Redo)
    } else if role == "hide"@ {
        Some(PredefinedItem::Hide)
    } else if role == "hideothers"@ {
        Some(PredefinedItem::HideOthers)
    } else if role == "unhide"@ {
        Some(PredefinedItem::BringAllToFront)
    } else if role == "close"@ {
        Some(PredefinedItem::CloseWindow)
    } else {
        None
    }
}

fn predefined_for(role: &str) -> (r: Option<PredefinedItem>)
    ensures
        r == predefined_role(role@),
{
    if str_is(role, "cut") {
        Some(PredefinedItem::Cut)
    } else if str_is(role, "copy") {
        Some(PredefinedItem::Copy)
    } else if str_is(role, "paste") {
        Some(PredefinedItem::Paste)
    } else if str_is(role, "undo") {
        Some(PredefinedItem::Undo)
    } else if str_is(role, "redo") {
        Some(PredefinedItem::Redo)
    } else if str_is(role, "hide") {
        Some(PredefinedItem::Hide)
    } else if str_is(role, "hideothers") {
        Some(PredefinedItem::HideOthers)
    } else if str_is(role, "unhide") {
        Some(PredefinedItem::BringAllToFront)
    } else if str_is(role, "close") {
        Some(PredefinedItem::CloseWindow)
    } else {
        None
    }
}

/// What a menu item description becomes. A labelled item is a submenu when it has one,
/// else a plain item with its id, label and shortcut. An unlabelled item is a separator
/// when its type says so (other types show nothing); else its role decides: `quit` is the
/// item `quit` labelled `Quit` (followed by the application name when there is one),
/// `toggleDevTools` the item `toggleDevTools` labelled `Toggle Developer Tools`, the
/// editing and window roles are the platform's entries, and anything else shows nothing.
pub fn menu_item_kind(item: &Menu, app_name: &Option<String>, os: TargetOs) -> (r: MenuItemKind)
    ensures
        match item.label {
            Some(l) => match item.submenu {
                Some(_) => r == (MenuItemKind::Submenu { label: l }),
                None => match r {
                    MenuItemKind::Item { id, label, accelerator } => id@ == item.id@ && label == l
                        && accelerator == match item.accelerator {
                            Some(a) => accelerator_of(a@, os),
                            None => None,
                        },
                    _ => false,
                },
            },
            None => match item.item_type {
                Some(t) => if t@ == "separator"@ { r is Separator } else { r is Skip },
                None => match item.role {
                    Some(role) => if role@ == "quit"@ {
                        match r {
                            MenuItemKind::Item { id, label, accelerator } => id@ == "quit"@
                                && label@ == "Quit"@ + match app_name {
                                    Some(n) => " "@ + n@,
                                    None => Seq::<char>::empty(),
                                }
                                && accelerator == match item.accelerator {
                                    Some(a) => accelerator_of(a@, os),
                                    None => None,
                                },
                            _ => false,
                        }
                    } else if role@ == "toggleDevTools"@ {
                        match r {
                            MenuItemKind::Item { id, label, accelerator } => id@ == "toggleDevTools"@
                                && label@ == "Toggle Developer Tools"@
                                && accelerator == match item.accelerator {
                                    Some(a) => accelerator_of(a@, os),
                                    None => None,
                                },
                            _ => false,
                        }
                    } else {
                        match predefined_role(role@) {
                            Some(p) => r == (MenuItemKind::Predefined { item: p }),
                            None => r is Skip,
                        }
                    },
                    None => r is Skip,
                },
            },
        },
{
    let accelerator = match &item.accelerator {
        Some(a) => parse_accelerator(a, os),
        None => None,
    };
    match &item.label {
        Some(l) => match &item.submenu {
            Some(_) => MenuItemKind::Submenu { label: l.clone() },
            None => MenuItemKind::Item { id: item.id.clone(), label: l.clone(), accelerator },
        },
        None => match &item.item_type {
            Some(t) => if str_is(t.as_str(), "separator") {
                MenuItemKind::Separator
            } else {
                MenuItemKind::Skip
            },
            None => match &item.role {
                Some(role) => if str_is(role.as_str(), "quit") {
                    let mut label: Vec<char> = Vec::new();
                    push_str(&mut label, "Quit");
                    match app_name {
                        Some(n) => {
                            let ghost before = label@;
                            push_str(&mut label, " ");
                            push_str(&mut label, n.as_str());
                            assert(label@ =~= before + (" "@ + n@));
                        },
                        None => {
                            assert(label@ + Seq::<char>::empty() =~= label@);
                        },
                    }
                    MenuItemKind::Item { id: "quit".to_owned(), label: string_of(&label), accelerator }
                } else if str_is(role.as_str(), "toggleDevTools") {
                    MenuItemKind::Item {
                        id: "toggleDevTools".to_owned(),
                        label: "Toggle Developer Tools".to_owned(),
                        accelerator,
                    }
                } else {
                    match predefined_for(role.as_str()) {
                        Some(p) => MenuItemKind::Predefined { item: p },
                        None => MenuItemKind::Skip,
                    }
                },
                None => MenuItemKind::Skip,
            },
        },
    }
}

/// The label of a top level menu: its own, or empty.
pub fn app_menu_label(label: &Option<String>) -> (r: String)
    ensures
        r@ == match label {
            Some(l) => l@,
            None => Seq::<char>::empty(),
        },
{
    match label {
        Some(l) => l.clone(),
        None => String::new(),
    }
}

} // verus!

verus! {

/// Every capital letter on its own is a shortcut of that letter key, with no modifiers
/// given.
pub proof fn law_capital_letter_is_key(c: char, os: TargetOs)
    requires
        'A' <= c <= 'Z',
    ensures
        accelerator_of(seq![c], os) == Some(Accelerator { modifiers: None, key: KeyCode::Letter(c) }),
{
    assert forall|i: int| !crate::text::occurs_at(seq![c], "+"@, i) by {
        reveal_strlit("+");
        if crate::text::occurs_at(seq![c], "+"@, i) {
            assert(seq![c].subrange(i, i + 1)[0] == seq![c][i]);
        }
    }
}

/// A capital letter after a plain-text (ASCII) list of modifiers and a `+` is a shortcut of
/// that letter key, with the modifiers the list names.
pub proof fn law_modified_capital_letter_is_key(m: Seq<char>, c: char, os: TargetOs)
    requires
        'A' <= c <= 'Z',
        forall|i: int| 0 <= i < m.len() ==> (#[trigger] m[i] as u32) < 0x80,
    ensures
        accelerator_of(m + seq!['+', c], os) == Some(Accelerator {
            modifiers: Some(mods_of(split(m, '+'), os)),
            key: KeyCode::Letter(c),
        }),
{
    reveal_strlit("+");
    let s = m + seq!['+', c];
    let k = m.len() as int;
    assert(s.subrange(k, k + 1) =~= "+"@);
    assert(crate::text::occurs_at(s, "+"@, k));
    assert forall|j: int| k < j implies !crate::text::occurs_at(s, "+"@, j) by {
        if crate::text::occurs_at(s, "+"@, j) {
            assert(s.subrange(j, j + 1)[0] == s[j]);
        }
    }
    crate::text::lemma_last_index_at(s, "+"@, k);
    assert(s.take(k) =~= m);
    crate::text::lemma_ascii_utf8_len(m);
    crate::text::lemma_utf8_len_at_least_len(s);
    assert(s.subrange(k + 1, s.len() as int) =~= seq![c]);
    assert(crate::text::substring_of(s, k + 1, utf8_len(s) as int) =~= seq![c]);
    if k > 0 {
        assert(crate::text::substring_of(s, 0, k) =~= m);
    } else {
        assert(m =~= Seq::<char>::empty());
    }
    assert(crate::text::substring_of(s, 0, k) == m);
}

} // verus!

verus! {

/// `CmdOrCtrl` as the modifier list stands for the command key on macOS, the control key on
/// Windows, and nothing elsewhere.
pub proof fn law_cmd_or_ctrl(os: TargetOs)
    ensures
        mods_of(split("CmdOrCtrl"@, '+'), os) == (Modifiers {
            super_key: os == TargetOs::MacOs,
            control: os == TargetOs::Windows,
            alt: false,
            shift: false,
        }),
{
    reveal_strlit("CmdOrCtrl");
    reveal_strlit("Cmd");
    reveal_strlit("Ctrl");
    reveal_strlit("Alt");
    reveal_strlit("Shift");
    let m = "CmdOrCtrl"@;
    assert(crate::text::lacks(m, '+'));
    crate::text::lemma_split_without_sep(m, '+');
    assert(seq![m].drop_last() =~= Seq::<Seq<char>>::empty());
    assert(m != "Cmd"@ && m != "Ctrl"@ && m != "Alt"@ && m != "Shift"@) by {
        assert(m.len() != "Cmd"@.len() && m.len() != "Ctrl"@.len() && m.len() != "Alt"@.len());
        assert(m.len() != "Shift"@.len());
    }
    let parts = split(m, '+');
    assert(parts == seq![m]);
    assert(parts.last() == m);
    assert(parts.drop_last() =~= Seq::<Seq<char>>::empty());
    let none = Modifiers { super_key: false, control: false, alt: false, shift: false };
    assert(mods_of(parts.drop_last(), os) == none);
    match os {
        TargetOs::MacOs => assert(modifier_named(m, os) == Some(Modifiers { super_key: true, ..none })),
        TargetOs::Windows => assert(modifier_named(m, os) == Some(Modifiers { control: true, ..none })),
        TargetOs::Other => assert(modifier_named(m, os) is None),
    }
}

} // verus!
