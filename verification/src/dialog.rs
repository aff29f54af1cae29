use vstd::prelude::*;
use crate::electron_api_types::{FileDialogOptions, FileFilter, ShowMessageBoxOptions};
use crate::text::{chars_eq, chars_of, push_str, str_is, string_of};

verus! {

/// What a file dialog lets the user pick.
#[derive(Clone, Copy, Debug, PartialEq, Eq, Structural)]
pub enum PickKind {
    File,
    Files,
    Folder,
    Folders,
    Save,
}

/// A file dialog to show: its filters, title, starting directory, whether it may create
/// directories, and what it picks.
pub struct FileDialogPlan {
    pub filters: Vec<FileFilter>,
    pub title: Option<String>,
    pub directory: Option<String>,
    pub can_create_directories: bool,
    pub pick: PickKind,
}

/// The views of a sequence of strings.
pub open spec fn views(v: Seq<String>) -> Seq<Seq<char>> {
    v.map_values(|s: String| s@)
}

/// Whether a property list names `p`.
pub open spec fn has_property(props: Seq<String>, p: Seq<char>) -> bool {
    views(props).contains(p)
}

/// Whether a property list names `p`.
pub fn property_set(props: &Vec<String>, p: &str) -> (r: bool)
    ensures
        r == has_property(props@, p@),
{
    let pc = chars_of(p);
    let mut i: usize = 0;
    while i < props.len()
        invariant
            i <= props@.len(),
            pc@ == p@,
            forall|j: int| 0 <= j < i ==> props@[j]@ != p@,
        decreases props.len() - i,
    {
        let c = chars_of(props[i].as_str());
        if chars_eq(&c, &pc) {
            assert(views(props@)[i as int] == p@);
            return true;
        }
        i = i + 1;
    }
    assert(!views(props@).contains(p@)) by {
        if views(props@).contains(p@) {
            let j = choose|j: int| 0 <= j < views(props@).len() && views(props@)[j] == p@;
            assert(props@[j]@ == p@);
        }
    }
    false
}

/// What an open dialog picks for a property list: files or folders as `openFile` or
/// `openDirectory` asks (`openFile` first), several with `multiSelections`; nothing when
/// neither is asked.
pub open spec fn open_pick(props: Seq<String>) -> Option<PickKind> {
    let multi = has_property(props, "multiSelections"@);
    if has_property(props, "openFile"@) {
        Some(if multi { PickKind::Files } else { PickKind::File })
    } else if has_property(props, "openDirectory"@) {
        Some(if multi { PickKind::Folders } else { PickKind::Folder })
    } else {
        None
    }
}

fn plan_with(options: FileDialogOptions, can_create: bool, pick: PickKind) -> (r: FileDialogPlan)
    ensures
        r.filters@ == match options.filters {
            Some(f) => f@,
            None => Seq::<FileFilter>::empty(),
        },
        r.title == options.title,
        r.directory == options.default_path,
        r.can_create_directories == can_create,
        r.pick == pick,
{
    let filters = match options.filters {
        Some(f) => f,
        None => Vec::new(),
    };
    FileDialogPlan { filters, title: options.title, directory: options.default_path, can_create_directories: can_create, pick }
}

/// The dialog an open request shows: none without a property list or when it asks for
/// neither files nor folders; else one with the request's filters, title and starting
/// directory, able to create directories when `createDirectory` is set.
pub fn open_dialog_plan(options: FileDialogOptions) -> (r: Option<FileDialogPlan>)
    ensures
        match options.properties {
            None => r is None,
            Some(props) => match open_pick(props@) {
                None => r is None,
                Some(k) => match r {
                    Some(p) => p.pick == k && p.title == options.title && p.directory == options.default_path
                        && p.can_create_directories == has_property(props@, "createDirectory"@)
                        && p.filters@ == match options.filters {
                            Some(f) => f@,
                            None => Seq::<FileFilter>::empty(),
                        },
                    None => false,
                },
            },
        },
{
    let props = match &options.properties {
        Some(p) => p,
        None => {
            return None;
        },
    };
    let create = property_set(props, "createDirectory");
    let multi = property_set(props, "multiSelections");
    let pick = if property_set(props, "openFile") {
        if multi { PickKind::Files } else { PickKind::File }
    } else if property_set(props, "openDirectory") {
        if multi { PickKind::Folders } else { PickKind::Folder }
    } else {
        return None;
    };
    Some(plan_with(options, create, pick))
}

/// The dialog a blocking save request shows: none without a property list.
pub fn save_dialog_sync_plan(options: FileDialogOptions) -> (r: Option<FileDialogPlan>)
    ensures
        match options.properties {
            None => r is None,
            Some(props) => match r {
                Some(p) => p.pick == PickKind::Save && p.title == options.title && p.directory == options.default_path
                    && p.can_create_directories == has_property(props@, "createDirectory"@)
                    && p.filters@ == match options.filters {
                        Some(f) => f@,
                        None => Seq::<FileFilter>::empty(),
                    },
                None => false,
            },
        },
{
    let create = match &options.properties {
        Some(p) => property_set(p, "createDirectory"),
        None => {
            return None;
        },
    };
    Some(plan_with(options, create, PickKind::Save))
}

/// The dialog a save request shows: always one, able to create directories when the
/// property list has `createDirectory`.
pub fn save_dialog_plan(options: FileDialogOptions) -> (r: FileDialogPlan)
    ensures
        r.pick == PickKind::Save,
        r.title == options.title,
        r.directory == options.default_path,
        r.can_create_directories == match options.properties {
            Some(props) => has_property(props@, "createDirectory"@),
            None => false,
        },
        r.filters@ == match options.filters {
            Some(f) => f@,
            None => Seq::<FileFilter>::empty(),
        },
{
    let create = match &options.properties {
        Some(p) => property_set(p, "createDirectory"),
        None => false,
    };
    plan_with(options, create, PickKind::Save)
}

/// The level of a message box.
#[derive(Clone, Copy, Debug, PartialEq, Eq, Structural)]
pub enum MessageLevel {
    Default,
    Info,
    Error,
}

/// A message box to show.
pub struct MessageBoxPlan {
    pub description: String,
    pub title: Option<String>,
    pub level: MessageLevel,
}

/// The message box for a request: the message, with ` - <detail>` after it when there
/// is a detail; level `error` or `info` as the type says, else the default.
pub fn message_box_plan(options: ShowMessageBoxOptions) -> (r: MessageBoxPlan)
    ensures
        r.description@ == options.message@ + match options.detail {
            Some(d) => " - "@ + d@,
            None => Seq::<char>::empty(),
        },
        r.title == options.title,
        r.level == match options.msg_type {
            Some(t) => if t@ == "error"@ {
                MessageLevel::Error
            } else if t@ == "info"@ {
                MessageLevel::Info
            } else {
                MessageLevel::Default
            },
            None => MessageLevel::Default,
        },
{
    let mut desc = chars_of(options.message.as_str());
    match &options.detail {
        Some(d) => {
            let ghost before = desc@;
            push_str(&mut desc, " - ");
            push_str(&mut desc, d.as_str());
            assert(desc@ =~= before + (" - "@ + d@));
        },
        None => {
            assert(desc@ + Seq::<char>::empty() =~= desc@);
        },
    }
    let level = match &options.msg_type {
        Some(t) => if str_is(t.as_str(), "error") {
            MessageLevel::Error
        } else if str_is(t.as_str(), "info") {
            MessageLevel::Info
        } else {
            MessageLevel::Default
        },
        None => MessageLevel::Default,
    };
    MessageBoxPlan { description: string_of(&desc), title: options.title, level }
}

} // verus!
