use vstd::prelude::*;

verus! {

/// A command of the electron apis.
pub enum APICommand {
    Dialog { command: DialogCommand },
}

/// A dialog request.
pub enum DialogCommand {
    ShowOpenDialogSync { options: FileDialogOptions },
    ShowOpenDialog { window_id: Option<String>, options: FileDialogOptions },
    ShowSaveDialogSync { options: FileDialogOptions },
    ShowSaveDialog { window_id: Option<String>, options: FileDialogOptions },
    ShowMessageBoxSync { options: ShowMessageBoxOptions },
}

/// The options of a file dialog.
pub struct FileDialogOptions {
    pub title: Option<String>,
    pub default_path: Option<String>,
    pub button_label: Option<String>,
    pub filters: Option<Vec<FileFilter>>,
    pub properties: Option<Vec<String>>,
    pub message: Option<String>,
}

/// The options of a message box.
pub struct ShowMessageBoxOptions {
    pub message: String,
    pub msg_type: Option<String>,
    pub title: Option<String>,
    pub detail: Option<String>,
}

impl ShowMessageBoxOptions {
    /// A message box with only a message.
    pub fn new(message: String) -> (r: ShowMessageBoxOptions)
        ensures
            r.message == message,
            r.msg_type is None,
            r.title is None,
            r.detail is None,
    {
        ShowMessageBoxOptions { message, msg_type: None, title: None, detail: None }
    }
}

/// A named set of file extensions.
pub struct FileFilter {
    pub name: String,
    pub extensions: Vec<String>,
}

} // verus!
