use vstd::prelude::*;

verus! {

pub struct BrowserWindowLoadFileParamConfigWebPreferences {
    pub preload: Option<String>,
    pub node_integration: bool,
    pub context_isolation: bool,
    pub additional_arguments: Option<Vec<String>>,
}

pub struct BrowserWindowLoadFileParamConfig {
    pub title: String,
    pub x: Option<i32>,
    pub y: Option<i32>,
    pub width: Option<i32>,
    pub height: Option<i32>,
    pub resizable: bool,
    pub modal: bool,
    pub show: bool,
    pub icon: Option<String>,
    pub web_preferences: BrowserWindowLoadFileParamConfigWebPreferences,
}

pub struct BrowserWindowCreateParam {
    pub id: String,
    pub config: BrowserWindowLoadFileParamConfig,
}

pub struct BrowserWindowLoadFileParam {
    pub id: String,
    pub file: String,
    pub config: BrowserWindowLoadFileParamConfig,
}

#[derive(Debug)]
pub enum BrowserWindowDevToolsCall {
    Open,
    Close,
}

pub struct BrowserWindowDevToolsParam {
    pub id: String,
    pub call: BrowserWindowDevToolsCall,
}

/// A menu entry as the application describes it.
pub struct Menu {
    pub id: String,
    pub label: Option<String>,
    pub accelerator: Option<String>,
    pub role: Option<String>,
    pub item_type: Option<String>,
    pub submenu: Option<Vec<Menu>>,
}

/// A top level menu.
pub struct AppMenu {
    pub id: String,
    pub label: Option<String>,
    pub submenu: Vec<Menu>,
}

/// A rectangle on the screen.
#[derive(Clone, Copy, Debug, PartialEq, Eq, Structural)]
pub struct Rectangle {
    pub x: i32,
    pub y: i32,
    pub width: u32,
    pub height: u32,
}

impl Rectangle {
    pub fn new(x: i32, y: i32, width: u32, height: u32) -> (r: Rectangle)
        ensures
            r == (Rectangle { x, y, width, height }),
    {
        Rectangle { x, y, width, height }
    }
}

/// A display and its bounds.
pub struct Display {
    pub bounds: Rectangle,
}

impl Display {
    pub fn new(bounds: Rectangle) -> (r: Display)
        ensures
            r.bounds == bounds,
    {
        Display { bounds }
    }
}

pub enum BrowserWindowBoundsAction {
    SetTo { bounds: Rectangle },
    Get,
}

pub enum BrowserWindowMaximizedAction {
    SetTo { maximized: bool },
    Get,
}

pub enum BrowserWindowMinimizedAction {
    SetTo { minimized: bool },
    Get,
}

/// A command of the electron api.
pub enum ElectronCommand {
    BrowserWindowCreate { params: BrowserWindowCreateParam },
    BrowserWindowLoadfile { params: BrowserWindowLoadFileParam },
    BrowserWindowSetTitle { id: String, title: String },
    BrowserWindowGetTitle { id: String },
    BrowserWindowShow { id: String, shown: bool },
    BrowserWindowClose { id: String },
    BrowserWindowBounds { id: String, params: BrowserWindowBoundsAction },
    BrowserWindowMaximized { id: String, params: BrowserWindowMaximizedAction },
    BrowserWindowMinimized { id: String, params: BrowserWindowMinimizedAction },
    BrowserWindowDevTools { params: BrowserWindowDevToolsParam },
    ChannelSendMessage { id: String, rid: String, channel: String, args: String },
    ExecuteJavascript { id: String, script: String },
    AppQuit { exit: bool },
    AppSetName { name: String },
    GetAppPath { path: Option<String> },
    GetAppVersion,
    SetApplicationMenu { menu: Option<Vec<AppMenu>> },
    GetPrimaryDisplay,
    ShellOpenExternal { url: String },
    PrintToPDF { id: String },
    RegisterFileProtocol { schema: String },
    Api { data: String },
}

} // verus!
