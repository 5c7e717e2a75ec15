//! From the primary application to the status line.

use crate::enrichment::FileInfo;
use crate::text::{starts_with, starts_with_spec};
use crate::watch::RunningApp;
use vstd::prelude::*;
use vstd::string::StringExecFns;

verus! {

/// The published status.
#[derive(Debug)]
pub struct OutputData {
    pub text: String,
}

impl View for OutputData {
    type V = Seq<char>;

    open spec fn view(&self) -> Seq<char> {
        self.text@
    }
}

impl Clone for OutputData {
    fn clone(&self) -> (r: Self)
        ensures
            r == *self,
    {
        OutputData { text: self.text.clone() }
    }
}

/// An application whose status line can name the file that is open in it.
pub open spec fn is_enrichable_spec(name: Seq<char>) -> bool {
    starts_with_spec(name, "code"@)
}

/// The status line for an application, given the name of the file open in it
/// where that is known. The first row whose prefix the name starts with
/// decides; a name that no row knows is shown as it is.
pub open spec fn app_text_spec(name: Seq<char>, file_name: Option<Seq<char>>) -> Seq<char> {
    if starts_with_spec(name, "code"@) {
        match file_name {
            Some(file) => "editing "@ + file + " in Visual Studio Code"@,
            None => "VS Code"@,
        }
    } else if starts_with_spec(name, "zen"@) {
        "browsing with Zen browser"@
    } else if starts_with_spec(name, "chrome"@) {
        "probably on her work account on Chrome"@
    } else if starts_with_spec(name, "discord"@) {
        "yapping on Discord"@
    } else if starts_with_spec(name, "steam"@) {
        "gaming on Steam"@
    } else if starts_with_spec(name, "vlc"@) {
        "watching a movie (will probably log it in letterboxd/bilgi42"@
    } else if starts_with_spec(name, "stremio"@) {
        "legally streaming some content in stremio"@
    } else if starts_with_spec(name, "ghostty"@) {
        "using the best terminal emulator (ghostty)"@
    } else {
        name
    }
}

/// The status line for the primary application, or the idle line where
/// nothing that is watched runs.
pub open spec fn status_text_spec(
    primary: Option<(Seq<char>, u32)>,
    file_name: Option<Seq<char>>,
) -> Seq<char> {
    match primary {
        Some(app) => app_text_spec(app.0, file_name),
        None => "idle"@,
    }
}

/// The file name of a record, as a character sequence.
pub open spec fn file_name_view(info: Option<&FileInfo>) -> Option<Seq<char>> {
    match info {
        Some(i) => Some(i.file_name@),
        None => None,
    }
}

/// Tells whether the application is the editor that reports its open file.
pub fn is_enrichable(app: &RunningApp) -> (r: bool)
    ensures
        r == is_enrichable_spec(app.name@),
{
    starts_with(app.name.as_str(), "code")
}

/// Tells whether the editor is among the detected applications.
pub fn is_vscode_running(apps: &[RunningApp]) -> (r: bool)
    ensures
        r == exists|i: int| 0 <= i < apps@.len() && is_enrichable_spec(#[trigger] apps@[i].name@),
{
    let mut i: usize = 0;
    while i < apps.len()
        invariant
            i <= apps.len(),
            forall|j: int| 0 <= j < i ==> !is_enrichable_spec(#[trigger] apps@[j].name@),
        decreases apps.len() - i,
    {
        if is_enrichable(&apps[i]) {
            return true;
        }
        i += 1;
    }
    false
}

/// Renders the status line of one application.
pub fn generate_app_text(app: &RunningApp, vscode_file_info: Option<&FileInfo>) -> (text: String)
    ensures
        text@ == app_text_spec(app.name@, file_name_view(vscode_file_info)),
{
    let name = app.name.as_str();
    if starts_with(name, "code") {
        match vscode_file_info {
            Some(file_info) => String::from_str("editing ").concat(
                file_info.file_name.as_str(),
            ).concat(" in Visual Studio Code"),
            None => String::from_str("VS Code"),
        }
    } else if starts_with(name, "zen") {
        String::from_str("browsing with Zen browser")
    } else if starts_with(name, "chrome") {
        String::from_str("probably on her work account on Chrome")
    } else if starts_with(name, "discord") {
        String::from_str("yapping on Discord")
    } else if starts_with(name, "steam") {
        String::from_str("gaming on Steam")
    } else if starts_with(name, "vlc") {
        String::from_str("watching a movie (will probably log it in letterboxd/bilgi42")
    } else if starts_with(name, "stremio") {
        String::from_str("legally streaming some content in stremio")
    } else if starts_with(name, "ghostty") {
        String::from_str("using the best terminal emulator (ghostty)")
    } else {
        app.name.clone()
    }
}

/// Renders the status line of a tick: that of the primary application, or
/// `idle` where there is none.
pub fn render_status(primary: Option<&RunningApp>, info: Option<&FileInfo>) -> (text: String)
    ensures
        text@ == status_text_spec(
            match primary {
                Some(app) => Some(app@),
                None => None,
            },
            file_name_view(info),
        ),
{
    match primary {
        Some(app) => generate_app_text(app, info),
        None => String::from_str("idle"),
    }
}

} // verus!
