use vstd::prelude::*;
use crate::text::{debug_quote, debug_quoted};

verus! {

/// The configuration form: the backup kind, the file extension, and the
/// two folders.
pub struct ConfigApp {
    /// Back up the whole folder (otherwise only the files of one extension).
    pub use_full_folder: bool,
    /// The extension of the files to back up.
    pub selected_extension: String,
    /// The folder to back up.
    pub input_path: String,
    /// The folder to back up into.
    pub output_path: String,
}

impl Default for ConfigApp {
    fn default() -> (r: Self)
        ensures
            !r.use_full_folder,
            r.selected_extension@ == "txt"@,
            r.input_path@ == Seq::<char>::empty(),
            r.output_path@ == Seq::<char>::empty(),
    {
        ConfigApp {
            use_full_folder: false,
            selected_extension: String::from_str("txt"),
            input_path: String::new(),
            output_path: String::new(),
        }
    }
}

/// Why a configuration is refused.
#[derive(Clone, Copy, Debug, PartialEq, Eq, Structural)]
pub enum ConfigError {
    /// The input or the output folder is missing.
    MissingPaths,
}

impl ConfigError {
    /// The message that reports the refusal.
    pub fn message(&self) -> (s: String)
        ensures
            s@ == "Please select both input and output paths."@,
    {
        String::from_str("Please select both input and output paths.")
    }
}

/// Both folders of a configuration are given. The form saves exactly the
/// configurations whose folders are given, and the program accepts exactly
/// those.
pub open spec fn paths_given(input_path: Seq<char>, output_path: Seq<char>) -> bool {
    input_path.len() > 0 && output_path.len() > 0
}

/// Checks that both folders of a configuration are given.
pub fn verify_paths(input_path: &str, output_path: &str) -> (r: Result<(), ConfigError>)
    ensures
        r is Ok <==> paths_given(input_path@, output_path@),
        r is Err ==> r == Err::<(), ConfigError>(ConfigError::MissingPaths),
{
    if input_path.is_empty() || output_path.is_empty() {
        return Err(ConfigError::MissingPaths);
    }
    Ok(())
}

/// Start of a configuration file for a whole-folder backup, up to the
/// input folder.
pub const FULL_FOLDER_HEAD: &'static str = "\n            backup_type = \"FullFolder\"\n            input_path = ";

/// Start of a configuration file for a one-extension backup, up to the
/// extension.
pub const FILE_TYPE_HEAD: &'static str = "\n            backup_type = \"FileType\"\n            extension = ";

/// The key of the input folder, on a line of its own.
pub const INPUT_KEY: &'static str = "\n            input_path = ";

/// The key of the output folder, on a line of its own.
pub const OUTPUT_KEY: &'static str = "\n            output_path = ";

/// End of a configuration file.
pub const CONFIG_TAIL: &'static str = "\n            ";

/// The configuration file's text, the values already written as quoted
/// strings.
pub open spec fn config_text_of(
    use_full_folder: bool,
    extension: Seq<char>,
    input_path: Seq<char>,
    output_path: Seq<char>,
) -> Seq<char> {
    if use_full_folder {
        FULL_FOLDER_HEAD@ + input_path + OUTPUT_KEY@ + output_path + CONFIG_TAIL@
    } else {
        FILE_TYPE_HEAD@ + extension + INPUT_KEY@ + input_path + OUTPUT_KEY@ + output_path + CONFIG_TAIL@
    }
}

/// Lays out the configuration file from values already written as quoted
/// strings: the backup kind, then (for a one-extension backup) the
/// extension, then the two folders.
pub fn config_text(
    use_full_folder: bool,
    quoted_extension: &str,
    quoted_input: &str,
    quoted_output: &str,
) -> (s: String)
    ensures
        s@ == config_text_of(use_full_folder, quoted_extension@, quoted_input@, quoted_output@),
{
    let mut s;
    if use_full_folder {
        s = String::from_str(FULL_FOLDER_HEAD);
    } else {
        s = String::from_str(FILE_TYPE_HEAD);
        s.append(quoted_extension);
        s.append(INPUT_KEY);
    }
    s.append(quoted_input);
    s.append(OUTPUT_KEY);
    s.append(quoted_output);
    s.append(CONFIG_TAIL);
    s
}

/// The text of the configuration file for the given choices, each value
/// written as a quoted string the way `Debug` writes it.
pub fn config_file_contents(
    use_full_folder: bool,
    extension: &str,
    input_path: &str,
    output_path: &str,
) -> (s: String)
    ensures
        s@ == config_text_of(
            use_full_folder,
            debug_quoted(extension@),
            debug_quoted(input_path@),
            debug_quoted(output_path@),
        ),
{
    let qi = debug_quote(input_path);
    let qo = debug_quote(output_path);
    if use_full_folder {
        config_text(true, "", qi.as_str(), qo.as_str())
    } else {
        let qe = debug_quote(extension);
        config_text(false, qe.as_str(), qi.as_str(), qo.as_str())
    }
}

impl ConfigApp {
    /// What saving the form writes to the configuration file: nothing while
    /// a folder is missing, else the configuration file's text.
    pub fn config_to_save(&self) -> (r: Option<String>)
        ensures
            r is Some <==> paths_given(self.input_path@, self.output_path@),
            r matches Some(s) ==> s@ == config_text_of(
                self.use_full_folder,
                debug_quoted(self.selected_extension@),
                debug_quoted(self.input_path@),
                debug_quoted(self.output_path@),
            ),
    {
        if self.input_path.as_str().is_empty() || self.output_path.as_str().is_empty() {
            None
        } else {
            Some(config_file_contents(
                self.use_full_folder,
                self.selected_extension.as_str(),
                self.input_path.as_str(),
                self.output_path.as_str(),
            ))
        }
    }
}

/// The executable's path in double quotes, as the autorun entry holds it.
pub fn quoted_exe_path(exe_path: &str) -> (s: String)
    ensures
        s@ == "\""@ + exe_path@ + "\""@,
{
    let mut s = String::from_str("\"");
    s.append(exe_path);
    s.append("\"");
    s
}

/// Whether an existing autorun entry already holds the wanted command (an
/// entry that could not be read does not).
pub fn autorun_up_to_date(existing: Option<&str>, wanted: &str) -> (b: bool)
    ensures
        b <==> (existing matches Some(e) && e@ == wanted@),
{
    match existing {
        Some(e) => String::from_str(e) == String::from_str(wanted),
        None => false,
    }
}

/// Start of the desktop autostart entry, up to the command.
pub const DESKTOP_HEAD: &'static str = "[Desktop Entry]\n            Type=Application\n            Name=Backup\n            Exec=";

/// End of the desktop autostart entry, after the command.
pub const DESKTOP_TAIL: &'static str = "\n            X-GNOME-Autostart-enabled=true\n            ";

/// The desktop autostart entry that starts the executable at login.
pub fn desktop_entry_contents(exe_path: &str) -> (s: String)
    ensures
        s@ == DESKTOP_HEAD@ + exe_path@ + DESKTOP_TAIL@,
{
    let mut s = String::from_str(DESKTOP_HEAD);
    s.append(exe_path);
    s.append(DESKTOP_TAIL);
    s
}

/// Start of the launch agent property list, up to the program path.
pub const PLIST_HEAD: &'static str = "<?xml version=\"1.0\" encoding=\"UTF-8\"?>\n        <!DOCTYPE plist PUBLIC \"-//Apple//DTD PLIST 1.0//EN\" \"http://www.apple.com/DTDs/PropertyList-1.0.dtd\">\n        <plist version=\"1.0\">\n        <dict>\n            <key>Label</key>\n            <string>com.example.backup</string>\n            <key>ProgramArguments</key>\n            <array>\n                <string>";

/// End of the launch agent property list, after the program path.
pub const PLIST_TAIL: &'static str = "</string>\n            </array>\n            <key>RunAtLoad</key>\n            <true/>\n        </dict>\n        </plist>";

/// The launch agent property list that starts the executable at login.
pub fn launch_agent_plist(exe_path: &str) -> (s: String)
    ensures
        s@ == PLIST_HEAD@ + exe_path@ + PLIST_TAIL@,
{
    let mut s = String::from_str(PLIST_HEAD);
    s.append(exe_path);
    s.append(PLIST_TAIL);
    s
}

} // verus!
