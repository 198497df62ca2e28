use group29_backup::config::{
    autorun_up_to_date, config_file_contents, config_text, desktop_entry_contents, launch_agent_plist,
    quoted_exe_path, verify_paths, ConfigApp, ConfigError,
};

fn reference_config(use_full_folder: bool, extension: &str, input_path: &str, output_path: &str) -> String {
    if use_full_folder {
        format!(
            r#"
            backup_type = "FullFolder"
            input_path = {:?}
            output_path = {:?}
            "#,
            input_path, output_path
        )
    } else {
        format!(
            r#"
            backup_type = "FileType"
            extension = {:?}
            input_path = {:?}
            output_path = {:?}
            "#,
            extension, input_path, output_path
        )
    }
}

#[test]
fn default_form() {
    let app = ConfigApp::default();
    assert!(!app.use_full_folder);
    assert_eq!(app.selected_extension, "txt");
    assert_eq!(app.input_path, "");
    assert_eq!(app.output_path, "");
    assert!(app.config_to_save().is_none());
}

#[test]
fn paths_must_both_be_given() {
    assert_eq!(verify_paths("", "/b"), Err(ConfigError::MissingPaths));
    assert_eq!(verify_paths("/a", ""), Err(ConfigError::MissingPaths));
    assert_eq!(verify_paths("", ""), Err(ConfigError::MissingPaths));
    assert_eq!(verify_paths("/a", "/b"), Ok(()));
    assert_eq!(ConfigError::MissingPaths.message(), "Please select both input and output paths.");
}

#[test]
fn config_file_matches_the_layout() {
    for full in [true, false] {
        for (e, i, o) in [
            ("txt", "/home/u/docs", "/mnt/backup"),
            ("toml", "C:\\Users\\u", "D:\\a \"quoted\" dir"),
            ("txt", "tab\there", "new\nline"),
        ] {
            assert_eq!(config_file_contents(full, e, i, o), reference_config(full, e, i, o));
        }
    }
}

#[test]
fn config_values_are_quoted() {
    let s = config_file_contents(false, "txt", "/a", "/b");
    assert!(s.contains("extension = \"txt\""));
    assert!(s.contains("input_path = \"/a\""));
    assert!(!s.contains("input_path = /a"));
    assert_eq!(config_text(true, "", "\"x\"", "\"y\""), reference_config(true, "", "x", "y"));
}

#[test]
fn saving_the_form() {
    let mut app = ConfigApp::default();
    app.input_path = "/src".to_string();
    assert!(app.config_to_save().is_none());
    app.output_path = "/dst".to_string();
    assert_eq!(app.config_to_save(), Some(reference_config(false, "txt", "/src", "/dst")));
    app.use_full_folder = true;
    app.selected_extension = "toml".to_string();
    assert_eq!(app.config_to_save(), Some(reference_config(true, "toml", "/src", "/dst")));
}

#[test]
fn autorun_entries() {
    let exe = "/opt/backup/bin/backup";
    let quoted = quoted_exe_path(exe);
    assert_eq!(quoted, format!("\"{}\"", exe));
    assert!(autorun_up_to_date(Some(&quoted), &quoted));
    assert!(!autorun_up_to_date(Some(exe), &quoted));
    assert!(!autorun_up_to_date(None, &quoted));
    assert_eq!(
        desktop_entry_contents(exe),
        format!(
            "[Desktop Entry]
            Type=Application
            Name=Backup
            Exec={}
            X-GNOME-Autostart-enabled=true
            ",
            exe
        )
    );
    assert_eq!(
        launch_agent_plist(exe),
        format!(
            "<?xml version=\"1.0\" encoding=\"UTF-8\"?>
        <!DOCTYPE plist PUBLIC \"-//Apple//DTD PLIST 1.0//EN\" \"http://www.apple.com/DTDs/PropertyList-1.0.dtd\">
        <plist version=\"1.0\">
        <dict>
            <key>Label</key>
            <string>com.example.backup</string>
            <key>ProgramArguments</key>
            <array>
                <string>{}</string>
            </array>
            <key>RunAtLoad</key>
            <true/>
        </dict>
        </plist>",
            exe
        )
    );
}
