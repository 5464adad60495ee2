use tagmv::install::{
    dolphin_desktop, home_dir, in_build_dir, install_quick_action, linux_paths,
    macos_document_wflow, macos_info_plist, macos_workflow_dir, nautilus_script, nemo_action,
    shell_escape, uninstall_quick_action, warn_if_build_dir, windows_command_value, xml_escape,
    InstallError, InstallStep, Platform, INFO_PLIST, MENU_LABEL, WORKFLOW_HEAD, WORKFLOW_TAIL,
};

#[test]
fn xml_escape_special_chars() {
    assert_eq!(xml_escape("a&b"), "a&amp;b");
    assert_eq!(xml_escape("a<b>c"), "a&lt;b&gt;c");
    assert_eq!(xml_escape("a\"b'c"), "a&quot;b&apos;c");
    assert_eq!(xml_escape("normal"), "normal");
}

#[test]
fn shell_escape_simple_path() {
    assert_eq!(shell_escape("/usr/local/bin/tagmv"), "'/usr/local/bin/tagmv'");
}

#[test]
fn shell_escape_path_with_single_quote() {
    assert_eq!(shell_escape("/path/it's/here"), "'/path/it'\"'\"'s/here'");
}

#[test]
fn shell_escape_path_with_spaces() {
    assert_eq!(shell_escape("/my path/bin"), "'/my path/bin'");
}

#[test]
fn shell_escape_path_with_dollar() {
    assert_eq!(shell_escape("/path/$HOME/bin"), "'/path/$HOME/bin'");
}

#[test]
fn linux_nautilus_script_content() {
    let script = nautilus_script("/usr/local/bin/tagmv");
    assert!(script.starts_with("#!/bin/bash"));
    assert!(script.contains("'/usr/local/bin/tagmv'"));
    assert!(script.contains("NAUTILUS_SCRIPT_SELECTED_FILE_PATHS"));
    assert_eq!(
        script,
        "#!/bin/bash\nIFS=$'\\n'\nfor f in $NAUTILUS_SCRIPT_SELECTED_FILE_PATHS; do\n  [ -d \"$f\" ] && '/usr/local/bin/tagmv' --execute \"$f\"\ndone\n"
    );
}

#[test]
fn linux_nemo_action_content() {
    let action = nemo_action("/usr/local/bin/tagmv");
    assert!(action.contains("[Nemo Action]"));
    assert!(action.contains("Sort Music by Tags"));
    assert!(action.contains("--execute %F"));
    assert_eq!(
        action,
        "[Nemo Action]\nName=Sort Music by Tags\nComment=Organize music files by audio tags\nExec=/usr/local/bin/tagmv --execute %F\nIcon-Name=audio-x-generic\nSelection=Any\nExtensions=dir;\n"
    );
}

#[test]
fn linux_dolphin_desktop_content() {
    let desktop = dolphin_desktop("/usr/local/bin/tagmv");
    assert!(desktop.contains("Type=Service"));
    assert!(desktop.contains("inode/directory"));
    assert!(desktop.contains("[Desktop Action tagmv]"));
    assert_eq!(
        desktop,
        "[Desktop Entry]\nType=Service\nMimeType=inode/directory;\nActions=tagmv\n\n[Desktop Action tagmv]\nName=Sort Music by Tags\nExec=/usr/local/bin/tagmv --execute %f\nIcon=audio-x-generic\n"
    );
}

#[test]
fn windows_command_value_format() {
    let exe = r"C:\Users\chris\bin\tagmv.exe";
    let cmd = windows_command_value(exe);
    assert_eq!(cmd, r#""C:\Users\chris\bin\tagmv.exe" --execute "%V""#);
}

#[test]
fn home_dir_takes_the_first_absolute() {
    assert_eq!(home_dir(Some("/home/me"), Some("/other")).as_deref(), Some("/home/me"));
    assert_eq!(home_dir(Some("relative"), Some("/other")).as_deref(), Some("/other"));
    assert_eq!(home_dir(None, Some("/other")).as_deref(), Some("/other"));
    assert_eq!(home_dir(Some(""), None), None);
    assert_eq!(home_dir(None, None), None);
    assert_eq!(home_dir(Some("rel"), Some("rel2")), None);
}

#[test]
fn xml_and_shell_escape_edge_cases() {
    assert_eq!(xml_escape(""), "");
    assert_eq!(xml_escape("&&"), "&amp;&amp;");
    assert_eq!(xml_escape("&amp;"), "&amp;amp;");
    assert_eq!(xml_escape("päth"), "päth");
    assert_eq!(shell_escape(""), "''");
    assert_eq!(shell_escape("'"), "''\"'\"''");
    assert_eq!(shell_escape("a\"b"), "'a\"b'");
}

#[test]
fn macos_workflow_document() {
    let doc = macos_document_wflow("/Users/me/it's/tagmv");
    let script = "for f in &quot;$@&quot;; do\n  if [ -d &quot;$f&quot; ]; then\n    &apos;/Users/me/it&apos;&quot;&apos;&quot;&apos;s/tagmv&apos; --execute &quot;$f&quot;\n  fi\ndone";
    assert_eq!(doc, format!("{}{}{}", WORKFLOW_HEAD, script, WORKFLOW_TAIL));
    assert!(doc.starts_with("<?xml version=\"1.0\" encoding=\"UTF-8\"?>\n<!DOCTYPE plist"));
    assert!(doc.ends_with("</dict>\n</plist>"));
    assert!(WORKFLOW_HEAD.ends_with("\t\t\t\t\t<key>COMMAND_STRING</key>\n\t\t\t\t\t<string>"));
    assert!(WORKFLOW_TAIL.starts_with("</string>\n\t\t\t\t\t<key>CheckedForUserDefaultShell</key>"));
    assert_eq!(WORKFLOW_HEAD.len(), 1500);
    assert_eq!(WORKFLOW_TAIL.len(), 4486);
    assert_eq!(WORKFLOW_HEAD.lines().count(), 62);
    assert_eq!(doc.matches("<key>").count(), 94);
}

#[test]
fn macos_property_list() {
    let plist = macos_info_plist();
    assert_eq!(plist, INFO_PLIST);
    assert_eq!(plist.len(), 841);
    assert!(plist.starts_with("<?xml version=\"1.0\" encoding=\"UTF-8\"?>\n"));
    assert!(plist.contains("<key>default</key>\n\t\t\t\t<string>Sort Music by Tags</string>\n"));
    assert!(plist.contains("<string>runWorkflowAsService</string>"));
    assert!(plist.ends_with("\t</array>\n</dict>\n</plist>"));
}

#[test]
fn install_paths() {
    assert_eq!(MENU_LABEL, "Sort Music by Tags");
    assert_eq!(
        macos_workflow_dir("/Users/me"),
        "/Users/me/Library/Services/Sort Music by Tags.workflow"
    );
    let (nautilus, nemo, dolphin) = linux_paths("/home/me");
    assert_eq!(nautilus, "/home/me/.local/share/nautilus/scripts/Sort Music by Tags");
    assert_eq!(nemo, "/home/me/.local/share/nemo/actions/tagmv.nemo_action");
    assert_eq!(dolphin, "/home/me/.local/share/kio/servicemenus/tagmv.desktop");
    let (nautilus, _, _) = linux_paths("/home/me/");
    assert_eq!(nautilus, "/home/me/.local/share/nautilus/scripts/Sort Music by Tags");
}

fn write(path: &str, content: String) -> InstallStep {
    InstallStep::WriteFile { path: path.to_string(), content }
}

fn dirs(path: &str) -> InstallStep {
    InstallStep::CreateDirs { path: path.to_string() }
}

#[test]
fn linux_install_plan() {
    let plan = install_quick_action(Platform::Linux, Some("/home/me"), "/usr/bin/tagmv").unwrap();
    let nautilus = "/home/me/.local/share/nautilus/scripts/Sort Music by Tags";
    let nemo = "/home/me/.local/share/nemo/actions/tagmv.nemo_action";
    let dolphin = "/home/me/.local/share/kio/servicemenus/tagmv.desktop";
    assert_eq!(
        plan,
        vec![
            dirs("/home/me/.local/share/nautilus/scripts"),
            write(nautilus, nautilus_script("/usr/bin/tagmv")),
            InstallStep::MakeExecutable { path: nautilus.to_string() },
            dirs("/home/me/.local/share/nemo/actions"),
            write(nemo, nemo_action("/usr/bin/tagmv")),
            dirs("/home/me/.local/share/kio/servicemenus"),
            write(dolphin, dolphin_desktop("/usr/bin/tagmv")),
        ]
    );
}

#[test]
fn macos_install_plan() {
    let plan = install_quick_action(Platform::MacOs, Some("/Users/me"), "/usr/bin/tagmv").unwrap();
    let dir = "/Users/me/Library/Services/Sort Music by Tags.workflow";
    assert_eq!(
        plan,
        vec![
            InstallStep::RemoveTree { path: dir.to_string() },
            dirs(&format!("{}/Contents", dir)),
            write(&format!("{}/Contents/document.wflow", dir), macos_document_wflow("/usr/bin/tagmv")),
            write(&format!("{}/Contents/Info.plist", dir), INFO_PLIST.to_string()),
        ]
    );
}

#[test]
fn windows_install_plan() {
    let exe = r"C:\bin\tagmv.exe";
    let plan = install_quick_action(Platform::Windows, None, exe).unwrap();
    let add = |key: &str, value: &str| InstallStep::RunReg {
        args: ["add", key, "/ve", "/d", value, "/f"].iter().map(|s| s.to_string()).collect(),
    };
    let command = r#""C:\bin\tagmv.exe" --execute "%V""#;
    assert_eq!(
        plan,
        vec![
            add(r"HKCU\Software\Classes\Directory\shell\tagmv", "Sort Music by Tags"),
            add(r"HKCU\Software\Classes\Directory\shell\tagmv\command", command),
            add(r"HKCU\Software\Classes\Directory\Background\shell\tagmv", "Sort Music by Tags"),
            add(r"HKCU\Software\Classes\Directory\Background\shell\tagmv\command", command),
        ]
    );
}

#[test]
fn uninstall_plans() {
    let plan = uninstall_quick_action(Platform::MacOs, Some("/Users/me")).unwrap();
    assert_eq!(
        plan,
        vec![InstallStep::RemoveTree {
            path: "/Users/me/Library/Services/Sort Music by Tags.workflow".to_string()
        }]
    );
    let plan = uninstall_quick_action(Platform::Linux, Some("/home/me")).unwrap();
    let file = |p: &str| InstallStep::RemoveFile { path: p.to_string() };
    assert_eq!(
        plan,
        vec![
            file("/home/me/.local/share/nautilus/scripts/Sort Music by Tags"),
            file("/home/me/.local/share/nemo/actions/tagmv.nemo_action"),
            file("/home/me/.local/share/kio/servicemenus/tagmv.desktop"),
        ]
    );
    let plan = uninstall_quick_action(Platform::Windows, None).unwrap();
    let delete = |key: &str| InstallStep::TryReg {
        args: ["delete", key, "/f"].iter().map(|s| s.to_string()).collect(),
    };
    assert_eq!(
        plan,
        vec![
            delete(r"HKCU\Software\Classes\Directory\shell\tagmv"),
            delete(r"HKCU\Software\Classes\Directory\Background\shell\tagmv"),
        ]
    );
}

#[test]
fn install_errors() {
    assert_eq!(install_quick_action(Platform::Other, Some("/h"), "/x"), Err(InstallError::UnsupportedInstall));
    assert_eq!(install_quick_action(Platform::Other, None, "/x"), Err(InstallError::UnsupportedInstall));
    assert_eq!(install_quick_action(Platform::Linux, None, "/x"), Err(InstallError::NoHome));
    assert_eq!(install_quick_action(Platform::MacOs, None, "/x"), Err(InstallError::NoHome));
    assert_eq!(uninstall_quick_action(Platform::Other, Some("/h")), Err(InstallError::UnsupportedRemoval));
    assert_eq!(uninstall_quick_action(Platform::Linux, None), Err(InstallError::NoHome));
    assert_eq!(uninstall_quick_action(Platform::MacOs, None), Err(InstallError::NoHome));
    assert_eq!(
        InstallError::NoHome.message(),
        "Could not determine home directory ($HOME / %USERPROFILE% not set)"
    );
    assert_eq!(
        InstallError::UnsupportedInstall.message(),
        "Unsupported platform for context menu installation"
    );
    assert_eq!(
        InstallError::UnsupportedRemoval.message(),
        "Unsupported platform for context menu removal"
    );
}

#[test]
fn build_dir_warning() {
    assert!(in_build_dir("/src/tagmv/target/release/tagmv"));
    assert!(in_build_dir(r"C:\src\target\debug\tagmv.exe"));
    assert!(!in_build_dir("/usr/local/bin/tagmv"));
    assert!(!in_build_dir("/src/target"));
    assert!(!in_build_dir("/src/targets/x"));
    assert!(!in_build_dir(""));
    assert!(warn_if_build_dir("/usr/bin/tagmv", false).is_empty());
    assert_eq!(
        warn_if_build_dir("/p/target/debug/tagmv", false),
        vec![
            "Warning: You are running from a build directory.",
            "Consider copying the binary to a stable location first:",
            "  cp /p/target/debug/tagmv ~/bin/tagmv",
            "  ~/bin/tagmv install",
            "",
        ]
    );
    assert_eq!(
        warn_if_build_dir(r"C:\p\target\debug\tagmv.exe", true),
        vec![
            "Warning: You are running from a build directory.",
            "Consider copying the binary to a stable location first:",
            r"  copy C:\p\target\debug\tagmv.exe %USERPROFILE%\bin\tagmv.exe",
            r"  %USERPROFILE%\bin\tagmv.exe install",
            "",
        ]
    );
}
