//! Putting the sorter into the menus of the file managers.
//!
//! Nothing here touches the system. [`install_quick_action`] and
//! [`uninstall_quick_action`] say which files are to be written or removed
//! and which commands are to be run, as a list of [`InstallStep`]s; the
//! other functions make the paths and the contents of those files.

use vstd::prelude::*;
use crate::path::{is_absolute, is_absolute_chars, join, join_chars, parent, parent_chars};
use crate::text::{append, append_str, chars_of, contains, occurs, string_of};

verus! {

/// The name under which the sorter shows in a menu.
pub const MENU_LABEL: &'static str = "Sort Music by Tags";

/// The workflow document up to the script that it runs.
pub const WORKFLOW_HEAD: &'static str = "<?xml version=\"1.0\" encoding=\"UTF-8\"?>\n\
<!DOCTYPE plist PUBLIC \"-//Apple//DTD PLIST 1.0//EN\" \"http://www.apple.com/DTDs/PropertyList-1.0.dtd\">\n\
<plist version=\"1.0\">\n\
<dict>\n\
\t<key>AMApplicationBuild</key>\n\
\t<string>528</string>\n\
\t<key>AMApplicationVersion</key>\n\
\t<string>2.10</string>\n\
\t<key>AMDocumentVersion</key>\n\
\t<string>2</string>\n\
\t<key>actions</key>\n\
\t<array>\n\
\t\t<dict>\n\
\t\t\t<key>action</key>\n\
\t\t\t<dict>\n\
\t\t\t\t<key>AMAccepts</key>\n\
\t\t\t\t<dict>\n\
\t\t\t\t\t<key>Container</key>\n\
\t\t\t\t\t<string>List</string>\n\
\t\t\t\t\t<key>Optional</key>\n\
\t\t\t\t\t<true/>\n\
\t\t\t\t\t<key>Types</key>\n\
\t\t\t\t\t<array>\n\
\t\t\t\t\t\t<string>com.apple.cocoa.string</string>\n\
\t\t\t\t\t</array>\n\
\t\t\t\t</dict>\n\
\t\t\t\t<key>AMActionVersion</key>\n\
\t\t\t\t<string>2.0.3</string>\n\
\t\t\t\t<key>AMApplication</key>\n\
\t\t\t\t<array>\n\
\t\t\t\t\t<string>Automator</string>\n\
\t\t\t\t</array>\n\
\t\t\t\t<key>AMParameterProperties</key>\n\
\t\t\t\t<dict>\n\
\t\t\t\t\t<key>COMMAND_STRING</key>\n\
\t\t\t\t\t<dict/>\n\
\t\t\t\t\t<key>CheckedForUserDefaultShell</key>\n\
\t\t\t\t\t<dict/>\n\
\t\t\t\t\t<key>inputMethod</key>\n\
\t\t\t\t\t<dict/>\n\
\t\t\t\t\t<key>shell</key>\n\
\t\t\t\t\t<dict/>\n\
\t\t\t\t\t<key>source</key>\n\
\t\t\t\t\t<dict/>\n\
\t\t\t\t</dict>\n\
\t\t\t\t<key>AMProvides</key>\n\
\t\t\t\t<dict>\n\
\t\t\t\t\t<key>Container</key>\n\
\t\t\t\t\t<string>List</string>\n\
\t\t\t\t\t<key>Types</key>\n\
\t\t\t\t\t<array>\n\
\t\t\t\t\t\t<string>com.apple.cocoa.string</string>\n\
\t\t\t\t\t</array>\n\
\t\t\t\t</dict>\n\
\t\t\t\t<key>ActionBundlePath</key>\n\
\t\t\t\t<string>/System/Library/Automator/Run Shell Script.action</string>\n\
\t\t\t\t<key>ActionName</key>\n\
\t\t\t\t<string>Run Shell Script</string>\n\
\t\t\t\t<key>ActionParameters</key>\n\
\t\t\t\t<dict>\n\
\t\t\t\t\t<key>COMMAND_STRING</key>\n\
\t\t\t\t\t<string>";

/// The workflow document from the script that it runs on.
pub const WORKFLOW_TAIL: &'static str = "</string>\n\
\t\t\t\t\t<key>CheckedForUserDefaultShell</key>\n\
\t\t\t\t\t<true/>\n\
\t\t\t\t\t<key>inputMethod</key>\n\
\t\t\t\t\t<integer>1</integer>\n\
\t\t\t\t\t<key>shell</key>\n\
\t\t\t\t\t<string>/bin/zsh</string>\n\
\t\t\t\t\t<key>source</key>\n\
\t\t\t\t\t<string></string>\n\
\t\t\t\t</dict>\n\
\t\t\t\t<key>BundleIdentifier</key>\n\
\t\t\t\t<string>com.apple.RunShellScript</string>\n\
\t\t\t\t<key>CFBundleVersion</key>\n\
\t\t\t\t<string>2.0.3</string>\n\
\t\t\t\t<key>CanShowSelectedItemsWhenRun</key>\n\
\t\t\t\t<false/>\n\
\t\t\t\t<key>CanShowWhenRun</key>\n\
\t\t\t\t<true/>\n\
\t\t\t\t<key>Category</key>\n\
\t\t\t\t<array>\n\
\t\t\t\t\t<string>AMCategoryUtilities</string>\n\
\t\t\t\t</array>\n\
\t\t\t\t<key>Class Name</key>\n\
\t\t\t\t<string>RunShellScriptAction</string>\n\
\t\t\t\t<key>InputUUID</key>\n\
\t\t\t\t<string>A1B2C3D4-E5F6-7890-ABCD-EF1234567890</string>\n\
\t\t\t\t<key>Keywords</key>\n\
\t\t\t\t<array>\n\
\t\t\t\t\t<string>Shell</string>\n\
\t\t\t\t\t<string>Script</string>\n\
\t\t\t\t\t<string>Command</string>\n\
\t\t\t\t\t<string>Run</string>\n\
\t\t\t\t\t<string>Unix</string>\n\
\t\t\t\t</array>\n\
\t\t\t\t<key>OutputUUID</key>\n\
\t\t\t\t<string>B2C3D4E5-F6A7-8901-BCDE-F12345678901</string>\n\
\t\t\t\t<key>UUID</key>\n\
\t\t\t\t<string>C3D4E5F6-A7B8-9012-CDEF-123456789012</string>\n\
\t\t\t\t<key>UnlocalizedApplications</key>\n\
\t\t\t\t<array>\n\
\t\t\t\t\t<string>Automator</string>\n\
\t\t\t\t</array>\n\
\t\t\t\t<key>arguments</key>\n\
\t\t\t\t<dict>\n\
\t\t\t\t\t<key>0</key>\n\
\t\t\t\t\t<dict>\n\
\t\t\t\t\t\t<key>default value</key>\n\
\t\t\t\t\t\t<integer>0</integer>\n\
\t\t\t\t\t\t<key>name</key>\n\
\t\t\t\t\t\t<string>inputMethod</string>\n\
\t\t\t\t\t\t<key>required</key>\n\
\t\t\t\t\t\t<string>0</string>\n\
\t\t\t\t\t\t<key>type</key>\n\
\t\t\t\t\t\t<string>0</string>\n\
\t\t\t\t\t\t<key>uuid</key>\n\
\t\t\t\t\t\t<string>0</string>\n\
\t\t\t\t\t</dict>\n\
\t\t\t\t\t<key>1</key>\n\
\t\t\t\t\t<dict>\n\
\t\t\t\t\t\t<key>default value</key>\n\
\t\t\t\t\t\t<false/>\n\
\t\t\t\t\t\t<key>name</key>\n\
\t\t\t\t\t\t<string>CheckedForUserDefaultShell</string>\n\
\t\t\t\t\t\t<key>required</key>\n\
\t\t\t\t\t\t<string>0</string>\n\
\t\t\t\t\t\t<key>type</key>\n\
\t\t\t\t\t\t<string>0</string>\n\
\t\t\t\t\t\t<key>uuid</key>\n\
\t\t\t\t\t\t<string>1</string>\n\
\t\t\t\t\t</dict>\n\
\t\t\t\t\t<key>2</key>\n\
\t\t\t\t\t<dict>\n\
\t\t\t\t\t\t<key>default value</key>\n\
\t\t\t\t\t\t<string></string>\n\
\t\t\t\t\t\t<key>name</key>\n\
\t\t\t\t\t\t<string>source</string>\n\
\t\t\t\t\t\t<key>required</key>\n\
\t\t\t\t\t\t<string>0</string>\n\
\t\t\t\t\t\t<key>type</key>\n\
\t\t\t\t\t\t<string>0</string>\n\
\t\t\t\t\t\t<key>uuid</key>\n\
\t\t\t\t\t\t<string>2</string>\n\
\t\t\t\t\t</dict>\n\
\t\t\t\t\t<key>3</key>\n\
\t\t\t\t\t<dict>\n\
\t\t\t\t\t\t<key>default value</key>\n\
\t\t\t\t\t\t<string></string>\n\
\t\t\t\t\t\t<key>name</key>\n\
\t\t\t\t\t\t<string>COMMAND_STRING</string>\n\
\t\t\t\t\t\t<key>required</key>\n\
\t\t\t\t\t\t<string>0</string>\n\
\t\t\t\t\t\t<key>type</key>\n\
\t\t\t\t\t\t<string>0</string>\n\
\t\t\t\t\t\t<key>uuid</key>\n\
\t\t\t\t\t\t<string>3</string>\n\
\t\t\t\t\t</dict>\n\
\t\t\t\t\t<key>4</key>\n\
\t\t\t\t\t<dict>\n\
\t\t\t\t\t\t<key>default value</key>\n\
\t\t\t\t\t\t<string>/bin/sh</string>\n\
\t\t\t\t\t\t<key>name</key>\n\
\t\t\t\t\t\t<string>shell</string>\n\
\t\t\t\t\t\t<key>required</key>\n\
\t\t\t\t\t\t<string>0</string>\n\
\t\t\t\t\t\t<key>type</key>\n\
\t\t\t\t\t\t<string>0</string>\n\
\t\t\t\t\t\t<key>uuid</key>\n\
\t\t\t\t\t\t<string>4</string>\n\
\t\t\t\t\t</dict>\n\
\t\t\t\t</dict>\n\
\t\t\t\t<key>isViewVisible</key>\n\
\t\t\t\t<integer>1</integer>\n\
\t\t\t\t<key>location</key>\n\
\t\t\t\t<string>354.500000:305.000000</string>\n\
\t\t\t\t<key>nibPath</key>\n\
\t\t\t\t<string>/System/Library/Automator/Run Shell Script.action/Contents/Resources/Base.lproj/main.nib</string>\n\
\t\t\t</dict>\n\
\t\t\t<key>isViewVisible</key>\n\
\t\t\t<integer>1</integer>\n\
\t\t</dict>\n\
\t</array>\n\
\t<key>connectors</key>\n\
\t<dict/>\n\
\t<key>workflowMetaData</key>\n\
\t<dict>\n\
\t\t<key>applicationBundleID</key>\n\
\t\t<string>com.apple.finder</string>\n\
\t\t<key>applicationBundleIDsByPath</key>\n\
\t\t<dict>\n\
\t\t\t<key>/System/Library/CoreServices/Finder.app</key>\n\
\t\t\t<string>com.apple.finder</string>\n\
\t\t</dict>\n\
\t\t<key>applicationPath</key>\n\
\t\t<string>/System/Library/CoreServices/Finder.app</string>\n\
\t\t<key>applicationPaths</key>\n\
\t\t<array>\n\
\t\t\t<string>/System/Library/CoreServices/Finder.app</string>\n\
\t\t</array>\n\
\t\t<key>backgroundColorName</key>\n\
\t\t<string>blackColor</string>\n\
\t\t<key>inputTypeIdentifier</key>\n\
\t\t<string>com.apple.Automator.fileSystemObject</string>\n\
\t\t<key>outputTypeIdentifier</key>\n\
\t\t<string>com.apple.Automator.nothing</string>\n\
\t\t<key>presentationMode</key>\n\
\t\t<integer>15</integer>\n\
\t\t<key>processesInput</key>\n\
\t\t<false/>\n\
\t\t<key>serviceApplicationBundleID</key>\n\
\t\t<string>com.apple.finder</string>\n\
\t\t<key>serviceApplicationPath</key>\n\
\t\t<string>/System/Library/CoreServices/Finder.app</string>\n\
\t\t<key>serviceInputTypeIdentifier</key>\n\
\t\t<string>com.apple.Automator.fileSystemObject</string>\n\
\t\t<key>serviceOutputTypeIdentifier</key>\n\
\t\t<string>com.apple.Automator.nothing</string>\n\
\t\t<key>serviceProcessesInput</key>\n\
\t\t<false/>\n\
\t\t<key>systemImageName</key>\n\
\t\t<string>NSTouchBarTagIcon</string>\n\
\t\t<key>useAutomaticInputType</key>\n\
\t\t<false/>\n\
\t\t<key>workflowTypeIdentifier</key>\n\
\t\t<string>com.apple.Automator.servicesMenu</string>\n\
\t</dict>\n\
</dict>\n\
</plist>";

/// The property list that announces the workflow as a service.
pub const INFO_PLIST: &'static str = "<?xml version=\"1.0\" encoding=\"UTF-8\"?>\n\
<!DOCTYPE plist PUBLIC \"-//Apple//DTD PLIST 1.0//EN\" \"http://www.apple.com/DTDs/PropertyList-1.0.dtd\">\n\
<plist version=\"1.0\">\n\
<dict>\n\
\t<key>NSServices</key>\n\
\t<array>\n\
\t\t<dict>\n\
\t\t\t<key>NSBackgroundColorName</key>\n\
\t\t\t<string>background</string>\n\
\t\t\t<key>NSBackgroundSystemColorName</key>\n\
\t\t\t<string>blackColor</string>\n\
\t\t\t<key>NSIconName</key>\n\
\t\t\t<string>NSTouchBarTagIcon</string>\n\
\t\t\t<key>NSMenuItem</key>\n\
\t\t\t<dict>\n\
\t\t\t\t<key>default</key>\n\
\t\t\t\t<string>Sort Music by Tags</string>\n\
\t\t\t</dict>\n\
\t\t\t<key>NSMessage</key>\n\
\t\t\t<string>runWorkflowAsService</string>\n\
\t\t\t<key>NSRequiredContext</key>\n\
\t\t\t<dict>\n\
\t\t\t\t<key>NSApplicationIdentifier</key>\n\
\t\t\t\t<string>com.apple.finder</string>\n\
\t\t\t</dict>\n\
\t\t\t<key>NSSendFileTypes</key>\n\
\t\t\t<array>\n\
\t\t\t\t<string>public.item</string>\n\
\t\t\t</array>\n\
\t\t</dict>\n\
\t</array>\n\
</dict>\n\
</plist>";

/// How `c` is written in the text of an XML document.
pub open spec fn xml_entity(c: char) -> Seq<char> {
    if c == '&' {
        "&amp;"@
    } else if c == '<' {
        "&lt;"@
    } else if c == '>' {
        "&gt;"@
    } else if c == '"' {
        "&quot;"@
    } else if c == '\'' {
        "&apos;"@
    } else {
        seq![c]
    }
}

/// `s` as it is written in the text of an XML document: each of
/// `& < > " '` by its entity, every other character as it is.
pub open spec fn xml_escaped(s: Seq<char>) -> Seq<char>
    decreases s.len(),
{
    if s.len() == 0 {
        Seq::empty()
    } else {
        xml_escaped(s.drop_last()) + xml_entity(s.last())
    }
}

/// How `c` is written inside single quotes for a shell.
pub open spec fn shell_quoted_char(c: char) -> Seq<char> {
    if c == '\'' {
        "'\"'\"'"@
    } else {
        seq![c]
    }
}

/// `s` as it is written inside single quotes for a shell: a single quote
/// ends the quotes, stands in double quotes and opens them again.
pub open spec fn shell_quoted(s: Seq<char>) -> Seq<char>
    decreases s.len(),
{
    if s.len() == 0 {
        Seq::empty()
    } else {
        shell_quoted(s.drop_last()) + shell_quoted_char(s.last())
    }
}

/// `s` as one word for a shell: in single quotes.
pub open spec fn shell_escaped(s: Seq<char>) -> Seq<char> {
    seq!['\''] + shell_quoted(s) + seq!['\'']
}

fn xml_escape_chars(s: &Vec<char>) -> (r: Vec<char>)
    ensures
        r@ == xml_escaped(s@),
{
    let mut r: Vec<char> = Vec::new();
    let mut i: usize = 0;
    while i < s.len()
        invariant
            i <= s.len(),
            r@ == xml_escaped(s@.take(i as int)),
        decreases s.len() - i,
    {
        let c = s[i];
        proof {
            assert(s@.take(i + 1).drop_last() == s@.take(i as int));
        }
        if c == '&' {
            append_str(&mut r, "&amp;");
        } else if c == '<' {
            append_str(&mut r, "&lt;");
        } else if c == '>' {
            append_str(&mut r, "&gt;");
        } else if c == '"' {
            append_str(&mut r, "&quot;");
        } else if c == '\'' {
            append_str(&mut r, "&apos;");
        } else {
            r.push(c);
            proof {
                let before = xml_escaped(s@.take(i as int));
                assert(before.push(c) == before + seq![c]);
            }
        }
        i = i + 1;
    }
    proof {
        assert(s@.take(s.len() as int) == s@);
    }
    r
}

fn shell_escape_chars(s: &Vec<char>) -> (r: Vec<char>)
    ensures
        r@ == shell_escaped(s@),
{
    let mut r: Vec<char> = Vec::new();
    r.push('\'');
    let mut i: usize = 0;
    while i < s.len()
        invariant
            i <= s.len(),
            r@ == seq!['\''] + shell_quoted(s@.take(i as int)),
        decreases s.len() - i,
    {
        let c = s[i];
        proof {
            assert(s@.take(i + 1).drop_last() == s@.take(i as int));
        }
        let ghost before = shell_quoted(s@.take(i as int));
        if c == '\'' {
            append_str(&mut r, "'\"'\"'");
            proof {
                assert((seq!['\''] + before) + "'\"'\"'"@ == seq!['\''] + (before + "'\"'\"'"@));
            }
        } else {
            r.push(c);
            proof {
                assert((seq!['\''] + before).push(c) == seq!['\''] + (before + seq![c]));
            }
        }
        i = i + 1;
    }
    r.push('\'');
    proof {
        assert(s@.take(s.len() as int) == s@);
        let body = shell_quoted(s@);
        assert((seq!['\''] + body).push('\'') == seq!['\''] + body + seq!['\'']);
    }
    r
}

/// `s` as it is written in the text of an XML document.
pub fn xml_escape(s: &str) -> (r: String)
    ensures
        r@ == xml_escaped(s@),
{
    string_of(&xml_escape_chars(&chars_of(s)))
}

/// `s` as one word for a shell: in single quotes.
pub fn shell_escape(s: &str) -> (r: String)
    ensures
        r@ == shell_escaped(s@),
{
    string_of(&shell_escape_chars(&chars_of(s)))
}

/// The script that the workflow runs: the sorter at `binary_path`, on
/// every folder that it is handed.
pub open spec fn workflow_script(binary_path: Seq<char>) -> Seq<char> {
    "for f in \"$@\"; do\n  if [ -d \"$f\" ]; then\n    "@ + shell_escaped(binary_path)
        + " --execute \"$f\"\n  fi\ndone"@
}

/// The workflow document for the sorter at `binary_path`.
pub open spec fn workflow_document(binary_path: Seq<char>) -> Seq<char> {
    WORKFLOW_HEAD@ + xml_escaped(workflow_script(binary_path)) + WORKFLOW_TAIL@
}

/// The workflow document for the sorter at `binary_path`.
pub fn macos_document_wflow(binary_path: &str) -> (r: String)
    ensures
        r@ == workflow_document(binary_path@),
{
    let mut script: Vec<char> = Vec::new();
    append_str(&mut script, "for f in \"$@\"; do\n  if [ -d \"$f\" ]; then\n    ");
    append(&mut script, &shell_escape_chars(&chars_of(binary_path)));
    append_str(&mut script, " --execute \"$f\"\n  fi\ndone");
    let mut out: Vec<char> = Vec::new();
    append_str(&mut out, WORKFLOW_HEAD);
    append(&mut out, &xml_escape_chars(&script));
    append_str(&mut out, WORKFLOW_TAIL);
    proof {
        assert(Seq::<char>::empty() + WORKFLOW_HEAD@ == WORKFLOW_HEAD@);
    }
    string_of(&out)
}

/// The property list that announces the workflow as a service.
pub fn macos_info_plist() -> (r: &'static str)
    ensures
        r@ == INFO_PLIST@,
{
    INFO_PLIST
}

/// The folder of the workflow under the home folder `home`.
pub open spec fn workflow_dir(home: Seq<char>) -> Seq<char> {
    join(join(home, "Library/Services"@), MENU_LABEL@ + ".workflow"@)
}

/// The folder of the workflow under the home folder `home`.
pub fn macos_workflow_dir(home: &str) -> (r: String)
    ensures
        r@ == workflow_dir(home@),
{
    let services = join_chars(&chars_of(home), &chars_of("Library/Services"));
    let mut name = chars_of(MENU_LABEL);
    append_str(&mut name, ".workflow");
    string_of(&join_chars(&services, &name))
}

/// Where the data of the file managers lies under the home folder `home`.
pub open spec fn linux_data_dir(home: Seq<char>) -> Seq<char> {
    join(home, ".local/share"@)
}

/// The script for Nautilus under the home folder `home`.
pub open spec fn nautilus_path(home: Seq<char>) -> Seq<char> {
    join(join(linux_data_dir(home), "nautilus/scripts"@), MENU_LABEL@)
}

/// The action for Nemo under the home folder `home`.
pub open spec fn nemo_path(home: Seq<char>) -> Seq<char> {
    join(linux_data_dir(home), "nemo/actions/tagmv.nemo_action"@)
}

/// The service menu for Dolphin under the home folder `home`.
pub open spec fn dolphin_path(home: Seq<char>) -> Seq<char> {
    join(linux_data_dir(home), "kio/servicemenus/tagmv.desktop"@)
}

/// The three files under the home folder `home` that put the sorter into
/// the menus of Nautilus, Nemo and Dolphin, in this order.
pub fn linux_paths(home: &str) -> (r: (String, String, String))
    ensures
        r.0@ == nautilus_path(home@),
        r.1@ == nemo_path(home@),
        r.2@ == dolphin_path(home@),
{
    let data = join_chars(&chars_of(home), &chars_of(".local/share"));
    let scripts = join_chars(&data, &chars_of("nautilus/scripts"));
    let nautilus = join_chars(&scripts, &chars_of(MENU_LABEL));
    let nemo = join_chars(&data, &chars_of("nemo/actions/tagmv.nemo_action"));
    let dolphin = join_chars(&data, &chars_of("kio/servicemenus/tagmv.desktop"));
    (string_of(&nautilus), string_of(&nemo), string_of(&dolphin))
}

/// The script that Nautilus runs for the sorter at `exe`.
pub open spec fn nautilus_script_text(exe: Seq<char>) -> Seq<char> {
    "#!/bin/bash\nIFS=$'\\n'\nfor f in $NAUTILUS_SCRIPT_SELECTED_FILE_PATHS; do\n  [ -d \"$f\" ] && "@
        + shell_escaped(exe) + " --execute \"$f\"\ndone\n"@
}

/// The action that Nemo shows for the sorter at `exe`.
pub open spec fn nemo_action_text(exe: Seq<char>) -> Seq<char> {
    "[Nemo Action]\nName="@ + MENU_LABEL@
        + "\nComment=Organize music files by audio tags\nExec="@ + exe
        + " --execute %F\nIcon-Name=audio-x-generic\nSelection=Any\nExtensions=dir;\n"@
}

/// The service menu that Dolphin shows for the sorter at `exe`.
pub open spec fn dolphin_desktop_text(exe: Seq<char>) -> Seq<char> {
    "[Desktop Entry]\nType=Service\nMimeType=inode/directory;\nActions=tagmv\n\n[Desktop Action tagmv]\nName="@
        + MENU_LABEL@ + "\nExec="@ + exe + " --execute %f\nIcon=audio-x-generic\n"@
}

/// The command that the registry holds for the sorter at `exe`.
pub open spec fn windows_command_text(exe: Seq<char>) -> Seq<char> {
    "\""@ + exe + "\" --execute \"%V\""@
}

fn nautilus_script_chars(exe: &Vec<char>) -> (r: Vec<char>)
    ensures
        r@ == nautilus_script_text(exe@),
{
    let mut out: Vec<char> = Vec::new();
    let head =
        "#!/bin/bash\nIFS=$'\\n'\nfor f in $NAUTILUS_SCRIPT_SELECTED_FILE_PATHS; do\n  [ -d \"$f\" ] && ";
    append_str(&mut out, head);
    append(&mut out, &shell_escape_chars(exe));
    append_str(&mut out, " --execute \"$f\"\ndone\n");
    proof {
        assert(Seq::<char>::empty() + head@ == head@);
    }
    out
}

fn nemo_action_chars(exe: &Vec<char>) -> (r: Vec<char>)
    ensures
        r@ == nemo_action_text(exe@),
{
    let mut out: Vec<char> = Vec::new();
    append_str(&mut out, "[Nemo Action]\nName=");
    append_str(&mut out, MENU_LABEL);
    append_str(&mut out, "\nComment=Organize music files by audio tags\nExec=");
    append(&mut out, exe);
    append_str(
        &mut out,
        " --execute %F\nIcon-Name=audio-x-generic\nSelection=Any\nExtensions=dir;\n",
    );
    proof {
        assert(Seq::<char>::empty() + "[Nemo Action]\nName="@ == "[Nemo Action]\nName="@);
    }
    out
}

fn dolphin_desktop_chars(exe: &Vec<char>) -> (r: Vec<char>)
    ensures
        r@ == dolphin_desktop_text(exe@),
{
    let mut out: Vec<char> = Vec::new();
    let head =
        "[Desktop Entry]\nType=Service\nMimeType=inode/directory;\nActions=tagmv\n\n[Desktop Action tagmv]\nName=";
    append_str(&mut out, head);
    append_str(&mut out, MENU_LABEL);
    append_str(&mut out, "\nExec=");
    append(&mut out, exe);
    append_str(&mut out, " --execute %f\nIcon=audio-x-generic\n");
    proof {
        assert(Seq::<char>::empty() + head@ == head@);
    }
    out
}

fn windows_command_chars(exe: &Vec<char>) -> (r: Vec<char>)
    ensures
        r@ == windows_command_text(exe@),
{
    let mut out: Vec<char> = Vec::new();
    append_str(&mut out, "\"");
    append(&mut out, exe);
    append_str(&mut out, "\" --execute \"%V\"");
    proof {
        assert(Seq::<char>::empty() + "\""@ == "\""@);
    }
    out
}

/// The script that Nautilus runs for the sorter at `exe`.
pub fn nautilus_script(exe: &str) -> (r: String)
    ensures
        r@ == nautilus_script_text(exe@),
{
    string_of(&nautilus_script_chars(&chars_of(exe)))
}

/// The action that Nemo shows for the sorter at `exe`.
pub fn nemo_action(exe: &str) -> (r: String)
    ensures
        r@ == nemo_action_text(exe@),
{
    string_of(&nemo_action_chars(&chars_of(exe)))
}

/// The service menu that Dolphin shows for the sorter at `exe`.
pub fn dolphin_desktop(exe: &str) -> (r: String)
    ensures
        r@ == dolphin_desktop_text(exe@),
{
    string_of(&dolphin_desktop_chars(&chars_of(exe)))
}

/// The command that the registry holds for the sorter at `exe`.
pub fn windows_command_value(exe: &str) -> (r: String)
    ensures
        r@ == windows_command_text(exe@),
{
    string_of(&windows_command_chars(&chars_of(exe)))
}

/// Whether the program at `exe` lies in a build folder: under a folder
/// named `target`, with either kind of separator.
pub open spec fn is_build_path(exe: Seq<char>) -> bool {
    occurs(exe, "/target/"@) || occurs(exe, "\\target\\"@)
}

/// Whether the program at `exe` lies in a build folder.
pub fn in_build_dir(exe: &str) -> (r: bool)
    ensures
        r == is_build_path(exe@),
{
    let e = chars_of(exe);
    contains(&e, &chars_of("/target/")) || contains(&e, &chars_of("\\target\\"))
}

/// The home folder, given what the variables `HOME` and `USERPROFILE`
/// hold: the first of the two that is set to an absolute path.
pub open spec fn chosen_home(home: Option<Seq<char>>, profile: Option<Seq<char>>) -> Option<
    Seq<char>,
> {
    if home is Some && is_absolute(home->0) {
        home
    } else if profile is Some && is_absolute(profile->0) {
        profile
    } else {
        None
    }
}

/// The text of `s`, where there is one.
pub open spec fn text_of(s: Option<&str>) -> Option<Seq<char>> {
    match s {
        Some(t) => Some(t@),
        None => None,
    }
}

/// The home folder, given what the variables `HOME` and `USERPROFILE`
/// hold.
pub fn home_dir(home: Option<&str>, profile: Option<&str>) -> (r: Option<String>)
    ensures
        match r {
            Some(h) => chosen_home(text_of(home), text_of(profile)) == Some(h@),
            None => chosen_home(text_of(home), text_of(profile)) is None,
        },
{
    match home {
        Some(h) => {
            let c = chars_of(h);
            if is_absolute_chars(&c) {
                return Some(string_of(&c));
            }
        },
        None => {},
    }
    match profile {
        Some(p) => {
            let c = chars_of(p);
            if is_absolute_chars(&c) {
                return Some(string_of(&c));
            }
        },
        None => {},
    }
    None
}

/// The system whose file manager the sorter is put into.
#[derive(Debug, Clone, Copy, PartialEq, Eq, Structural)]
pub enum Platform {
    /// The Finder, by a quick action.
    MacOs,
    /// Nautilus, Nemo and Dolphin.
    Linux,
    /// The Explorer, by the registry.
    Windows,
    /// A system that is not known.
    Other,
}

/// Why nothing can be installed or removed.
#[derive(Debug, Clone, Copy, PartialEq, Eq, Structural)]
pub enum InstallError {
    /// Neither `HOME` nor `USERPROFILE` names the home folder.
    NoHome,
    /// Nothing is known to install on this system.
    UnsupportedInstall,
    /// Nothing is known to remove on this system.
    UnsupportedRemoval,
}

/// One thing to do to the system.
#[derive(Debug, PartialEq, Eq)]
pub enum InstallStep {
    /// Remove the folder at `path` with all that is in it, if it is there.
    RemoveTree { path: String },
    /// Remove the file at `path`, if it is there.
    RemoveFile { path: String },
    /// Make the folder at `path` and every folder above it that is missing.
    CreateDirs { path: String },
    /// Write `content` to the file at `path`.
    WriteFile { path: String, content: String },
    /// Let everyone read and run the file at `path`, and its owner write it.
    MakeExecutable { path: String },
    /// Run `reg` with the arguments `args`.
    RunReg { args: Vec<String> },
    /// Run `reg` with the arguments `args`; where it fails there was nothing
    /// to do.
    TryReg { args: Vec<String> },
}

/// An [`InstallStep`] as text.
pub enum StepView {
    RemoveTree { path: Seq<char> },
    RemoveFile { path: Seq<char> },
    CreateDirs { path: Seq<char> },
    WriteFile { path: Seq<char>, content: Seq<char> },
    MakeExecutable { path: Seq<char> },
    RunReg { args: Seq<Seq<char>> },
    TryReg { args: Seq<Seq<char>> },
}

/// The strings of `v` as text.
pub open spec fn texts(v: Seq<String>) -> Seq<Seq<char>> {
    v.map_values(|s: String| s@)
}

impl View for InstallStep {
    type V = StepView;

    open spec fn view(&self) -> StepView {
        match self {
            InstallStep::RemoveTree { path } => StepView::RemoveTree { path: path@ },
            InstallStep::RemoveFile { path } => StepView::RemoveFile { path: path@ },
            InstallStep::CreateDirs { path } => StepView::CreateDirs { path: path@ },
            InstallStep::WriteFile { path, content } => StepView::WriteFile {
                path: path@,
                content: content@,
            },
            InstallStep::MakeExecutable { path } => StepView::MakeExecutable { path: path@ },
            InstallStep::RunReg { args } => StepView::RunReg { args: texts(args@) },
            InstallStep::TryReg { args } => StepView::TryReg { args: texts(args@) },
        }
    }
}

/// The steps of `v` as text.
pub open spec fn plan_view(v: Seq<InstallStep>) -> Seq<StepView> {
    v.map_values(|s: InstallStep| s@)
}

/// The registry key under which the Explorer looks for what to offer on a
/// folder.
pub open spec fn folder_key() -> Seq<char> {
    "HKCU\\Software\\Classes\\Directory\\shell\\tagmv"@
}

/// The registry key under which the Explorer looks for what to offer on the
/// ground of an open folder.
pub open spec fn background_key() -> Seq<char> {
    "HKCU\\Software\\Classes\\Directory\\Background\\shell\\tagmv"@
}

/// The step that sets the value of the registry key `key` to `value`.
pub open spec fn reg_add(key: Seq<char>, value: Seq<char>) -> StepView {
    StepView::RunReg { args: seq!["add"@, key, "/ve"@, "/d"@, value, "/f"@] }
}

/// The step that deletes the registry key `key`, if it is there.
pub open spec fn reg_delete(key: Seq<char>) -> StepView {
    StepView::TryReg { args: seq!["delete"@, key, "/f"@] }
}

/// The step that makes the folder which the file at `path` lies in, where
/// it lies in one.
pub open spec fn parent_dirs(path: Seq<char>) -> Seq<StepView> {
    match parent(path) {
        Some(dir) => seq![StepView::CreateDirs { path: dir }],
        None => Seq::empty(),
    }
}

/// What is done to put the sorter at `exe` into the Finder of the user
/// whose home folder is `home`: a workflow that is there is removed, and
/// the workflow is written anew.
pub open spec fn macos_install_plan(home: Seq<char>, exe: Seq<char>) -> Seq<StepView> {
    let dir = workflow_dir(home);
    let contents = join(dir, "Contents"@);
    seq![
        StepView::RemoveTree { path: dir },
        StepView::CreateDirs { path: contents },
        StepView::WriteFile {
            path: join(contents, "document.wflow"@),
            content: workflow_document(exe),
        },
        StepView::WriteFile { path: join(contents, "Info.plist"@), content: INFO_PLIST@ },
    ]
}

/// What is done to put the sorter at `exe` into Nautilus, Nemo and Dolphin
/// for the user whose home folder is `home`.
pub open spec fn linux_install_plan(home: Seq<char>, exe: Seq<char>) -> Seq<StepView> {
    parent_dirs(nautilus_path(home)) + seq![
        StepView::WriteFile { path: nautilus_path(home), content: nautilus_script_text(exe) },
        StepView::MakeExecutable { path: nautilus_path(home) },
    ] + parent_dirs(nemo_path(home)) + seq![
        StepView::WriteFile { path: nemo_path(home), content: nemo_action_text(exe) },
    ] + parent_dirs(dolphin_path(home)) + seq![
        StepView::WriteFile { path: dolphin_path(home), content: dolphin_desktop_text(exe) },
    ]
}

/// What is done to put the sorter at `exe` into the Explorer: it is offered
/// on a folder and on the ground of an open folder.
pub open spec fn windows_install_plan(exe: Seq<char>) -> Seq<StepView> {
    seq![
        reg_add(folder_key(), MENU_LABEL@),
        reg_add(folder_key() + "\\command"@, windows_command_text(exe)),
        reg_add(background_key(), MENU_LABEL@),
        reg_add(background_key() + "\\command"@, windows_command_text(exe)),
    ]
}

/// What is done to put the sorter at `exe` into the file manager of
/// `platform`, for the user whose home folder is `home`.
pub open spec fn install_plan(platform: Platform, home: Option<Seq<char>>, exe: Seq<char>)
    -> Result<Seq<StepView>, InstallError> {
    match platform {
        Platform::Other => Err(InstallError::UnsupportedInstall),
        Platform::Windows => Ok(windows_install_plan(exe)),
        Platform::MacOs => match home {
            Some(h) => Ok(macos_install_plan(h, exe)),
            None => Err(InstallError::NoHome),
        },
        Platform::Linux => match home {
            Some(h) => Ok(linux_install_plan(h, exe)),
            None => Err(InstallError::NoHome),
        },
    }
}

/// What is done to take the sorter out of the file manager of `platform`
/// again.
pub open spec fn uninstall_plan(platform: Platform, home: Option<Seq<char>>) -> Result<
    Seq<StepView>,
    InstallError,
> {
    match platform {
        Platform::Other => Err(InstallError::UnsupportedRemoval),
        Platform::Windows => Ok(seq![reg_delete(folder_key()), reg_delete(background_key())]),
        Platform::MacOs => match home {
            Some(h) => Ok(seq![StepView::RemoveTree { path: workflow_dir(h) }]),
            None => Err(InstallError::NoHome),
        },
        Platform::Linux => match home {
            Some(h) => Ok(
                seq![
                    StepView::RemoveFile { path: nautilus_path(h) },
                    StepView::RemoveFile { path: nemo_path(h) },
                    StepView::RemoveFile { path: dolphin_path(h) },
                ],
            ),
            None => Err(InstallError::NoHome),
        },
    }
}

fn text(s: &str) -> (r: String)
    ensures
        r@ == s@,
{
    string_of(&chars_of(s))
}

fn reg_add_step(key: &Vec<char>, value: &Vec<char>) -> (r: InstallStep)
    ensures
        r@ == reg_add(key@, value@),
{
    let mut args: Vec<String> = Vec::new();
    args.push(text("add"));
    args.push(string_of(key));
    args.push(text("/ve"));
    args.push(text("/d"));
    args.push(string_of(value));
    args.push(text("/f"));
    proof {
        assert(texts(args@) =~= seq!["add"@, key@, "/ve"@, "/d"@, value@, "/f"@]);
    }
    InstallStep::RunReg { args }
}

fn reg_delete_step(key: &Vec<char>) -> (r: InstallStep)
    ensures
        r@ == reg_delete(key@),
{
    let mut args: Vec<String> = Vec::new();
    args.push(text("delete"));
    args.push(string_of(key));
    args.push(text("/f"));
    proof {
        assert(texts(args@) =~= seq!["delete"@, key@, "/f"@]);
    }
    InstallStep::TryReg { args }
}

fn push_parent_dirs(plan: &mut Vec<InstallStep>, path: &Vec<char>)
    ensures
        plan_view(final(plan)@) == plan_view(old(plan)@) + parent_dirs(path@),
{
    match parent_chars(path) {
        Some(dir) => {
            plan.push(InstallStep::CreateDirs { path: string_of(&dir) });
            proof {
                assert(plan_view(plan@) =~= plan_view(old(plan)@) + parent_dirs(path@));
            }
        },
        None => {
            proof {
                assert(plan_view(plan@) =~= plan_view(old(plan)@) + parent_dirs(path@));
            }
        },
    }
}

fn push_step(plan: &mut Vec<InstallStep>, step: InstallStep)
    ensures
        plan_view(final(plan)@) == plan_view(old(plan)@).push(step@),
{
    plan.push(step);
    proof {
        assert(plan_view(plan@) =~= plan_view(old(plan)@).push(step@));
    }
}

fn macos_install(home: &str, exe: &str) -> (r: Vec<InstallStep>)
    ensures
        plan_view(r@) == macos_install_plan(home@, exe@),
{
    let dir = chars_of(macos_workflow_dir(home).as_str());
    let contents = join_chars(&dir, &chars_of("Contents"));
    let document = join_chars(&contents, &chars_of("document.wflow"));
    let plist = join_chars(&contents, &chars_of("Info.plist"));
    let mut plan: Vec<InstallStep> = Vec::new();
    push_step(&mut plan, InstallStep::RemoveTree { path: string_of(&dir) });
    push_step(&mut plan, InstallStep::CreateDirs { path: string_of(&contents) });
    push_step(
        &mut plan,
        InstallStep::WriteFile { path: string_of(&document), content: macos_document_wflow(exe) },
    );
    push_step(
        &mut plan,
        InstallStep::WriteFile { path: string_of(&plist), content: text(macos_info_plist()) },
    );
    proof {
        assert(plan_view(plan@) =~= macos_install_plan(home@, exe@));
    }
    plan
}

fn linux_install(home: &str, exe: &str) -> (r: Vec<InstallStep>)
    ensures
        plan_view(r@) == linux_install_plan(home@, exe@),
{
    let (nautilus, nemo, dolphin) = linux_paths(home);
    let exe_chars = chars_of(exe);
    let mut plan: Vec<InstallStep> = Vec::new();
    proof {
        assert(plan_view(plan@) =~= Seq::<StepView>::empty());
    }
    push_parent_dirs(&mut plan, &chars_of(nautilus.as_str()));
    push_step(
        &mut plan,
        InstallStep::WriteFile {
            path: nautilus.clone(),
            content: string_of(&nautilus_script_chars(&exe_chars)),
        },
    );
    push_step(&mut plan, InstallStep::MakeExecutable { path: nautilus });
    push_parent_dirs(&mut plan, &chars_of(nemo.as_str()));
    push_step(
        &mut plan,
        InstallStep::WriteFile { path: nemo, content: string_of(&nemo_action_chars(&exe_chars)) },
    );
    push_parent_dirs(&mut plan, &chars_of(dolphin.as_str()));
    push_step(
        &mut plan,
        InstallStep::WriteFile {
            path: dolphin,
            content: string_of(&dolphin_desktop_chars(&exe_chars)),
        },
    );
    proof {
        assert(plan_view(plan@) =~= linux_install_plan(home@, exe@));
    }
    plan
}

fn windows_install(exe: &str) -> (r: Vec<InstallStep>)
    ensures
        plan_view(r@) == windows_install_plan(exe@),
{
    let label = chars_of(MENU_LABEL);
    let command = windows_command_chars(&chars_of(exe));
    let folder = chars_of("HKCU\\Software\\Classes\\Directory\\shell\\tagmv");
    let background = chars_of("HKCU\\Software\\Classes\\Directory\\Background\\shell\\tagmv");
    let mut folder_command = chars_of("HKCU\\Software\\Classes\\Directory\\shell\\tagmv");
    append_str(&mut folder_command, "\\command");
    let mut background_command = chars_of(
        "HKCU\\Software\\Classes\\Directory\\Background\\shell\\tagmv",
    );
    append_str(&mut background_command, "\\command");
    let mut plan: Vec<InstallStep> = Vec::new();
    push_step(&mut plan, reg_add_step(&folder, &label));
    push_step(&mut plan, reg_add_step(&folder_command, &command));
    push_step(&mut plan, reg_add_step(&background, &label));
    push_step(&mut plan, reg_add_step(&background_command, &command));
    proof {
        assert(plan_view(plan@) =~= windows_install_plan(exe@));
    }
    plan
}

/// What is to be done to put the sorter at `exe` into the file manager of
/// `platform`, for the user whose home folder is `home`. The steps are to
/// be taken in order, and the first that fails ends the installation.
pub fn install_quick_action(platform: Platform, home: Option<&str>, exe: &str) -> (r: Result<
    Vec<InstallStep>,
    InstallError,
>)
    ensures
        match r {
            Ok(plan) => install_plan(platform, text_of(home), exe@) == Ok::<
                Seq<StepView>,
                InstallError,
            >(plan_view(plan@)),
            Err(e) => install_plan(platform, text_of(home), exe@) == Err::<
                Seq<StepView>,
                InstallError,
            >(e),
        },
{
    match platform {
        Platform::Other => Err(InstallError::UnsupportedInstall),
        Platform::Windows => Ok(windows_install(exe)),
        Platform::MacOs => match home {
            Some(h) => Ok(macos_install(h, exe)),
            None => Err(InstallError::NoHome),
        },
        Platform::Linux => match home {
            Some(h) => Ok(linux_install(h, exe)),
            None => Err(InstallError::NoHome),
        },
    }
}

/// What is to be done to take the sorter out of the file manager of
/// `platform` again. Every step is to be taken, whether or not there was
/// anything for it to remove.
pub fn uninstall_quick_action(platform: Platform, home: Option<&str>) -> (r: Result<
    Vec<InstallStep>,
    InstallError,
>)
    ensures
        match r {
            Ok(plan) => uninstall_plan(platform, text_of(home)) == Ok::<
                Seq<StepView>,
                InstallError,
            >(plan_view(plan@)),
            Err(e) => uninstall_plan(platform, text_of(home)) == Err::<
                Seq<StepView>,
                InstallError,
            >(e),
        },
{
    let mut plan: Vec<InstallStep> = Vec::new();
    match platform {
        Platform::Other => {
            return Err(InstallError::UnsupportedRemoval);
        },
        Platform::Windows => {
            let folder = chars_of("HKCU\\Software\\Classes\\Directory\\shell\\tagmv");
            let background = chars_of(
                "HKCU\\Software\\Classes\\Directory\\Background\\shell\\tagmv",
            );
            push_step(&mut plan, reg_delete_step(&folder));
            push_step(&mut plan, reg_delete_step(&background));
            proof {
                assert(plan_view(plan@) =~= seq![
                    reg_delete(folder_key()),
                    reg_delete(background_key()),
                ]);
            }
        },
        Platform::MacOs => match home {
            Some(h) => {
                push_step(&mut plan, InstallStep::RemoveTree { path: macos_workflow_dir(h) });
                proof {
                    assert(plan_view(plan@) =~= seq![
                        StepView::RemoveTree { path: workflow_dir(h@) },
                    ]);
                }
            },
            None => {
                return Err(InstallError::NoHome);
            },
        },
        Platform::Linux => match home {
            Some(h) => {
                let (nautilus, nemo, dolphin) = linux_paths(h);
                push_step(&mut plan, InstallStep::RemoveFile { path: nautilus });
                push_step(&mut plan, InstallStep::RemoveFile { path: nemo });
                push_step(&mut plan, InstallStep::RemoveFile { path: dolphin });
                proof {
                    assert(plan_view(plan@) =~= seq![
                        StepView::RemoveFile { path: nautilus_path(h@) },
                        StepView::RemoveFile { path: nemo_path(h@) },
                        StepView::RemoveFile { path: dolphin_path(h@) },
                    ]);
                }
            },
            None => {
                return Err(InstallError::NoHome);
            },
        },
    }
    Ok(plan)
}

impl InstallError {
    /// What the error says.
    pub open spec fn text(self) -> Seq<char> {
        match self {
            InstallError::NoHome =>
                "Could not determine home directory ($HOME / %USERPROFILE% not set)"@,
            InstallError::UnsupportedInstall =>
                "Unsupported platform for context menu installation"@,
            InstallError::UnsupportedRemoval => "Unsupported platform for context menu removal"@,
        }
    }

    /// What the error says.
    pub fn message(&self) -> (r: String)
        ensures
            r@ == self.text(),
    {
        match self {
            InstallError::NoHome => text(
                "Could not determine home directory ($HOME / %USERPROFILE% not set)",
            ),
            InstallError::UnsupportedInstall => text(
                "Unsupported platform for context menu installation",
            ),
            InstallError::UnsupportedRemoval => text(
                "Unsupported platform for context menu removal",
            ),
        }
    }
}

/// What is said to one who runs the sorter at `exe` out of a build folder:
/// that it had better be copied to a lasting place first, and how.
pub open spec fn build_dir_warning_text(exe: Seq<char>, windows: bool) -> Seq<Seq<char>> {
    if windows {
        seq![
            "Warning: You are running from a build directory."@,
            "Consider copying the binary to a stable location first:"@,
            "  copy "@ + exe + " %USERPROFILE%\\bin\\tagmv.exe"@,
            "  %USERPROFILE%\\bin\\tagmv.exe install"@,
            ""@,
        ]
    } else {
        seq![
            "Warning: You are running from a build directory."@,
            "Consider copying the binary to a stable location first:"@,
            "  cp "@ + exe + " ~/bin/tagmv"@,
            "  ~/bin/tagmv install"@,
            ""@,
        ]
    }
}

/// The lines that warn of a sorter at `exe` that lies in a build folder;
/// none where it does not lie in one.
pub fn warn_if_build_dir(exe: &str, windows: bool) -> (r: Vec<String>)
    ensures
        texts(r@) == if is_build_path(exe@) {
            build_dir_warning_text(exe@, windows)
        } else {
            Seq::empty()
        },
{
    let mut lines: Vec<String> = Vec::new();
    if !in_build_dir(exe) {
        proof {
            assert(texts(lines@) =~= Seq::<Seq<char>>::empty());
        }
        return lines;
    }
    lines.push(text("Warning: You are running from a build directory."));
    lines.push(text("Consider copying the binary to a stable location first:"));
    let mut copy: Vec<char> = Vec::new();
    if windows {
        append_str(&mut copy, "  copy ");
        append_str(&mut copy, exe);
        append_str(&mut copy, " %USERPROFILE%\\bin\\tagmv.exe");
        lines.push(string_of(&copy));
        lines.push(text("  %USERPROFILE%\\bin\\tagmv.exe install"));
        proof {
            assert(Seq::<char>::empty() + "  copy "@ == "  copy "@);
        }
    } else {
        append_str(&mut copy, "  cp ");
        append_str(&mut copy, exe);
        append_str(&mut copy, " ~/bin/tagmv");
        lines.push(string_of(&copy));
        lines.push(text("  ~/bin/tagmv install"));
        proof {
            assert(Seq::<char>::empty() + "  cp "@ == "  cp "@);
        }
    }
    lines.push(text(""));
    proof {
        assert(texts(lines@) =~= build_dir_warning_text(exe@, windows));
    }
    lines
}

} // verus!
