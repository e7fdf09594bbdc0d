//! The text of the files the desktop writes for its set-up: the page that
//! tells how to load the browser extension, and the Inno Setup script.
use vstd::prelude::*;
use crate::launch::{html_escape, html_escaped};
use crate::text::push_str;

verus! {
pub const ISS_HEAD: &'static str = "; Generated by NebulaDM\n[Setup]\nAppName=NebulaDM\nAppVersion=";
pub const ISS_AFTER_VERSION: &'static str = "\nDefaultDirName={autopf}\\NebulaDM\nDefaultGroupName=NebulaDM\nOutputDir=";
pub const ISS_AFTER_OUTPUT_DIR: &'static str = "\nOutputBaseFilename=NebulaDM-Setup\nCompression=lzma\nSolidCompression=yes\nWizardStyle=modern\nUninstallDisplayIcon={app}\\NebulaDM.exe\n\n[Files]\nSource: \"";
pub const ISS_AFTER_EXECUTABLE: &'static str = "\"; DestDir: \"{app}\"; DestName: \"NebulaDM.exe\"; Flags: ignoreversion\nSource: \"";
pub const ISS_TAIL: &'static str = "\\*\"; DestDir: \"{app}\\browser-extension\"; Flags: ignoreversion recursesubdirs createallsubdirs\n\n[Icons]\nName: \"{group}\\NebulaDM\"; Filename: \"{app}\\NebulaDM.exe\"\nName: \"{group}\\Uninstall NebulaDM\"; Filename: \"{uninstallexe}\"\n\n[Run]\nFilename: \"{app}\\NebulaDM.exe\"; Description: \"Launch NebulaDM\"; Flags: nowait postinstall skipifsilent\n";
pub const SETUP_PAGE_HEAD: &'static str = "<!doctype html>\n<html lang=\"en\">\n  <head>\n    <meta charset=\"utf-8\">\n    <meta name=\"viewport\" content=\"width=device-width, initial-scale=1\">\n    <title>NebulaDM Browser Extension Setup</title>\n    <style>\n      :root {\n        color-scheme: light;\n        font-family: \"Segoe UI\", sans-serif;\n      }\n      body {\n        margin: 0;\n        background:\n          radial-gradient(circle at top left, #ffe8bf, transparent 36%),\n          linear-gradient(160deg, #f7f2ea, #e7edf4);\n        color: #1f2933;\n      }\n      main {\n        max-width: 760px;\n        margin: 0 auto;\n        padding: 32px 20px 56px;\n      }\n      .card {\n        background: rgba(255, 255, 255, 0.86);\n        border: 1px solid rgba(17, 94, 89, 0.12);\n        border-radius: 20px;\n        padding: 24px;\n        box-shadow: 0 14px 36px rgba(31, 41, 51, 0.08);\n      }\n      h1 {\n        margin: 0 0 8px;\n        font-size: 28px;\n      }\n      p, li {\n        line-height: 1.55;\n      }\n      code {\n        display: block;\n        margin-top: 10px;\n        padding: 12px 14px;\n        border-radius: 12px;\n        background: #0f1720;\n        color: #d9e2ec;\n        word-break: break-all;\n      }\n      ol {\n        padding-left: 20px;\n      }\n    </style>\n  </head>\n  <body>\n    <main>\n      <div class=\"card\">\n        <h1>NebulaDM Browser Extension Setup</h1>\n        <p>Load the NebulaDM browser extension as an unpacked extension in your Chromium-based browser.</p>\n        <ol>\n          <li>Open your browser's extensions page.</li>\n          <li>Turn on Developer mode.</li>\n          <li>Choose <strong>Load unpacked</strong>.</li>\n          <li>Select this folder:</li>\n        </ol>\n        <code>";
pub const SETUP_PAGE_TAIL: &'static str = "</code>\n        <p>Chrome usually uses <code>chrome://extensions</code> and Edge usually uses <code>edge://extensions</code>.</p>\n      </div>\n    </main>\n  </body>\n</html>";

/// The page that tells how to load the unpacked browser extension from
/// `extension_path`, which it shows HTML-escaped.
pub fn extension_setup_page(extension_path: &str) -> (r: String)
    ensures
        r@ == SETUP_PAGE_HEAD@ + html_escaped(extension_path@) + SETUP_PAGE_TAIL@,
{
    let mut page = SETUP_PAGE_HEAD.to_owned();
    let escaped = html_escape(extension_path);
    push_str(&mut page, escaped.as_str());
    push_str(&mut page, SETUP_PAGE_TAIL);
    page
}

/// The Inno Setup script for `version`, writing the installer to
/// `installer_dir` and packing `executable` and the extension folder; the
/// three paths are HTML-escaped.
pub fn installer_script(version: &str, installer_dir: &str, executable: &str, extension_dir: &str) -> (r: String)
    ensures
        r@ == ISS_HEAD@ + version@ + ISS_AFTER_VERSION@ + html_escaped(installer_dir@) + ISS_AFTER_OUTPUT_DIR@
            + html_escaped(executable@) + ISS_AFTER_EXECUTABLE@ + html_escaped(extension_dir@) + ISS_TAIL@,
{
    let mut script = ISS_HEAD.to_owned();
    push_str(&mut script, version);
    push_str(&mut script, ISS_AFTER_VERSION);
    let dir = html_escape(installer_dir);
    push_str(&mut script, dir.as_str());
    push_str(&mut script, ISS_AFTER_OUTPUT_DIR);
    let exe = html_escape(executable);
    push_str(&mut script, exe.as_str());
    push_str(&mut script, ISS_AFTER_EXECUTABLE);
    let extension = html_escape(extension_dir);
    push_str(&mut script, extension.as_str());
    push_str(&mut script, ISS_TAIL);
    script
}

} // verus!
