use nebula_dm::setup::{extension_setup_page, installer_script};

fn escape(value: &str) -> String {
    value.replace('&', "&amp;").replace('<', "&lt;").replace('>', "&gt;").replace('"', "&quot;")
}

#[test]
fn setup_page_shows_the_escaped_folder() {
    let extension_path = escape("C:\\Apps\\Nebula <beta>\\browser-extension");
    let expected = format!(
        r#"<!doctype html>
<html lang="en">
  <head>
    <meta charset="utf-8">
    <meta name="viewport" content="width=device-width, initial-scale=1">
    <title>NebulaDM Browser Extension Setup</title>
    <style>
      :root {{
        color-scheme: light;
        font-family: "Segoe UI", sans-serif;
      }}
      body {{
        margin: 0;
        background:
          radial-gradient(circle at top left, #ffe8bf, transparent 36%),
          linear-gradient(160deg, #f7f2ea, #e7edf4);
        color: #1f2933;
      }}
      main {{
        max-width: 760px;
        margin: 0 auto;
        padding: 32px 20px 56px;
      }}
      .card {{
        background: rgba(255, 255, 255, 0.86);
        border: 1px solid rgba(17, 94, 89, 0.12);
        border-radius: 20px;
        padding: 24px;
        box-shadow: 0 14px 36px rgba(31, 41, 51, 0.08);
      }}
      h1 {{
        margin: 0 0 8px;
        font-size: 28px;
      }}
      p, li {{
        line-height: 1.55;
      }}
      code {{
        display: block;
        margin-top: 10px;
        padding: 12px 14px;
        border-radius: 12px;
        background: #0f1720;
        color: #d9e2ec;
        word-break: break-all;
      }}
      ol {{
        padding-left: 20px;
      }}
    </style>
  </head>
  <body>
    <main>
      <div class="card">
        <h1>NebulaDM Browser Extension Setup</h1>
        <p>Load the NebulaDM browser extension as an unpacked extension in your Chromium-based browser.</p>
        <ol>
          <li>Open your browser's extensions page.</li>
          <li>Turn on Developer mode.</li>
          <li>Choose <strong>Load unpacked</strong>.</li>
          <li>Select this folder:</li>
        </ol>
        <code>{extension_path}</code>
        <p>Chrome usually uses <code>chrome://extensions</code> and Edge usually uses <code>edge://extensions</code>.</p>
      </div>
    </main>
  </body>
</html>"#
    );
    assert_eq!(extension_setup_page("C:\\Apps\\Nebula <beta>\\browser-extension"), expected);
}

#[test]
fn installer_script_names_version_and_paths() {
    let expected = format!(
        r#"; Generated by NebulaDM
[Setup]
AppName=NebulaDM
AppVersion={}
DefaultDirName={{autopf}}\NebulaDM
DefaultGroupName=NebulaDM
OutputDir={}
OutputBaseFilename=NebulaDM-Setup
Compression=lzma
SolidCompression=yes
WizardStyle=modern
UninstallDisplayIcon={{app}}\NebulaDM.exe

[Files]
Source: "{}"; DestDir: "{{app}}"; DestName: "NebulaDM.exe"; Flags: ignoreversion
Source: "{}\*"; DestDir: "{{app}}\browser-extension"; Flags: ignoreversion recursesubdirs createallsubdirs

[Icons]
Name: "{{group}}\NebulaDM"; Filename: "{{app}}\NebulaDM.exe"
Name: "{{group}}\Uninstall NebulaDM"; Filename: "{{uninstallexe}}"

[Run]
Filename: "{{app}}\NebulaDM.exe"; Description: "Launch NebulaDM"; Flags: nowait postinstall skipifsilent
"#,
        "1.2.3",
        escape("D:\\dist\\installer"),
        escape("D:\\target\\release\\desktop.exe"),
        escape("D:\\extensions\\\"browser\""),
    );
    let script = installer_script(
        "1.2.3",
        "D:\\dist\\installer",
        "D:\\target\\release\\desktop.exe",
        "D:\\extensions\\\"browser\"",
    );
    assert_eq!(script, expected);
    assert!(script.starts_with("; Generated by NebulaDM\n[Setup]\nAppName=NebulaDM\nAppVersion=1.2.3\n"));
    assert!(script.contains("Source: \"D:\\extensions\\&quot;browser&quot;\\*\""));
}
