use snag_core::setup::{cleanup_command, other_build, shortcut_script};

#[test]
fn shortcuts_are_removed_by_name() {
    assert_eq!(
        shortcut_script("Snag egui", r"C:\P\Snag egui\Snag-egui.exe", r"C:\P\Snag egui", true),
        "$ws = New-Object -ComObject WScript.Shell; $desktop = [Environment]::GetFolderPath('Desktop'); $menu = [Environment]::GetFolderPath('Programs'); foreach ($p in @(\"$desktop\\Snag egui.lnk\", \"$menu\\Snag egui.lnk\")) { if (Test-Path $p) { Remove-Item $p -Force } }"
    );
}

#[test]
fn shortcuts_point_at_the_installed_app() {
    let script = shortcut_script("Snag egui", r"C:\P\Snag egui\Snag-egui.exe", r"C:\P\Snag egui", false);
    assert!(script.ends_with(
        "{ $s = $ws.CreateShortcut($p); $s.TargetPath = 'C:\\P\\Snag egui\\Snag-egui.exe'; $s.WorkingDirectory = 'C:\\P\\Snag egui'; $s.Description = 'Snag egui'; $s.Save() }"
    ));
}

#[test]
fn the_folder_is_deleted_in_three_attempts() {
    assert_eq!(
        cleanup_command(r"C:\P\Snag egui"),
        "/c ping -n 2 127.0.0.1 >nul & rmdir /s /q \"C:\\P\\Snag egui\" >nul 2>&1 & ping -n 3 127.0.0.1 >nul & rmdir /s /q \"C:\\P\\Snag egui\" >nul 2>&1 & ping -n 5 127.0.0.1 >nul & rmdir /s /q \"C:\\P\\Snag egui\" >nul 2>&1"
    );
}

#[test]
fn other_builds_are_recognised() {
    assert!(other_build("Snag Tauri", "Snag egui"));
    assert!(!other_build("Snag egui", "Snag egui"));
    assert!(!other_build("Other", "Snag egui"));
}
