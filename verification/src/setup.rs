//! The installer's decisions: the scripts and registry commands it hands to
//! PowerShell, cmd and reg, and what it makes of other installed builds.
use vstd::prelude::*;
use crate::scan::{chars_of, has_prefix, push_text, same_chars, starts_with, texts};

verus! {

/// What is done to each shortcut: remove it, or (re)create it pointing at
/// `target`, started in `working`, described as `product`.
pub open spec fn shortcut_action(product: Seq<char>, target: Seq<char>, working: Seq<char>, remove: bool) -> Seq<char> {
    if remove {
        "if (Test-Path $p) { Remove-Item $p -Force }"@
    } else {
        "$s = $ws.CreateShortcut($p); $s.TargetPath = '"@ + target
            + "'; $s.WorkingDirectory = '"@ + working + "'; $s.Description = '"@ + product
            + "'; $s.Save()"@
    }
}

/// The PowerShell script that applies the action to the Desktop and Start
/// Menu shortcuts named after `product`.
pub open spec fn shortcut_script_of(product: Seq<char>, target: Seq<char>, working: Seq<char>, remove: bool) -> Seq<char> {
    "$ws = New-Object -ComObject WScript.Shell; $desktop = [Environment]::GetFolderPath('Desktop'); $menu = [Environment]::GetFolderPath('Programs'); foreach ($p in @(\"$desktop\\"@
        + product + ".lnk\", \"$menu\\"@ + product + ".lnk\")) { "@ + shortcut_action(
        product,
        target,
        working,
        remove,
    ) + " }"@
}

/// The script that creates (or, with `remove`, deletes) the shortcuts.
pub fn shortcut_script(product: &str, target: &str, working: &str, remove: bool) -> (r: String)
    ensures
        r@ == shortcut_script_of(product@, target@, working@, remove),
{
    let action = if remove {
        String::from_str("if (Test-Path $p) { Remove-Item $p -Force }")
    } else {
        let mut a = String::from_str("$s = $ws.CreateShortcut($p); $s.TargetPath = '");
        a.append(target);
        a.append("'; $s.WorkingDirectory = '");
        a.append(working);
        a.append("'; $s.Description = '");
        a.append(product);
        a.append("'; $s.Save()");
        a
    };
    let mut s = String::from_str(
        "$ws = New-Object -ComObject WScript.Shell; $desktop = [Environment]::GetFolderPath('Desktop'); $menu = [Environment]::GetFolderPath('Programs'); foreach ($p in @(\"$desktop\\",
    );
    s.append(product);
    s.append(".lnk\", \"$menu\\");
    s.append(product);
    s.append(".lnk\")) { ");
    s.append(action.as_str());
    s.append(" }");
    s
}

/// One attempt to delete the install folder after waiting `seconds`.
pub open spec fn removal_attempt(seconds: Seq<char>, dir: Seq<char>) -> Seq<char> {
    "ping -n "@ + seconds + " 127.0.0.1 >nul & rmdir /s /q \""@ + dir + "\" >nul 2>&1"@
}

/// The command line handed to `cmd` to delete the install folder once the
/// uninstaller has exited: three attempts, after 2, 3 and 5 seconds.
pub open spec fn cleanup_command_of(dir: Seq<char>) -> Seq<char> {
    "/c "@ + removal_attempt("2"@, dir) + " & "@ + removal_attempt("3"@, dir) + " & "@
        + removal_attempt("5"@, dir)
}

fn append_attempt(s: &mut String, seconds: &str, dir: &str)
    ensures
        final(s)@ == old(s)@ + removal_attempt(seconds@, dir@),
{
    s.append("ping -n ");
    s.append(seconds);
    s.append(" 127.0.0.1 >nul & rmdir /s /q \"");
    s.append(dir);
    s.append("\" >nul 2>&1");
}

/// The command line that deletes the install folder.
pub fn cleanup_command(dir: &str) -> (r: String)
    ensures
        r@ == cleanup_command_of(dir@),
{
    let mut s = String::from_str("/c ");
    append_attempt(&mut s, "2", dir);
    s.append(" & ");
    append_attempt(&mut s, "3", dir);
    s.append(" & ");
    append_attempt(&mut s, "5", dir);
    s
}

/// Whether a folder under `Programs` is another Snag build than `product`
/// (the caller checks that it is a folder).
pub fn other_build(name: &str, product: &str) -> (b: bool)
    ensures
        b == (name@ != product@ && starts_with(name@, "Snag"@)),
{
    let n = chars_of(name);
    !same_chars(&n, &chars_of(product)) && has_prefix(&n, &chars_of("Snag"))
}

/// Where Windows lists installed programs for the current user.
pub const UNINSTALL_KEY: &'static str = "HKCU\\Software\\Microsoft\\Windows\\CurrentVersion\\Uninstall";

/// The registry key of `product` under the uninstall list.
pub open spec fn product_key_of(product: Seq<char>) -> Seq<char> {
    UNINSTALL_KEY@ + "\\"@ + product
}

/// The registry key that lists `product` under "Add or remove programs".
pub fn product_key(product: &str) -> (r: String)
    ensures
        r@ == product_key_of(product@),
{
    let mut k = String::from_str(UNINSTALL_KEY);
    k.append("\\");
    k.append(product);
    k
}

/// The values written under the product's key, as name, type and data.
pub open spec fn registry_values_of(
    product: Seq<char>,
    version: Seq<char>,
    target: Seq<char>,
    dir: Seq<char>,
    uninstaller: Seq<char>,
    size_kb: Seq<char>,
) -> Seq<(Seq<char>, Seq<char>, Seq<char>)> {
    seq![
        ("DisplayName"@, "REG_SZ"@, product),
        ("DisplayVersion"@, "REG_SZ"@, version),
        ("Publisher"@, "REG_SZ"@, "rysted"@),
        ("DisplayIcon"@, "REG_SZ"@, target),
        ("InstallLocation"@, "REG_SZ"@, dir),
        ("UninstallString"@, "REG_SZ"@, "\""@ + uninstaller + "\" --uninstall"@),
        ("EstimatedSize"@, "REG_DWORD"@, size_kb),
        ("NoModify"@, "REG_DWORD"@, "1"@),
    ]
}

/// The arguments of `reg` that write one value under `key`.
pub open spec fn reg_add_of(key: Seq<char>, value: (Seq<char>, Seq<char>, Seq<char>)) -> Seq<Seq<char>> {
    seq!["add"@, key, "/v"@, value.0, "/t"@, value.1, "/d"@, value.2, "/f"@]
}

fn reg_add(key: &str, name: &str, kind: &str, data: &str) -> (r: Vec<String>)
    ensures
        texts(r@) == reg_add_of(key@, (name@, kind@, data@)),
{
    let mut r: Vec<String> = Vec::new();
    push_text(&mut r, "add");
    push_text(&mut r, key);
    push_text(&mut r, "/v");
    push_text(&mut r, name);
    push_text(&mut r, "/t");
    push_text(&mut r, kind);
    push_text(&mut r, "/d");
    push_text(&mut r, data);
    push_text(&mut r, "/f");
    assert(texts(r@) =~= reg_add_of(key@, (name@, kind@, data@)));
    r
}

/// The `reg` runs that register the installed app: one per value, in order.
/// `size_kb` is the payload's size in KiB, written out in decimal.
pub fn registry_commands(
    product: &str,
    version: &str,
    target: &str,
    dir: &str,
    uninstaller: &str,
    size_kb: &str,
) -> (r: Vec<Vec<String>>)
    ensures
        r@.len() == 8,
        forall|i: int|
            0 <= i < 8 ==> texts(#[trigger] r@[i]@) == reg_add_of(
                product_key_of(product@),
                registry_values_of(product@, version@, target@, dir@, uninstaller@, size_kb@)[i],
            ),
{
    let key = product_key(product);
    let k = key.as_str();
    let mut uninstall = String::from_str("\"");
    uninstall.append(uninstaller);
    uninstall.append("\" --uninstall");
    let mut r: Vec<Vec<String>> = Vec::new();
    r.push(reg_add(k, "DisplayName", "REG_SZ", product));
    r.push(reg_add(k, "DisplayVersion", "REG_SZ", version));
    r.push(reg_add(k, "Publisher", "REG_SZ", "rysted"));
    r.push(reg_add(k, "DisplayIcon", "REG_SZ", target));
    r.push(reg_add(k, "InstallLocation", "REG_SZ", dir));
    r.push(reg_add(k, "UninstallString", "REG_SZ", uninstall.as_str()));
    r.push(reg_add(k, "EstimatedSize", "REG_DWORD", size_kb));
    r.push(reg_add(k, "NoModify", "REG_DWORD", "1"));
    r
}

/// The `reg` run that removes the product's key.
pub fn registry_removal(product: &str) -> (r: Vec<String>)
    ensures
        texts(r@) == seq!["delete"@, product_key_of(product@), "/f"@],
{
    let key = product_key(product);
    let mut r: Vec<String> = Vec::new();
    push_text(&mut r, "delete");
    push_text(&mut r, key.as_str());
    push_text(&mut r, "/f");
    assert(texts(r@) =~= seq!["delete"@, product_key_of(product@), "/f"@]);
    r
}

/// Uninstalling deletes the very key that installing writes every value
/// under, and each product has a key of its own.
pub proof fn removal_undoes_registration(
    product: Seq<char>,
    version: Seq<char>,
    target: Seq<char>,
    dir: Seq<char>,
    uninstaller: Seq<char>,
    size_kb: Seq<char>,
    other: Seq<char>,
)
    ensures
        forall|i: int|
            0 <= i < 8 ==> (#[trigger] reg_add_of(
                product_key_of(product),
                registry_values_of(product, version, target, dir, uninstaller, size_kb)[i],
            ))[1] == seq!["delete"@, product_key_of(product), "/f"@][1],
        product_key_of(product) == product_key_of(other) ==> product == other,
{
    let prefix = UNINSTALL_KEY@ + "\\"@;
    assert(product_key_of(product) =~= prefix + product);
    assert(product_key_of(other) =~= prefix + other);
    if product_key_of(product) == product_key_of(other) {
        assert((prefix + product).skip(prefix.len() as int) =~= product);
        assert((prefix + other).skip(prefix.len() as int) =~= other);
    }
}

/// What to suggest when the app could not be written: Windows error 32
/// means the file is in use, that is, the app is running.
pub fn write_hint(os_error: Option<i32>) -> (r: &'static str)
    ensures
        r@ == (if os_error == Some(32i32) {
            "The app is running. Close it and run this installer again."@
        } else {
            "Could not write the file."@
        }),
{
    if os_error == Some(32i32) {
        "The app is running. Close it and run this installer again."
    } else {
        "Could not write the file."
    }
}

} // verus!
