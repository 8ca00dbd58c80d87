//! The scripts and files that set up hosts and workstations.

use vstd::prelude::*;
use crate::json::{json_text, render_json, rendered_json, JsonView};
use crate::number::{decimal, decimal_of};
use crate::paths::{joined, path_join};
use crate::shell::{shell_quote, shell_quoted};
use crate::text::outcome;

verus! {

pub const SUPERVISE_SERVICE_PATH: &'static str = "/etc/systemd/system/psht-supervise.service";

pub const SUPERVISE_TIMER_PATH: &'static str = "/etc/systemd/system/psht-supervise.timer";

pub const SUPERVISE_INTERVAL_SECS: u64 = 30;

/// What a host says of the release that workstations install.
pub struct CliUpdateManifest {
    pub version: String,
    pub forge_url: String,
}

/// A string in the notation of JSON.
pub open spec fn quoted(text: Seq<char>) -> Seq<char> {
    rendered_json(JsonView::Text(text))
}

/// What a host says of the release that workstations install, as JSON.
pub open spec fn manifest_text(version: Seq<char>, forge_url: Seq<char>) -> Seq<char> {
    "{\"version\":"@ + quoted(version) + ",\"forge_url\":"@ + quoted(forge_url) + "}"@
}

pub fn cli_update_manifest_json(manifest: &CliUpdateManifest) -> (r: String)
    ensures
        r@ == manifest_text(manifest.version@, manifest.forge_url@),
{
    let version = render_json(&json_text(manifest.version.as_str()));
    let forge_url = render_json(&json_text(manifest.forge_url.as_str()));
    let mut r = String::from_str("{\"version\":");
    r.append(version.as_str());
    r.append(",\"forge_url\":");
    r.append(forge_url.as_str());
    r.append("}");
    r
}

/// The script that installs the program on a workstation, points it at a host, and sets up
/// the project in the current directory.
pub open spec fn setup_text(
    hostname: Seq<char>,
    version: Seq<char>,
    forge_url: Seq<char>,
    manifest_json: Seq<char>,
) -> Seq<char> {
    r#"#!/bin/sh
set -e

cat >/dev/null <<'__PSHT_UPDATE_MANIFEST__'
"#@ + manifest_json
        + r#"
__PSHT_UPDATE_MANIFEST__

VERSION=""#@ + version
        + r#""
FORGE_URL="${PSHT_FORGE_URL:-"#@ + forge_url
        + r#"}"
FORGE_URL="${FORGE_URL%/}"
SOURCE_URL="${PSHT_SOURCE_URL:-$FORGE_URL}"
SOURCE_URL="${SOURCE_URL%/}"

detect_target() {
  os=$(uname -s)
  arch=$(uname -m)
  case "$os/$arch" in
    Linux/x86_64|Linux/amd64) echo "x86_64-unknown-linux-gnu" ;;
    Linux/aarch64|Linux/arm64) echo "aarch64-unknown-linux-gnu" ;;
    Darwin/x86_64|Darwin/amd64) echo "x86_64-apple-darwin" ;;
    Darwin/aarch64|Darwin/arm64) echo "aarch64-apple-darwin" ;;
    *) echo "unsupported platform: $os/$arch" >&2; exit 1 ;;
  esac
}

install_cli() {
  install_dir="$1"
  target=$(detect_target)
  asset_url="$FORGE_URL/releases/download/v$VERSION/psht-$VERSION-$target.tar.gz"
  tmpdir=$(mktemp -d)
  if curl -fsSL "$asset_url" -o "$tmpdir/psht.tar.gz" 2>/dev/null; then
    tar xzf "$tmpdir/psht.tar.gz" -C "$tmpdir"
    install -m 755 "$tmpdir/psht" "$install_dir/psht"
    rm -rf "$tmpdir"
    return 0
  fi

  echo "warning: no prebuilt psht release for $target at $asset_url" >&2
  if ! command -v cargo >/dev/null 2>&1; then
    echo "error: cargo not found; install Rust toolchain or use a forge with prebuilt assets for $target" >&2
    rm -rf "$tmpdir"
    exit 1
  fi

  source_root="$tmpdir/source-root"
  echo "-----> building psht from source (this can take a few minutes)" >&2
  cargo install --git "$SOURCE_URL" --tag "v$VERSION" --root "$source_root" --bin psht
  install -m 755 "$source_root/bin/psht" "$install_dir/psht"
  rm -rf "$tmpdir"
}

# Find or install psht CLI
if command -v psht >/dev/null 2>&1 && psht __is-cli >/dev/null 2>&1; then
  PSHT_BIN=$(command -v psht)
else
  printf "Install psht CLI to (default: ~/.local/bin): " >&2
  read -r install_dir < /dev/tty
  install_dir="${install_dir:-$HOME/.local/bin}"
  mkdir -p "$install_dir"
  install_cli "$install_dir"
  PSHT_BIN="$install_dir/psht"
  case ":$PATH:" in
    *":$install_dir:"*) ;;
    *) echo "NOTE: Add $install_dir to your PATH: export PATH=\"$install_dir:\$PATH\"" >&2 ;;
  esac
  echo "Installed psht CLI to $PSHT_BIN" >&2
fi

mkdir -p "$HOME/.psht"
config="$HOME/.psht/config.toml"
if [ ! -f "$config" ]; then
  echo 'host = ""#@
        + hostname + r#""' > "$config"
fi

"$PSHT_BIN" setup"#@
}

fn setup_script_text(
    hostname: &str,
    version: &str,
    forge_url: &str,
    manifest_json: &str,
) -> (r: String)
    ensures
        r@ == setup_text(hostname@, version@, forge_url@, manifest_json@),
{
    let mut r = String::from_str(r#"#!/bin/sh
set -e

cat >/dev/null <<'__PSHT_UPDATE_MANIFEST__'
"#);
    r.append(manifest_json);
    r.append(r#"
__PSHT_UPDATE_MANIFEST__

VERSION=""#);
    r.append(version);
    r.append(r#""
FORGE_URL="${PSHT_FORGE_URL:-"#);
    r.append(forge_url);
    r.append(r#"}"
FORGE_URL="${FORGE_URL%/}"
SOURCE_URL="${PSHT_SOURCE_URL:-$FORGE_URL}"
SOURCE_URL="${SOURCE_URL%/}"

detect_target() {
  os=$(uname -s)
  arch=$(uname -m)
  case "$os/$arch" in
    Linux/x86_64|Linux/amd64) echo "x86_64-unknown-linux-gnu" ;;
    Linux/aarch64|Linux/arm64) echo "aarch64-unknown-linux-gnu" ;;
    Darwin/x86_64|Darwin/amd64) echo "x86_64-apple-darwin" ;;
    Darwin/aarch64|Darwin/arm64) echo "aarch64-apple-darwin" ;;
    *) echo "unsupported platform: $os/$arch" >&2; exit 1 ;;
  esac
}

install_cli() {
  install_dir="$1"
  target=$(detect_target)
  asset_url="$FORGE_URL/releases/download/v$VERSION/psht-$VERSION-$target.tar.gz"
  tmpdir=$(mktemp -d)
  if curl -fsSL "$asset_url" -o "$tmpdir/psht.tar.gz" 2>/dev/null; then
    tar xzf "$tmpdir/psht.tar.gz" -C "$tmpdir"
    install -m 755 "$tmpdir/psht" "$install_dir/psht"
    rm -rf "$tmpdir"
    return 0
  fi

  echo "warning: no prebuilt psht release for $target at $asset_url" >&2
  if ! command -v cargo >/dev/null 2>&1; then
    echo "error: cargo not found; install Rust toolchain or use a forge with prebuilt assets for $target" >&2
    rm -rf "$tmpdir"
    exit 1
  fi

  source_root="$tmpdir/source-root"
  echo "-----> building psht from source (this can take a few minutes)" >&2
  cargo install --git "$SOURCE_URL" --tag "v$VERSION" --root "$source_root" --bin psht
  install -m 755 "$source_root/bin/psht" "$install_dir/psht"
  rm -rf "$tmpdir"
}

# Find or install psht CLI
if command -v psht >/dev/null 2>&1 && psht __is-cli >/dev/null 2>&1; then
  PSHT_BIN=$(command -v psht)
else
  printf "Install psht CLI to (default: ~/.local/bin): " >&2
  read -r install_dir < /dev/tty
  install_dir="${install_dir:-$HOME/.local/bin}"
  mkdir -p "$install_dir"
  install_cli "$install_dir"
  PSHT_BIN="$install_dir/psht"
  case ":$PATH:" in
    *":$install_dir:"*) ;;
    *) echo "NOTE: Add $install_dir to your PATH: export PATH=\"$install_dir:\$PATH\"" >&2 ;;
  esac
  echo "Installed psht CLI to $PSHT_BIN" >&2
fi

mkdir -p "$HOME/.psht"
config="$HOME/.psht/config.toml"
if [ ! -f "$config" ]; then
  echo 'host = ""#);
    r.append(hostname);
    r.append(r#""' > "$config"
fi

"$PSHT_BIN" setup"#);
    r
}

pub fn setup_script(hostname: &str, manifest: &CliUpdateManifest) -> (r: String)
    ensures
        r@ == setup_text(
            hostname@,
            manifest.version@,
            manifest.forge_url@,
            manifest_text(manifest.version@, manifest.forge_url@),
        ),
{
    let manifest_json = cli_update_manifest_json(manifest);
    setup_script_text(
        hostname,
        manifest.version.as_str(),
        manifest.forge_url.as_str(),
        manifest_json.as_str(),
    )
}

/// The script that brings the program on a workstation to a release.
pub open spec fn update_text(
    hostname: Seq<char>,
    version: Seq<char>,
    forge_url: Seq<char>,
    manifest_json: Seq<char>,
) -> Seq<char> {
    r#"#!/bin/sh
set -e

cat >/dev/null <<'__PSHT_UPDATE_MANIFEST__'
"#@ + manifest_json
        + r#"
__PSHT_UPDATE_MANIFEST__

PSHT_BIN=$(command -v psht) || { echo "psht not found. Run: ssh psht@"#@
        + hostname
        + r#" setup | sh" >&2; exit 1; }
FORGE_URL="${PSHT_FORGE_URL:-"#@ + forge_url
        + r#"}"
FORGE_URL="${FORGE_URL%/}"
SOURCE_URL="${PSHT_SOURCE_URL:-$FORGE_URL}"
SOURCE_URL="${SOURCE_URL%/}"

detect_target() {
  os=$(uname -s)
  arch=$(uname -m)
  case "$os/$arch" in
    Linux/x86_64|Linux/amd64) echo "x86_64-unknown-linux-gnu" ;;
    Linux/aarch64|Linux/arm64) echo "aarch64-unknown-linux-gnu" ;;
    Darwin/x86_64|Darwin/amd64) echo "x86_64-apple-darwin" ;;
    Darwin/aarch64|Darwin/arm64) echo "aarch64-apple-darwin" ;;
    *) echo "unsupported platform: $os/$arch" >&2; exit 1 ;;
  esac
}

current=$("$PSHT_BIN" --version 2>/dev/null | awk '{print $2}') || current=""
if [ "$current" = ""#@
        + version + "\" ]; then\n  echo \"psht "@ + version
        + r#" (up to date)" >&2
  exit 0
fi

target=$(detect_target)
asset_url="$FORGE_URL/releases/download/v"#@
        + version + "/psht-"@ + version
        + r#"-$target.tar.gz"
tmpdir=$(mktemp -d)
trap 'rm -rf "$tmpdir"' EXIT
candidate="$tmpdir/psht"
if curl -fsSL "$asset_url" -o "$tmpdir/psht.tar.gz" 2>/dev/null; then
  tar xzf "$tmpdir/psht.tar.gz" -C "$tmpdir"
else
  echo "warning: no prebuilt psht release for $target at $asset_url" >&2
  if ! command -v cargo >/dev/null 2>&1; then
    echo "error: cargo not found; install Rust toolchain or use a forge with prebuilt assets for $target" >&2
    exit 1
  fi
  source_root="$tmpdir/source-root"
  echo "-----> building psht from source (this can take a few minutes)" >&2
  cargo install --git "$SOURCE_URL" --tag "v"#@
        + version
        + r#"" --root "$source_root" --bin psht
  candidate="$source_root/bin/psht"
fi
if [ ! -x "$candidate" ]; then
  echo "error: downloaded archive missing executable psht binary" >&2
  exit 1
fi
candidate_version=$("$candidate" --version 2>/dev/null | awk '{print $2}') || candidate_version=""
if [ "$candidate_version" != ""#@
        + version
        + "\" ]; then\n  echo \"error: downloaded psht ${candidate_version:-unknown}, expected "@
        + version
        + r#"" >&2
  exit 1
fi
staged="$tmpdir/psht.new"
install -m 755 "$candidate" "$staged"
mv "$staged" "$PSHT_BIN"
installed=$("$PSHT_BIN" --version 2>/dev/null | awk '{print $2}') || installed=""
if [ "$installed" != ""#@
        + version + "\" ]; then\n  echo \"error: installed psht ${installed:-unknown}, expected "@
        + version + r#"" >&2
  exit 1
fi
echo "psht $installed (updated)" >&2"#@
}

fn update_script_text(
    hostname: &str,
    version: &str,
    forge_url: &str,
    manifest_json: &str,
) -> (r: String)
    ensures
        r@ == update_text(hostname@, version@, forge_url@, manifest_json@),
{
    let mut r = String::from_str(r#"#!/bin/sh
set -e

cat >/dev/null <<'__PSHT_UPDATE_MANIFEST__'
"#);
    r.append(manifest_json);
    r.append(r#"
__PSHT_UPDATE_MANIFEST__

PSHT_BIN=$(command -v psht) || { echo "psht not found. Run: ssh psht@"#);
    r.append(hostname);
    r.append(r#" setup | sh" >&2; exit 1; }
FORGE_URL="${PSHT_FORGE_URL:-"#);
    r.append(forge_url);
    r.append(r#"}"
FORGE_URL="${FORGE_URL%/}"
SOURCE_URL="${PSHT_SOURCE_URL:-$FORGE_URL}"
SOURCE_URL="${SOURCE_URL%/}"

detect_target() {
  os=$(uname -s)
  arch=$(uname -m)
  case "$os/$arch" in
    Linux/x86_64|Linux/amd64) echo "x86_64-unknown-linux-gnu" ;;
    Linux/aarch64|Linux/arm64) echo "aarch64-unknown-linux-gnu" ;;
    Darwin/x86_64|Darwin/amd64) echo "x86_64-apple-darwin" ;;
    Darwin/aarch64|Darwin/arm64) echo "aarch64-apple-darwin" ;;
    *) echo "unsupported platform: $os/$arch" >&2; exit 1 ;;
  esac
}

current=$("$PSHT_BIN" --version 2>/dev/null | awk '{print $2}') || current=""
if [ "$current" = ""#);
    r.append(version);
    r.append("\" ]; then\n  echo \"psht ");
    r.append(version);
    r.append(r#" (up to date)" >&2
  exit 0
fi

target=$(detect_target)
asset_url="$FORGE_URL/releases/download/v"#);
    r.append(version);
    r.append("/psht-");
    r.append(version);
    r.append(r#"-$target.tar.gz"
tmpdir=$(mktemp -d)
trap 'rm -rf "$tmpdir"' EXIT
candidate="$tmpdir/psht"
if curl -fsSL "$asset_url" -o "$tmpdir/psht.tar.gz" 2>/dev/null; then
  tar xzf "$tmpdir/psht.tar.gz" -C "$tmpdir"
else
  echo "warning: no prebuilt psht release for $target at $asset_url" >&2
  if ! command -v cargo >/dev/null 2>&1; then
    echo "error: cargo not found; install Rust toolchain or use a forge with prebuilt assets for $target" >&2
    exit 1
  fi
  source_root="$tmpdir/source-root"
  echo "-----> building psht from source (this can take a few minutes)" >&2
  cargo install --git "$SOURCE_URL" --tag "v"#);
    r.append(version);
    r.append(r#"" --root "$source_root" --bin psht
  candidate="$source_root/bin/psht"
fi
if [ ! -x "$candidate" ]; then
  echo "error: downloaded archive missing executable psht binary" >&2
  exit 1
fi
candidate_version=$("$candidate" --version 2>/dev/null | awk '{print $2}') || candidate_version=""
if [ "$candidate_version" != ""#);
    r.append(version);
    r.append("\" ]; then\n  echo \"error: downloaded psht ${candidate_version:-unknown}, expected ");
    r.append(version);
    r.append(r#"" >&2
  exit 1
fi
staged="$tmpdir/psht.new"
install -m 755 "$candidate" "$staged"
mv "$staged" "$PSHT_BIN"
installed=$("$PSHT_BIN" --version 2>/dev/null | awk '{print $2}') || installed=""
if [ "$installed" != ""#);
    r.append(version);
    r.append("\" ]; then\n  echo \"error: installed psht ${installed:-unknown}, expected ");
    r.append(version);
    r.append(r#"" >&2
  exit 1
fi
echo "psht $installed (updated)" >&2"#);
    r
}

pub fn update_script(hostname: &str, manifest: &CliUpdateManifest) -> (r: String)
    ensures
        r@ == update_text(
            hostname@,
            manifest.version@,
            manifest.forge_url@,
            manifest_text(manifest.version@, manifest.forge_url@),
        ),
{
    let manifest_json = cli_update_manifest_json(manifest);
    update_script_text(
        hostname,
        manifest.version.as_str(),
        manifest.forge_url.as_str(),
        manifest_json.as_str(),
    )
}

/// The unit that keeps the apps as they are meant to be.
pub open spec fn service_text(psht_bin: Seq<char>, home: Seq<char>) -> Seq<char> {
    r#"[Unit]
Description=psht desired-state supervision
After=network-online.target
Wants=network-online.target

[Service]
Type=oneshot
User=psht
Group=psht
WorkingDirectory="#@
        + home + "\nEnvironment=HOME="@ + home + "\nExecStart="@ + psht_bin + " supervise\n"@
}

pub fn supervise_service_unit_content(psht_bin: &str, home: &str) -> (r: String)
    ensures
        r@ == service_text(psht_bin@, home@),
{
    let mut r = String::from_str(r#"[Unit]
Description=psht desired-state supervision
After=network-online.target
Wants=network-online.target

[Service]
Type=oneshot
User=psht
Group=psht
WorkingDirectory="#);
    r.append(home);
    r.append("\nEnvironment=HOME=");
    r.append(home);
    r.append("\nExecStart=");
    r.append(psht_bin);
    r.append(" supervise\n");
    r
}

/// The timer of that unit.
pub open spec fn timer_text(interval_secs: u64) -> Seq<char> {
    "[Unit]\nDescription=Run psht supervision every "@ + decimal(interval_secs as nat)
        + r#"s

[Timer]
OnBootSec=30s
OnUnitActiveSec="#@ + decimal(interval_secs as nat)
        + r#"s
Persistent=true

[Install]
WantedBy=timers.target
"#@
}

pub fn supervise_timer_unit_content(interval_secs: u64) -> (r: String)
    ensures
        r@ == timer_text(interval_secs),
{
    let mut r = String::from_str("[Unit]\nDescription=Run psht supervision every ");
    let interval_secs_text = decimal_of(interval_secs as u64);
    r.append(interval_secs_text.as_str());
    r.append(r#"s

[Timer]
OnBootSec=30s
OnUnitActiveSec="#);
    r.append(interval_secs_text.as_str());
    r.append(r#"s
Persistent=true

[Install]
WantedBy=timers.target
"#);
    r
}

/// Where the packages of Incus come from.
pub open spec fn apt_source(codename: Seq<char>, arch: Seq<char>) -> Seq<char> {
    r#"Enabled: yes
Types: deb
URIs: https://pkgs.zabbly.com/incus/stable
Suites: "#@ + codename
        + r#"
Components: main
Architectures: "#@ + arch
        + r#"
Signed-By: /etc/apt/keyrings/zabbly.asc
"#@
}

pub fn incus_apt_source(codename: &str, arch: &str) -> (r: String)
    ensures
        r@ == apt_source(codename@, arch@),
{
    let mut r = String::from_str(r#"Enabled: yes
Types: deb
URIs: https://pkgs.zabbly.com/incus/stable
Suites: "#);
    r.append(codename);
    r.append(r#"
Components: main
Architectures: "#);
    r.append(arch);
    r.append(r#"
Signed-By: /etc/apt/keyrings/zabbly.asc
"#);
    r
}

/// The hook of the repositories: each revision that is pushed is deployed, as the app that
/// the repository is named after.
pub open spec fn hook_text(psht_bin: Seq<char>) -> Seq<char> {
    r#"#!/bin/sh
unset GIT_DIR
app=$(basename "$PWD" .git)
while read -r old new ref; do
  case "$new" in
    *[!0]*) "#@ + shell_quoted(psht_bin)
        + r#" deploy "$app" --ref "$ref" --sha "$new" </dev/null ;;
  esac
done
"#@
}

pub fn post_receive_hook(psht_bin: &str) -> (r: String)
    ensures
        r@ == hook_text(psht_bin@),
{
    let mut r = String::from_str(r#"#!/bin/sh
unset GIT_DIR
app=$(basename "$PWD" .git)
while read -r old new ref; do
  case "$new" in
    *[!0]*) "#);
    let quoted_bin = shell_quote(psht_bin);
    r.append(quoted_bin.as_str());
    r.append(r#" deploy "$app" --ref "$ref" --sha "$new" </dev/null ;;
  esac
done
"#);
    r
}

/// The file that keeps the credentials for the tailnet, which must both be given.
pub fn oauth_config_text(client_id: &str, client_secret: &str) -> (r: Result<String, String>)
    ensures
        outcome(r) == if client_id@.len() == 0 || client_secret@.len() == 0 {
            Err::<Seq<char>, Seq<char>>("OAuth client ID and secret are required"@)
        } else {
            Ok(
                "TS_OAUTH_CLIENT_ID="@ + client_id@ + "\nTS_OAUTH_CLIENT_SECRET="@ + client_secret@
                    + "\n"@,
            )
        },
{
    if client_id.is_empty() || client_secret.is_empty() {
        return Err(String::from_str("OAuth client ID and secret are required"));
    }
    let mut r = String::from_str("TS_OAUTH_CLIENT_ID=");
    r.append(client_id);
    r.append("\nTS_OAUTH_CLIENT_SECRET=");
    r.append(client_secret);
    r.append("\n");
    Ok(r)
}

/// The files of the stacks in a directory, by the names and scripts of the stacks.
pub open spec fn stack_files(dir: Seq<char>, stacks: Seq<(Seq<char>, Seq<char>)>) -> Seq<
    (Seq<char>, Seq<char>),
> {
    stacks.map_values(|stack: (Seq<char>, Seq<char>)| (joined(dir, stack.0 + ".sh"@), stack.1))
}

/// The files to write so that a directory holds the stacks.
pub fn init_stacks(dir: &str, stacks: &Vec<(String, String)>) -> (r: Vec<(String, String)>)
    ensures
        r.deep_view() == stack_files(dir@, stacks.deep_view()),
{
    let ghost files = stack_files(dir@, stacks.deep_view());
    let mut r: Vec<(String, String)> = Vec::new();
    let mut i: usize = 0;
    assert(r.deep_view() =~= files.take(0));
    while i < stacks.len()
        invariant
            i <= stacks@.len(),
            files == stack_files(dir@, stacks.deep_view()),
            r.deep_view() == files.take(i as int),
        decreases stacks.len() - i,
    {
        let mut name = stacks[i].0.clone();
        name.append(".sh");
        let path = path_join(dir, name.as_str());
        let file = (path, stacks[i].1.clone());
        assert(file.deep_view() == files[i as int]);
        let ghost before = r.deep_view();
        r.push(file);
        proof {
            assert(r.deep_view() =~= before.push(files[i as int]));
            assert(files.take(i + 1) =~= files.take(i as int).push(files[i as int]));
        }
        i = i + 1;
    }
    assert(files.take(i as int) =~= files);
    r
}

} // verus!
