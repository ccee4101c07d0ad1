//! Which download each Windows installer script fetches: every language runtime's script
//! downloads that runtime from its official site.
use vstd::prelude::*;

use crate::execution::{
    installer_script, prelude_for, DOTNET_INSTALLER, GO_INSTALLER, JAVA_INSTALLER, NODEJS_INSTALLER,
    PHP_INSTALLER, PYTHON_INSTALLER, RUBY_INSTALLER, RUST_INSTALLER,
};
use crate::models::NetworkProfile;

verus! {

/// `t` occurs in `s`.
pub open spec fn contains_text(s: Seq<char>, t: Seq<char>) -> bool {
    exists|i: int| 0 <= i && i + t.len() <= s.len() && #[trigger] s.subrange(i, i + t.len()) == t
}

proof fn lemma_contains_after(p: Seq<char>, b: Seq<char>, t: Seq<char>, i: int)
    requires
        0 <= i,
        i + t.len() <= b.len(),
        b.subrange(i, i + t.len()) == t,
    ensures
        contains_text(p + b, t),
{
    let j = p.len() + i;
    assert((p + b).subrange(j, j + t.len()) =~= t);
}

/// The `rust` installer downloads from `https://win.rustup.rs/x86_64`.
proof fn rust_installer_source(profile: NetworkProfile)
    ensures
        installer_script("rust"@, profile) matches Some(s) && contains_text(
            s,
            "https://win.rustup.rs/x86_64"@,
        ),
{
    reveal_strlit("rust");
    reveal_strlit("nodejs");
    reveal_strlit("python");
    reveal_strlit("java");
    reveal_strlit("go");
    reveal_strlit("dotnet");
    reveal_strlit("php");
    reveal_strlit("ruby");
    reveal_strlit("https://win.rustup.rs/x86_64");
    reveal_strlit(r#"
$file = Join-Path $downloadDir 'rustup-init.exe'
Download-File 'https://win.rustup.rs/x86_64' $file $null
& $file -y --default-toolchain stable
"#);
    let t = "https://win.rustup.rs/x86_64"@;
    assert(RUST_INSTALLER@.subrange(65, 65 + t.len() as int) =~= t);
    lemma_contains_after(prelude_for(profile) + "\n"@, RUST_INSTALLER@, t, 65);
}

/// The `nodejs` installer downloads from `https://nodejs.org/dist/index.json`.
proof fn nodejs_installer_source(profile: NetworkProfile)
    ensures
        installer_script("nodejs"@, profile) matches Some(s) && contains_text(
            s,
            "https://nodejs.org/dist/index.json"@,
        ),
{
    reveal_strlit("rust");
    reveal_strlit("nodejs");
    reveal_strlit("python");
    reveal_strlit("java");
    reveal_strlit("go");
    reveal_strlit("dotnet");
    reveal_strlit("php");
    reveal_strlit("ruby");
    reveal_strlit("https://nodejs.org/dist/index.json");
    reveal_strlit(r#"
$index = Invoke-ElvPathRest 'https://nodejs.org/dist/index.json' $null
$release = $index | Where-Object { $_.lts } | Select-Object -First 1
$version = $release.version
$fileName = "node-$version-win-x64.zip"
$url = "https://nodejs.org/dist/$version/$fileName"
$file = Join-Path $downloadDir $fileName
$target = Join-Path $toolsDir 'node'
Download-File $url $file $null
$staging = New-ZipStaging $file
$root = Get-ChildItem -LiteralPath $staging -Directory | Select-Object -First 1
if (-not $root) { throw "Node.js archive did not contain a root directory." }
Move-FreshDirectory $root.FullName $target
Remove-Item -LiteralPath $staging -Recurse -Force -ErrorAction SilentlyContinue
Add-UserPath $target
"#);
    assert("nodejs"@.len() != "rust"@.len());
    let t = "https://nodejs.org/dist/index.json"@;
    assert(NODEJS_INSTALLER@.subrange(30, 30 + t.len() as int) =~= t);
    lemma_contains_after(prelude_for(profile) + "\n"@, NODEJS_INSTALLER@, t, 30);
}

/// The `python` installer downloads from `https://www.python.org/ftp/python/3.12.0/python-3.12.0-amd64.exe`.
proof fn python_installer_source(profile: NetworkProfile)
    ensures
        installer_script("python"@, profile) matches Some(s) && contains_text(
            s,
            "https://www.python.org/ftp/python/3.12.0/python-3.12.0-amd64.exe"@,
        ),
{
    reveal_strlit("rust");
    reveal_strlit("nodejs");
    reveal_strlit("python");
    reveal_strlit("java");
    reveal_strlit("go");
    reveal_strlit("dotnet");
    reveal_strlit("php");
    reveal_strlit("ruby");
    reveal_strlit("https://www.python.org/ftp/python/3.12.0/python-3.12.0-amd64.exe");
    reveal_strlit(r#"
$url = 'https://www.python.org/ftp/python/3.12.0/python-3.12.0-amd64.exe'
$file = Join-Path $downloadDir 'python-3.12.0-amd64.exe'
Download-File $url $file $null
Start-Process -FilePath $file -ArgumentList @('/quiet','InstallAllUsers=0','PrependPath=1','Include_test=0') -Wait
"#);
    assert("python"@.len() != "rust"@.len());
    assert("python"@[0] != "nodejs"@[0]);
    let t = "https://www.python.org/ftp/python/3.12.0/python-3.12.0-amd64.exe"@;
    assert(PYTHON_INSTALLER@.subrange(9, 9 + t.len() as int) =~= t);
    lemma_contains_after(prelude_for(profile) + "\n"@, PYTHON_INSTALLER@, t, 9);
}

/// The `java` installer downloads from `https://api.adoptium.net/v3/binary/latest/21/ga/windows/x64/jdk/hotspot/normal/eclipse`.
proof fn java_installer_source(profile: NetworkProfile)
    ensures
        installer_script("java"@, profile) matches Some(s) && contains_text(
            s,
            "https://api.adoptium.net/v3/binary/latest/21/ga/windows/x64/jdk/hotspot/normal/eclipse"@,
        ),
{
    reveal_strlit("rust");
    reveal_strlit("nodejs");
    reveal_strlit("python");
    reveal_strlit("java");
    reveal_strlit("go");
    reveal_strlit("dotnet");
    reveal_strlit("php");
    reveal_strlit("ruby");
    reveal_strlit("https://api.adoptium.net/v3/binary/latest/21/ga/windows/x64/jdk/hotspot/normal/eclipse");
    reveal_strlit(r#"
$url = 'https://api.adoptium.net/v3/binary/latest/21/ga/windows/x64/jdk/hotspot/normal/eclipse'
$file = Join-Path $downloadDir 'temurin-jdk-21.zip'
$target = Join-Path $toolsDir 'jdk-21'
Download-File $url $file $null
$staging = New-ZipStaging $file
$root = Get-ChildItem -LiteralPath $staging -Directory | Select-Object -First 1
if (-not $root) { throw "Temurin archive did not contain a root directory." }
Move-FreshDirectory $root.FullName $target
Remove-Item -LiteralPath $staging -Recurse -Force -ErrorAction SilentlyContinue
[Environment]::SetEnvironmentVariable('JAVA_HOME', $target, 'User')
Add-UserPath (Join-Path $target 'bin')
"#);
    assert("java"@[0] != "rust"@[0]);
    assert("java"@.len() != "nodejs"@.len());
    assert("java"@.len() != "python"@.len());
    let t = "https://api.adoptium.net/v3/binary/latest/21/ga/windows/x64/jdk/hotspot/normal/eclipse"@;
    assert(JAVA_INSTALLER@.subrange(9, 9 + t.len() as int) =~= t);
    lemma_contains_after(prelude_for(profile) + "\n"@, JAVA_INSTALLER@, t, 9);
}

/// The `go` installer downloads from `https://go.dev/dl/?mode=json`.
proof fn go_installer_source(profile: NetworkProfile)
    ensures
        installer_script("go"@, profile) matches Some(s) && contains_text(
            s,
            "https://go.dev/dl/?mode=json"@,
        ),
{
    reveal_strlit("rust");
    reveal_strlit("nodejs");
    reveal_strlit("python");
    reveal_strlit("java");
    reveal_strlit("go");
    reveal_strlit("dotnet");
    reveal_strlit("php");
    reveal_strlit("ruby");
    reveal_strlit("https://go.dev/dl/?mode=json");
    reveal_strlit(r#"
$releases = Invoke-ElvPathRest 'https://go.dev/dl/?mode=json' $null
$release = $releases | Select-Object -First 1
$asset = $release.files | Where-Object { $_.os -eq 'windows' -and $_.arch -eq 'amd64' -and $_.kind -eq 'archive' } | Select-Object -First 1
if (-not $asset) { throw 'No official Go windows amd64 archive found.' }
$url = "https://go.dev/dl/$($asset.filename)"
$file = Join-Path $downloadDir $asset.filename
$target = Join-Path $toolsDir 'go'
Download-File $url $file $null
$staging = New-ZipStaging $file
$root = Join-Path $staging 'go'
if (-not (Test-Path -LiteralPath $root)) { throw "Go archive did not contain a go directory." }
Move-FreshDirectory $root $target
Remove-Item -LiteralPath $staging -Recurse -Force -ErrorAction SilentlyContinue
[Environment]::SetEnvironmentVariable('GOROOT', $target, 'User')
Add-UserPath (Join-Path $target 'bin')
"#);
    assert("go"@.len() != "rust"@.len());
    assert("go"@.len() != "nodejs"@.len());
    assert("go"@.len() != "python"@.len());
    assert("go"@.len() != "java"@.len());
    let t = "https://go.dev/dl/?mode=json"@;
    assert(GO_INSTALLER@.subrange(33, 33 + t.len() as int) =~= t);
    lemma_contains_after(prelude_for(profile) + "\n"@, GO_INSTALLER@, t, 33);
}

/// The `dotnet` installer downloads from `https://dot.net/v1/dotnet-install.ps1`.
proof fn dotnet_installer_source(profile: NetworkProfile)
    ensures
        installer_script("dotnet"@, profile) matches Some(s) && contains_text(
            s,
            "https://dot.net/v1/dotnet-install.ps1"@,
        ),
{
    reveal_strlit("rust");
    reveal_strlit("nodejs");
    reveal_strlit("python");
    reveal_strlit("java");
    reveal_strlit("go");
    reveal_strlit("dotnet");
    reveal_strlit("php");
    reveal_strlit("ruby");
    reveal_strlit("https://dot.net/v1/dotnet-install.ps1");
    reveal_strlit(r#"
$scriptFile = Join-Path $downloadDir 'dotnet-install.ps1'
$target = Join-Path $env:LOCALAPPDATA 'Microsoft\dotnet'
Download-File 'https://dot.net/v1/dotnet-install.ps1' $scriptFile $null
& $scriptFile -Channel 8.0 -InstallDir $target
Add-UserPath $target
"#);
    assert("dotnet"@.len() != "rust"@.len());
    assert("dotnet"@[0] != "nodejs"@[0]);
    assert("dotnet"@[0] != "python"@[0]);
    assert("dotnet"@.len() != "java"@.len());
    assert("dotnet"@.len() != "go"@.len());
    let t = "https://dot.net/v1/dotnet-install.ps1"@;
    assert(DOTNET_INSTALLER@.subrange(131, 131 + t.len() as int) =~= t);
    lemma_contains_after(prelude_for(profile) + "\n"@, DOTNET_INSTALLER@, t, 131);
}

/// The `php` installer downloads from `https://windows.php.net/downloads/releases/latest/php-8.3-nts-Win32-vs16-x64-latest.zip`.
proof fn php_installer_source(profile: NetworkProfile)
    ensures
        installer_script("php"@, profile) matches Some(s) && contains_text(
            s,
            "https://windows.php.net/downloads/releases/latest/php-8.3-nts-Win32-vs16-x64-latest.zip"@,
        ),
{
    reveal_strlit("rust");
    reveal_strlit("nodejs");
    reveal_strlit("python");
    reveal_strlit("java");
    reveal_strlit("go");
    reveal_strlit("dotnet");
    reveal_strlit("php");
    reveal_strlit("ruby");
    reveal_strlit("https://windows.php.net/downloads/releases/latest/php-8.3-nts-Win32-vs16-x64-latest.zip");
    reveal_strlit(r#"
$url = 'https://windows.php.net/downloads/releases/latest/php-8.3-nts-Win32-vs16-x64-latest.zip'
$file = Join-Path $downloadDir 'php-8.3-nts-Win32-vs16-x64-latest.zip'
$target = Join-Path $toolsDir 'php'
Download-File $url $file $null
Remove-Item -LiteralPath $target -Recurse -Force -ErrorAction SilentlyContinue
New-Item -ItemType Directory -Force -Path $target | Out-Null
$staging = New-ZipStaging $file
Get-ChildItem -LiteralPath $staging -Force | Move-Item -Destination $target
Remove-Item -LiteralPath $staging -Recurse -Force -ErrorAction SilentlyContinue
Add-UserPath $target
"#);
    assert("php"@.len() != "rust"@.len());
    assert("php"@.len() != "nodejs"@.len());
    assert("php"@.len() != "python"@.len());
    assert("php"@.len() != "java"@.len());
    assert("php"@.len() != "go"@.len());
    assert("php"@.len() != "dotnet"@.len());
    let t = "https://windows.php.net/downloads/releases/latest/php-8.3-nts-Win32-vs16-x64-latest.zip"@;
    assert(PHP_INSTALLER@.subrange(9, 9 + t.len() as int) =~= t);
    lemma_contains_after(prelude_for(profile) + "\n"@, PHP_INSTALLER@, t, 9);
}

/// The `ruby` installer downloads from `https://api.github.com/repos/oneclick/rubyinstaller2/releases/latest`.
proof fn ruby_installer_source(profile: NetworkProfile)
    ensures
        installer_script("ruby"@, profile) matches Some(s) && contains_text(
            s,
            "https://api.github.com/repos/oneclick/rubyinstaller2/releases/latest"@,
        ),
{
    reveal_strlit("rust");
    reveal_strlit("nodejs");
    reveal_strlit("python");
    reveal_strlit("java");
    reveal_strlit("go");
    reveal_strlit("dotnet");
    reveal_strlit("php");
    reveal_strlit("ruby");
    reveal_strlit("https://api.github.com/repos/oneclick/rubyinstaller2/releases/latest");
    reveal_strlit(r#"
$headers = @{ 'User-Agent' = 'ElvPath' }
$release = Invoke-ElvPathRest 'https://api.github.com/repos/oneclick/rubyinstaller2/releases/latest' $headers
$asset = $release.assets | Where-Object { $_.name -match '^rubyinstaller-devkit-.*-x64\.exe$' } | Select-Object -First 1
if (-not $asset) { throw 'No RubyInstaller x64 DevKit installer found.' }
$file = Join-Path $downloadDir $asset.name
Download-File $asset.browser_download_url $file $headers
Start-Process -FilePath $file -ArgumentList @('/verysilent','/tasks=modpath') -Wait
"#);
    assert("ruby"@[2] != "rust"@[2]);
    assert("ruby"@.len() != "nodejs"@.len());
    assert("ruby"@.len() != "python"@.len());
    assert("ruby"@[0] != "java"@[0]);
    assert("ruby"@.len() != "go"@.len());
    assert("ruby"@.len() != "dotnet"@.len());
    assert("ruby"@.len() != "php"@.len());
    let t = "https://api.github.com/repos/oneclick/rubyinstaller2/releases/latest"@;
    assert(RUBY_INSTALLER@.subrange(73, 73 + t.len() as int) =~= t);
    lemma_contains_after(prelude_for(profile) + "\n"@, RUBY_INSTALLER@, t, 73);
}

/// Law: on Windows, each language runtime's installer script downloads that runtime, from
/// its official site, whatever the network profile: rustup for `rust`, the Node.js index
/// for `nodejs`, the python.org installer for `python`, Temurin for `java`, the Go
/// downloads for `go`, dotnet-install for `dotnet`, windows.php.net for `php` and
/// RubyInstaller for `ruby`.
pub proof fn installers_fetch_their_own_runtime(profile: NetworkProfile)
    ensures
        installer_script("rust"@, profile) matches Some(s) && contains_text(s, "https://win.rustup.rs/x86_64"@),
        installer_script("nodejs"@, profile) matches Some(s) && contains_text(s, "https://nodejs.org/dist/index.json"@),
        installer_script("python"@, profile) matches Some(s) && contains_text(s, "https://www.python.org/ftp/python/3.12.0/python-3.12.0-amd64.exe"@),
        installer_script("java"@, profile) matches Some(s) && contains_text(s, "https://api.adoptium.net/v3/binary/latest/21/ga/windows/x64/jdk/hotspot/normal/eclipse"@),
        installer_script("go"@, profile) matches Some(s) && contains_text(s, "https://go.dev/dl/?mode=json"@),
        installer_script("dotnet"@, profile) matches Some(s) && contains_text(s, "https://dot.net/v1/dotnet-install.ps1"@),
        installer_script("php"@, profile) matches Some(s) && contains_text(s, "https://windows.php.net/downloads/releases/latest/php-8.3-nts-Win32-vs16-x64-latest.zip"@),
        installer_script("ruby"@, profile) matches Some(s) && contains_text(s, "https://api.github.com/repos/oneclick/rubyinstaller2/releases/latest"@),
{
    rust_installer_source(profile);
    nodejs_installer_source(profile);
    python_installer_source(profile);
    java_installer_source(profile);
    go_installer_source(profile);
    dotnet_installer_source(profile);
    php_installer_source(profile);
    ruby_installer_source(profile);
}

} // verus!
