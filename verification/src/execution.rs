//! Runs one planned step, or shows what running it would do; builds the PowerShell
//! installers used for language runtimes on Windows.
use vstd::prelude::*;

use crate::models::{
    ConfigChangeTemplate, ExecutionRequest, ExecutionResult, ExecutionStatus, NetworkMode,
    NetworkProfile, OperatingSystem, PlannedStep, RollbackResult,
};
use crate::text::{
    double_single_quotes, escape_single_quotes, join_strings, join_with, same_text, split_lines,
    text_lines, trim_whitespace, trim_whitespace_str, views_of,
};

verus! {

/// What a finished process printed, and its exit status.
#[derive(Debug, Clone, PartialEq, Eq)]
pub struct ProcessOutput {
    pub status: i32,
    pub stdout: String,
    pub stderr: String,
}

/// Receives the output lines of a running step, for display as they come.
pub trait LineObserver {
    fn observe(&mut self, line: &str);
}

/// An observer that ignores every line.
pub struct NoopObserver;

impl LineObserver for NoopObserver {
    fn observe(&mut self, line: &str) {
    }
}

/// An observer, with the lines handed to it through this value so far.
pub struct HandedLines<'a, O: LineObserver + ?Sized> {
    observer: &'a mut O,
    handed: Ghost<Seq<Seq<char>>>,
}

impl<'a, O: LineObserver + ?Sized> HandedLines<'a, O> {
    /// The lines handed to the observer through this value, in order.
    pub closed spec fn lines(&self) -> Seq<Seq<char>> {
        self.handed@
    }

    /// Starts handing lines to `observer`.
    pub fn new(observer: &'a mut O) -> (r: Self)
        ensures
            r.lines() == Seq::<Seq<char>>::empty(),
    {
        HandedLines { observer, handed: Ghost(Seq::empty()) }
    }

    /// Hands `line` to the observer.
    pub fn hand(&mut self, line: &str)
        ensures
            final(self).lines() == old(self).lines().push(line@),
    {
        self.observer.observe(line);
        self.handed = Ghost(self.handed@.push(line@));
    }
}

/// Hands each line of `text` to the observer of `sink`, in order.
fn observe_lines<O: LineObserver + ?Sized>(text: &str, sink: &mut HandedLines<'_, O>)
    ensures
        final(sink).lines() == old(sink).lines() + text_lines(text@),
{
    let lines = split_lines(text);
    let ghost start = sink.lines();
    let mut k: usize = 0;
    while k < lines.len()
        invariant
            k <= lines.len(),
            views_of(lines@) == text_lines(text@),
            start == old(sink).lines(),
            sink.lines() == start + views_of(lines@).take(k as int),
        decreases lines.len() - k,
    {
        sink.hand(lines[k].as_str());
        assert(views_of(lines@).take(k + 1) =~= views_of(lines@).take(k as int).push(lines@[k as int]@));
        assert(sink.lines() =~= start + views_of(lines@).take(k + 1));
        k = k + 1;
    }
    assert(views_of(lines@).take(lines.len() as int) =~= views_of(lines@));
}

/// Runs a program with arguments; an error when it could not be started.
pub trait ProcessRunner {
    fn run(&self, program: &str, args: &[String]) -> Result<ProcessOutput, String>;

    /// Runs the program and hands each line of its output to the observer of `sink`: unless
    /// a runner streams lines as they come, the lines of standard output and then those of
    /// standard error, once the program has finished. The provided body gives back what
    /// `run` gives, and hands on nothing when `run` fails.
    fn run_with_observer<O: LineObserver + ?Sized>(
        &self,
        program: &str,
        args: &[String],
        sink: &mut HandedLines<'_, O>,
    ) -> (r: Result<ProcessOutput, String>)
        default_ensures
            call_ensures(Self::run, (self, program, args), r),
            match r {
                Ok(out) => final(sink).lines() == old(sink).lines() + text_lines(out.stdout@)
                    + text_lines(out.stderr@),
                Err(_) => final(sink).lines() == old(sink).lines(),
            },
    {
        match self.run(program, args) {
            Ok(output) => {
                observe_lines(output.stdout.as_str(), sink);
                observe_lines(output.stderr.as_str(), sink);
                Ok(output)
            },
            Err(error) => Err(error),
        }
    }
}

/// One run of a program: the program, its arguments, what came back, and the lines the
/// observer had been handed before and after it.
pub struct ProcessCall {
    pub program: Seq<char>,
    pub args: Seq<Seq<char>>,
    pub outcome: Result<ProcessOutput, String>,
    pub lines_before: Seq<Seq<char>>,
    pub lines_after: Seq<Seq<char>>,
}

/// A process runner, with the runs made through this value so far.
pub struct ProcessRuns<'a, R: ProcessRunner + ?Sized> {
    runner: &'a R,
    calls: Ghost<Seq<ProcessCall>>,
}

impl<'a, R: ProcessRunner + ?Sized> ProcessRuns<'a, R> {
    /// The runs made through this value, in order.
    pub closed spec fn calls(&self) -> Seq<ProcessCall> {
        self.calls@
    }

    /// Starts running programs through `runner`.
    pub fn new(runner: &'a R) -> (r: Self)
        ensures
            r.calls() == Seq::<ProcessCall>::empty(),
    {
        ProcessRuns { runner, calls: Ghost(Seq::empty()) }
    }

    /// Runs `program` with `args` through the runner, which hands the output lines to the
    /// observer of `sink`.
    pub fn run_with_observer<O: LineObserver + ?Sized>(
        &mut self,
        program: &str,
        args: &[String],
        sink: &mut HandedLines<'_, O>,
    ) -> (r: Result<ProcessOutput, String>)
        ensures
            final(self).calls() == old(self).calls().push(
                ProcessCall {
                    program: program@,
                    args: views_of(args@),
                    outcome: r,
                    lines_before: old(sink).lines(),
                    lines_after: final(sink).lines(),
                },
            ),
    {
        let ghost before = sink.lines();
        let r = self.runner.run_with_observer(program, args, sink);
        self.calls = Ghost(
            self.calls@.push(
                ProcessCall {
                    program: program@,
                    args: views_of(args@),
                    outcome: r,
                    lines_before: before,
                    lines_after: sink.lines(),
                },
            ),
        );
        r
    }
}

/// PowerShell that installs `rust` on Windows.
pub const RUST_INSTALLER: &'static str = r#"
$file = Join-Path $downloadDir 'rustup-init.exe'
Download-File 'https://win.rustup.rs/x86_64' $file $null
& $file -y --default-toolchain stable
"#;

/// PowerShell that installs `nodejs` on Windows.
pub const NODEJS_INSTALLER: &'static str = r#"
$index = Invoke-ElvPathRest 'https://nodejs.org/dist/index.json' $null
$release = $index | Where-Object { $_.lts } | Select-Object -First 1
$version = $release.version
$fileName = "node-$version-win-x64.zip"
$url = "https://nodejs.org/dist/$version/$fileName"
$file = Join-Path $downloadDir $fileName
$target = Join-Path $toolsDir 'node'
Download-File $url $file $null
$staging = New-ZipStaging $file
$root = Get-ChildItem -LiteralPath $staging -Directory | Select-Object -First 1
if (-not $root) { throw "Node.js archive did not contain a root directory." }
Move-FreshDirectory $root.FullName $target
Remove-Item -LiteralPath $staging -Recurse -Force -ErrorAction SilentlyContinue
Add-UserPath $target
"#;

/// PowerShell that installs `python` on Windows.
pub const PYTHON_INSTALLER: &'static str = r#"
$url = 'https://www.python.org/ftp/python/3.12.0/python-3.12.0-amd64.exe'
$file = Join-Path $downloadDir 'python-3.12.0-amd64.exe'
Download-File $url $file $null
Start-Process -FilePath $file -ArgumentList @('/quiet','InstallAllUsers=0','PrependPath=1','Include_test=0') -Wait
"#;

/// PowerShell that installs `java` on Windows.
pub const JAVA_INSTALLER: &'static str = r#"
$url = 'https://api.adoptium.net/v3/binary/latest/21/ga/windows/x64/jdk/hotspot/normal/eclipse'
$file = Join-Path $downloadDir 'temurin-jdk-21.zip'
$target = Join-Path $toolsDir 'jdk-21'
Download-File $url $file $null
$staging = New-ZipStaging $file
$root = Get-ChildItem -LiteralPath $staging -Directory | Select-Object -First 1
if (-not $root) { throw "Temurin archive did not contain a root directory." }
Move-FreshDirectory $root.FullName $target
Remove-Item -LiteralPath $staging -Recurse -Force -ErrorAction SilentlyContinue
[Environment]::SetEnvironmentVariable('JAVA_HOME', $target, 'User')
Add-UserPath (Join-Path $target 'bin')
"#;

/// PowerShell that installs `go` on Windows.
pub const GO_INSTALLER: &'static str = r#"
$releases = Invoke-ElvPathRest 'https://go.dev/dl/?mode=json' $null
$release = $releases | Select-Object -First 1
$asset = $release.files | Where-Object { $_.os -eq 'windows' -and $_.arch -eq 'amd64' -and $_.kind -eq 'archive' } | Select-Object -First 1
if (-not $asset) { throw 'No official Go windows amd64 archive found.' }
$url = "https://go.dev/dl/$($asset.filename)"
$file = Join-Path $downloadDir $asset.filename
$target = Join-Path $toolsDir 'go'
Download-File $url $file $null
$staging = New-ZipStaging $file
$root = Join-Path $staging 'go'
if (-not (Test-Path -LiteralPath $root)) { throw "Go archive did not contain a go directory." }
Move-FreshDirectory $root $target
Remove-Item -LiteralPath $staging -Recurse -Force -ErrorAction SilentlyContinue
[Environment]::SetEnvironmentVariable('GOROOT', $target, 'User')
Add-UserPath (Join-Path $target 'bin')
"#;

/// PowerShell that installs `dotnet` on Windows.
pub const DOTNET_INSTALLER: &'static str = r#"
$scriptFile = Join-Path $downloadDir 'dotnet-install.ps1'
$target = Join-Path $env:LOCALAPPDATA 'Microsoft\dotnet'
Download-File 'https://dot.net/v1/dotnet-install.ps1' $scriptFile $null
& $scriptFile -Channel 8.0 -InstallDir $target
Add-UserPath $target
"#;

/// PowerShell that installs `php` on Windows.
pub const PHP_INSTALLER: &'static str = r#"
$url = 'https://windows.php.net/downloads/releases/latest/php-8.3-nts-Win32-vs16-x64-latest.zip'
$file = Join-Path $downloadDir 'php-8.3-nts-Win32-vs16-x64-latest.zip'
$target = Join-Path $toolsDir 'php'
Download-File $url $file $null
Remove-Item -LiteralPath $target -Recurse -Force -ErrorAction SilentlyContinue
New-Item -ItemType Directory -Force -Path $target | Out-Null
$staging = New-ZipStaging $file
Get-ChildItem -LiteralPath $staging -Force | Move-Item -Destination $target
Remove-Item -LiteralPath $staging -Recurse -Force -ErrorAction SilentlyContinue
Add-UserPath $target
"#;

/// PowerShell that installs `ruby` on Windows.
pub const RUBY_INSTALLER: &'static str = r#"
$headers = @{ 'User-Agent' = 'ElvPath' }
$release = Invoke-ElvPathRest 'https://api.github.com/repos/oneclick/rubyinstaller2/releases/latest' $headers
$asset = $release.assets | Where-Object { $_.name -match '^rubyinstaller-devkit-.*-x64\.exe$' } | Select-Object -First 1
if (-not $asset) { throw 'No RubyInstaller x64 DevKit installer found.' }
$file = Join-Path $downloadDir $asset.name
Download-File $asset.browser_download_url $file $headers
Start-Process -FilePath $file -ArgumentList @('/verysilent','/tasks=modpath') -Wait
"#;

/// Opening of every installer script, up to the proxy settings.
pub const PRELUDE_HEAD: &'static str = r#"$ErrorActionPreference = 'Stop'
$ProgressPreference = 'SilentlyContinue'
$downloadDir = Join-Path $env:LOCALAPPDATA 'ElvPath\downloads'
$toolsDir = Join-Path $env:LOCALAPPDATA 'ElvPath\tools'
New-Item -ItemType Directory -Force -Path $downloadDir,$toolsDir | Out-Null
"#;

/// Helper functions of every installer script, after the proxy settings.
pub const PRELUDE_TAIL: &'static str = r#"function Write-ElvPath([string]$Message) {
  Write-Host "[elvpath] $Message"
}
function Download-File([string]$Url, [string]$OutFile, [hashtable]$Headers) {
  Write-ElvPath "download $Url"
  if (Test-Path -LiteralPath $OutFile) {
    Remove-Item -LiteralPath $OutFile -Force -ErrorAction SilentlyContinue
  }
  if (Get-Command curl.exe -ErrorAction SilentlyContinue) {
    $curlArgs = @('-L','--fail','--retry','3','--retry-delay','2','--connect-timeout','30','-o',$OutFile)
    if ($env:HTTPS_PROXY) {
      $curlArgs += @('--proxy', $env:HTTPS_PROXY)
    }
    if ($Headers) {
      foreach ($key in $Headers.Keys) {
        $curlArgs += @('-H', "${key}: $($Headers[$key])")
      }
    }
    $curlArgs += $Url
    & curl.exe @curlArgs
    if ($LASTEXITCODE -ne 0) {
      throw "curl.exe failed with exit code $LASTEXITCODE"
    }
    return
  }
  $params = @{ Uri = $Url; OutFile = $OutFile; UseBasicParsing = $true }
  if ($env:HTTPS_PROXY) {
    $params.Proxy = $env:HTTPS_PROXY
  }
  if ($Headers) {
    $params.Headers = $Headers
  }
  Invoke-WebRequest @params
}
function Invoke-ElvPathRest([string]$Url, [hashtable]$Headers) {
  Write-ElvPath "fetch metadata $Url"
  $params = @{ Uri = $Url; UseBasicParsing = $true }
  if ($env:HTTPS_PROXY) {
    $params.Proxy = $env:HTTPS_PROXY
  }
  if ($Headers) {
    $params.Headers = $Headers
  }
  Invoke-RestMethod @params
}
function New-ZipStaging([string]$ZipFile) {
  Add-Type -AssemblyName System.IO.Compression.FileSystem
  $staging = Join-Path $downloadDir ([Guid]::NewGuid().ToString())
  New-Item -ItemType Directory -Force -Path $staging | Out-Null
  Write-ElvPath "extract $ZipFile"
  [System.IO.Compression.ZipFile]::ExtractToDirectory($ZipFile, $staging)
  return $staging
}
function Move-FreshDirectory([string]$Source, [string]$Destination) {
  if (Test-Path -LiteralPath $Destination) {
    Remove-Item -LiteralPath $Destination -Recurse -Force
  }
  $parent = Split-Path -Parent $Destination
  New-Item -ItemType Directory -Force -Path $parent | Out-Null
  Move-Item -LiteralPath $Source -Destination $Destination
}
function Add-UserPath([string]$PathToAdd) {
  $current = [Environment]::GetEnvironmentVariable('Path', 'User')
  if ([string]::IsNullOrWhiteSpace($current)) {
    $parts = @()
  } else {
    $parts = $current -split ';' | Where-Object { -not [string]::IsNullOrWhiteSpace($_) }
  }
  $exists = $parts | Where-Object { $_ -ieq $PathToAdd } | Select-Object -First 1
  if (-not $exists) {
    $next = ($parts + $PathToAdd) -join ';'
    [Environment]::SetEnvironmentVariable('Path', $next, 'User')
  }
  if (($env:Path -split ';') -notcontains $PathToAdd) {
    $env:Path = "$env:Path;$PathToAdd"
  }
}
"#;

/// The installer body for the item with id `item_id`, for the language runtimes that have one.
pub open spec fn installer_body(item_id: Seq<char>) -> Option<Seq<char>> {
    if item_id == "rust"@ {
        Some(RUST_INSTALLER@)
    } else if item_id == "nodejs"@ {
        Some(NODEJS_INSTALLER@)
    } else if item_id == "python"@ {
        Some(PYTHON_INSTALLER@)
    } else if item_id == "java"@ {
        Some(JAVA_INSTALLER@)
    } else if item_id == "go"@ {
        Some(GO_INSTALLER@)
    } else if item_id == "dotnet"@ {
        Some(DOTNET_INSTALLER@)
    } else if item_id == "php"@ {
        Some(PHP_INSTALLER@)
    } else if item_id == "ruby"@ {
        Some(RUBY_INSTALLER@)
    } else {
        None
    }
}

/// The installer body for the item with id `item_id`.
fn installer_body_for(item_id: &str) -> (r: Option<&'static str>)
    ensures
        match installer_body(item_id@) {
            Some(b) => r matches Some(x) && x@ == b,
            None => r is None,
        },
{
    if same_text(item_id, "rust") {
        Some(RUST_INSTALLER)
    } else if same_text(item_id, "nodejs") {
        Some(NODEJS_INSTALLER)
    } else if same_text(item_id, "python") {
        Some(PYTHON_INSTALLER)
    } else if same_text(item_id, "java") {
        Some(JAVA_INSTALLER)
    } else if same_text(item_id, "go") {
        Some(GO_INSTALLER)
    } else if same_text(item_id, "dotnet") {
        Some(DOTNET_INSTALLER)
    } else if same_text(item_id, "php") {
        Some(PHP_INSTALLER)
    } else if same_text(item_id, "ruby") {
        Some(RUBY_INSTALLER)
    } else {
        None
    }
}

/// The proxy lines of an installer script: set only for a custom proxy with a URL that is
/// not blank, the URL trimmed and its single quotes doubled.
pub open spec fn proxy_setup(profile: NetworkProfile) -> Seq<char> {
    match profile.proxy_url {
        Some(url) => if profile.mode == NetworkMode::CustomProxy && trim_whitespace(url@).len() > 0 {
            let u = double_single_quotes(trim_whitespace(url@));
            "$env:HTTP_PROXY = '"@ + u + "'\n$env:HTTPS_PROXY = '"@ + u + "'\n"@
        } else {
            Seq::empty()
        },
        None => Seq::empty(),
    }
}

/// The common opening of the installer scripts for `profile`.
pub open spec fn prelude_for(profile: NetworkProfile) -> Seq<char> {
    PRELUDE_HEAD@ + proxy_setup(profile) + PRELUDE_TAIL@
}

/// The installer script for the item `item_id` under `profile`, if the item has one.
pub open spec fn installer_script(item_id: Seq<char>, profile: NetworkProfile) -> Option<Seq<char>> {
    match installer_body(item_id) {
        Some(b) => Some(prelude_for(profile) + "\n"@ + b),
        None => None,
    }
}

/// `value` with every single quote doubled, for use inside a PowerShell single-quoted string.
pub fn escape_powershell_single_quoted(value: &str) -> (r: String)
    ensures
        r@ == double_single_quotes(value@),
{
    escape_single_quotes(value)
}

/// The common opening of the installer scripts: strict error handling, the download and
/// tool folders, the proxy settings of a custom proxy, and the download helpers.
pub fn powershell_prelude(network_profile: &NetworkProfile) -> (r: String)
    ensures
        r@ == prelude_for(*network_profile),
{
    let mut setup = String::new();
    if network_profile.mode == NetworkMode::CustomProxy {
        if let Some(url) = &network_profile.proxy_url {
            let trimmed = trim_whitespace_str(url.as_str());
            if !trimmed.as_str().is_empty() {
                let escaped = escape_powershell_single_quoted(trimmed.as_str());
                setup.append("$env:HTTP_PROXY = '");
                setup.append(escaped.as_str());
                setup.append("'\n$env:HTTPS_PROXY = '");
                setup.append(escaped.as_str());
                setup.append("'\n");
            }
        }
    }
    assert(setup@ =~= proxy_setup(*network_profile));
    let mut script = String::from_str(PRELUDE_HEAD);
    script.append(setup.as_str());
    script.append(PRELUDE_TAIL);
    script
}

/// The PowerShell script that installs the language runtime of `step` on Windows, if its
/// item has one: the common opening, then the item's installer.
pub fn windows_language_installer_script(step: &PlannedStep, network_profile: &NetworkProfile) -> (r:
    Option<String>)
    ensures
        match installer_script(step.item_id@, *network_profile) {
            Some(s) => r matches Some(x) && x@ == s,
            None => r is None,
        },
{
    match installer_body_for(step.item_id.as_str()) {
        Some(body) => {
            let mut script = powershell_prelude(network_profile);
            script.append("\n");
            script.append(body);
            Some(script)
        },
        None => None,
    }
}

/// What a dry run shows for a step with this command, arguments and download location.
pub open spec fn preview_text(command: Option<Seq<char>>, args: Seq<Seq<char>>, url: Option<Seq<char>>) -> Seq<
    char,
> {
    match (command, url) {
        (Some(c), Some(u)) => "Dry run: download "@ + u + ", then run `"@ + c + " "@ + join_with(args, " "@)
            + "`"@,
        (Some(c), None) => "Dry run: run `"@ + c + " "@ + join_with(args, " "@) + "`"@,
        (None, Some(u)) => "Dry run: download "@ + u,
        (None, None) => "Dry run: configuration-only step"@,
    }
}

/// The view of an optional text.
pub open spec fn opt_view(x: Option<&str>) -> Option<Seq<char>> {
    match x {
        Some(s) => Some(s@),
        None => None,
    }
}

/// The view of an optional string.
pub open spec fn opt_string_view(x: Option<String>) -> Option<Seq<char>> {
    match x {
        Some(s) => Some(s@),
        None => None,
    }
}

/// What a dry run shows: the download, then the command with its arguments.
pub fn command_preview(command: Option<&str>, args: &[String], url: Option<&str>) -> (r: String)
    ensures
        r@ == preview_text(opt_view(command), views_of(args@), opt_view(url)),
{
    let joined = join_strings(args, " ");
    match (command, url) {
        (Some(command), Some(url)) => {
            let mut m = String::from_str("Dry run: download ");
            m.append(url);
            m.append(", then run `");
            m.append(command);
            m.append(" ");
            m.append(joined.as_str());
            m.append("`");
            m
        },
        (Some(command), None) => {
            let mut m = String::from_str("Dry run: run `");
            m.append(command);
            m.append(" ");
            m.append(joined.as_str());
            m.append("`");
            m
        },
        (None, Some(url)) => {
            let mut m = String::from_str("Dry run: download ");
            m.append(url);
            m
        },
        (None, None) => String::from_str("Dry run: configuration-only step"),
    }
}

/// Reports the configuration change to undo and how to undo it.
pub fn rollback_config_change(change: ConfigChangeTemplate) -> (r: RollbackResult)
    ensures
        r.target == change.target,
        r.message == change.rollback.en,
{
    RollbackResult { target: change.target, message: change.rollback.en }
}

/// What a step that needs administrator rights reports when the process does not have them.
pub const NEEDS_PRIVILEGE_MESSAGE: &'static str = "This step requires administrator privileges. Re-run through the platform elevation prompt.";

/// What a step without a command reports.
pub const NO_COMMAND_MESSAGE: &'static str = "No executable command is defined for this step.";

/// The network profile of a request: the one it names, else the default one.
pub open spec fn effective_profile(request: ExecutionRequest) -> NetworkProfile {
    match request.network_profile {
        Some(p) => p,
        None => NetworkProfile { mode: NetworkMode::Official, proxy_url: None, mirror_region: None },
    }
}

/// The arguments that run `script` in PowerShell, without profile and without policy checks.
pub open spec fn powershell_args(script: Seq<char>) -> Seq<Seq<char>> {
    seq!["-NoProfile"@, "-ExecutionPolicy"@, "Bypass"@, "-Command"@, script]
}

/// The request runs a Windows language installer.
pub open spec fn runs_installer(request: ExecutionRequest, platform: OperatingSystem) -> bool {
    &&& !request.dry_run
    &&& platform == OperatingSystem::Windows
    &&& installer_script(request.step.item_id@, effective_profile(request)) is Some
}

/// Whether the outcome of the request depends on the process running with administrator
/// rights: only then does it need to be asked.
pub open spec fn needs_privilege_answer(request: ExecutionRequest, platform: OperatingSystem) -> bool {
    !request.dry_run && !runs_installer(request, platform) && request.step.permissions.requires_admin
}

/// What running a step comes down to.
pub enum StepAction {
    /// The step ends here, with this result.
    Finish(ExecutionResult),
    /// The step runs `program` with `args`.
    Launch { program: String, args: Vec<String> },
}

/// `r` is a result for step `step_id` that ends with `message` and `status`.
pub open spec fn is_final_result(
    r: ExecutionResult,
    step: PlannedStep,
    status: ExecutionStatus,
    message: Seq<char>,
) -> bool {
    r.step_id == step.id && r.status == status && r.message@ == message && r.log_path is None
}

/// `a` is what the request comes to on `platform`, with or without administrator rights:
/// a dry run shows what would run; a Windows language runtime runs its PowerShell
/// installer; a step that needs rights that are missing stops; a step without a command
/// fails; any other step runs its command.
pub open spec fn is_step_action(
    a: StepAction,
    request: ExecutionRequest,
    platform: OperatingSystem,
    elevated: bool,
) -> bool {
    let step = request.step;
    if request.dry_run {
        a matches StepAction::Finish(r) && is_final_result(
            r,
            step,
            ExecutionStatus::DryRun,
            preview_text(opt_string_view(step.command), views_of(step.args@), opt_string_view(step.url)),
        )
    } else if runs_installer(request, platform) {
        a matches StepAction::Launch { program, args } && program@ == "powershell.exe"@ && views_of(args@)
            == powershell_args(installer_script(step.item_id@, effective_profile(request))->Some_0)
    } else if step.permissions.requires_admin && !elevated {
        a matches StepAction::Finish(r) && is_final_result(
            r,
            step,
            ExecutionStatus::NeedsPrivilege,
            NEEDS_PRIVILEGE_MESSAGE@,
        )
    } else {
        match step.command {
            None => a matches StepAction::Finish(r) && is_final_result(
                r,
                step,
                ExecutionStatus::Failed,
                NO_COMMAND_MESSAGE@,
            ),
            Some(c) => a matches StepAction::Launch { program, args } && program == c && args@
                == step.args@,
        }
    }
}

/// `r` reports how running `program` for step `step_id` went: status 0 completes the
/// step, any other status fails it, and the message is the trimmed output; a program that
/// could not be started fails the step with a message that says so.
pub open spec fn is_process_result(
    r: ExecutionResult,
    step_id: Seq<char>,
    program: Seq<char>,
    outcome: Result<ProcessOutput, String>,
) -> bool {
    &&& r.step_id@ == step_id
    &&& r.log_path is None
    &&& match outcome {
        Ok(o) => {
            &&& r.status == (if o.status == 0 {
                ExecutionStatus::Completed
            } else {
                ExecutionStatus::Failed
            })
            &&& r.message@ == trim_whitespace(o.stdout@ + "\n"@ + o.stderr@)
        },
        Err(e) => {
            &&& r.status == ExecutionStatus::Failed
            &&& r.message@ == "Program not found or could not be started: "@ + program + ". "@ + e@
        },
    }
}

/// `r` is a result that running the request can give on `platform`, whatever the
/// launched program does.
pub open spec fn is_execution_result(
    r: ExecutionResult,
    request: ExecutionRequest,
    platform: OperatingSystem,
    elevated: bool,
) -> bool {
    exists|a: StepAction|
        #[trigger] is_step_action(a, request, platform, elevated) && match a {
            StepAction::Finish(f) => r == f,
            StepAction::Launch { program, args } => exists|o: Result<ProcessOutput, String>|
                #[trigger] is_process_result(r, request.step.id@, program@, o),
        }
}

/// Whether the outcome of `request` depends on the process running with administrator
/// rights.
pub fn privilege_check_needed(request: &ExecutionRequest, platform: OperatingSystem) -> (r: bool)
    ensures
        r == needs_privilege_answer(*request, platform),
{
    if request.dry_run || !request.step.permissions.requires_admin {
        return false;
    }
    let profile = match &request.network_profile {
        Some(p) => p.duplicate(),
        None => NetworkProfile::default(),
    };
    if platform == OperatingSystem::Windows {
        let script = windows_language_installer_script(&request.step, &profile);
        if script.is_some() {
            return false;
        }
    }
    true
}

/// A result that ends step `step` with `status` and `message`.
fn final_result(step: &PlannedStep, status: ExecutionStatus, message: &str) -> (r: ExecutionResult)
    ensures
        is_final_result(r, *step, status, message@),
{
    ExecutionResult { step_id: step.id.clone(), status, message: String::from_str(message), log_path: None }
}

/// The view of an optional string as an optional text.
fn as_text(x: &Option<String>) -> (r: Option<&str>)
    ensures
        opt_view(r) == opt_string_view(*x),
{
    match x {
        Some(s) => Some(s.as_str()),
        None => None,
    }
}

/// Decides what running `request` on `platform` comes to; `elevated` tells whether the
/// process has administrator rights, and matters only where
/// [`privilege_check_needed`] says so.
pub fn decide_step_action(request: &ExecutionRequest, platform: OperatingSystem, elevated: bool) -> (a:
    StepAction)
    ensures
        is_step_action(a, *request, platform, elevated),
{
    let step = &request.step;
    if request.dry_run {
        let preview = command_preview(as_text(&step.command), step.args.as_slice(), as_text(&step.url));
        return StepAction::Finish(
            ExecutionResult { step_id: step.id.clone(), status: ExecutionStatus::DryRun, message: preview, log_path: None },
        );
    }
    let profile = match &request.network_profile {
        Some(p) => p.duplicate(),
        None => NetworkProfile::default(),
    };
    assert(profile == effective_profile(*request));
    if platform == OperatingSystem::Windows {
        if let Some(script) = windows_language_installer_script(step, &profile) {
            let mut args: Vec<String> = Vec::new();
            args.push(String::from_str("-NoProfile"));
            args.push(String::from_str("-ExecutionPolicy"));
            args.push(String::from_str("Bypass"));
            args.push(String::from_str("-Command"));
            let ghost sv = script@;
            args.push(script);
            assert(views_of(args@) =~= powershell_args(sv));
            return StepAction::Launch { program: String::from_str("powershell.exe"), args };
        }
    }
    if step.permissions.requires_admin && !elevated {
        return StepAction::Finish(final_result(step, ExecutionStatus::NeedsPrivilege, NEEDS_PRIVILEGE_MESSAGE));
    }
    match &step.command {
        None => StepAction::Finish(final_result(step, ExecutionStatus::Failed, NO_COMMAND_MESSAGE)),
        Some(command) => StepAction::Launch { program: command.clone(), args: step.args.clone() },
    }
}

/// The result of step `step_id` after running `program` came to `outcome`.
pub fn process_result(step_id: &str, program: &str, outcome: &Result<ProcessOutput, String>) -> (r:
    ExecutionResult)
    ensures
        is_process_result(r, step_id@, program@, *outcome),
{
    match outcome {
        Ok(output) => {
            let status = if output.status == 0 {
                ExecutionStatus::Completed
            } else {
                ExecutionStatus::Failed
            };
            let mut combined = output.stdout.clone();
            combined.append("\n");
            combined.append(output.stderr.as_str());
            let message = trim_whitespace_str(combined.as_str());
            ExecutionResult { step_id: String::from_str(step_id), status, message, log_path: None }
        },
        Err(error) => {
            let mut message = String::from_str("Program not found or could not be started: ");
            message.append(program);
            message.append(". ");
            message.append(error.as_str());
            ExecutionResult {
                step_id: String::from_str(step_id),
                status: ExecutionStatus::Failed,
                message,
                log_path: None,
            }
        },
    }
}

/// Carrying out action `a` for the step `step_id` gave `r` and took the runs made from
/// `before` to `after`: a finished action runs nothing and gives its result; a launch runs
/// its program once, with its arguments, and reports what came back.
pub open spec fn is_run_of(
    a: StepAction,
    step_id: Seq<char>,
    r: Result<ExecutionResult, String>,
    before: Seq<ProcessCall>,
    after: Seq<ProcessCall>,
) -> bool {
    match a {
        StepAction::Finish(f) => r == Ok::<ExecutionResult, String>(f) && after == before,
        StepAction::Launch { program, args } => {
            &&& after.len() == before.len() + 1
            &&& after.drop_last() == before
            &&& after.last().program == program@
            &&& after.last().args == views_of(args@)
            &&& r matches Ok(x) && is_process_result(x, step_id, program@, after.last().outcome)
        },
    }
}

/// What the observer was handed while action `a` was carried out, its lines going from
/// `lines_before` to `lines_after`, the runs made ending in `after`: a dry run's preview;
/// nothing for another finished action; for a launch, what the runner handed on.
pub open spec fn is_observed_as(
    a: StepAction,
    dry_run: bool,
    after: Seq<ProcessCall>,
    lines_before: Seq<Seq<char>>,
    lines_after: Seq<Seq<char>>,
) -> bool {
    match a {
        StepAction::Finish(f) => lines_after == (if dry_run {
            lines_before.push(f.message@)
        } else {
            lines_before
        }),
        StepAction::Launch { .. } => after.last().lines_before == lines_before
            && after.last().lines_after == lines_after,
    }
}

/// Runs `program` with `args` through `runner`, handing its output lines to the observer of
/// `sink`, and reports what came back as the result of step `step_id`.
pub fn run_process_as_result<R: ProcessRunner + ?Sized, O: LineObserver + ?Sized>(
    step_id: &str,
    runner: &mut ProcessRuns<'_, R>,
    program: &str,
    args: &[String],
    sink: &mut HandedLines<'_, O>,
) -> (r: ExecutionResult)
    ensures
        final(runner).calls().len() == old(runner).calls().len() + 1,
        final(runner).calls().drop_last() == old(runner).calls(),
        final(runner).calls().last().program == program@,
        final(runner).calls().last().args == views_of(args@),
        final(runner).calls().last().lines_before == old(sink).lines(),
        final(runner).calls().last().lines_after == final(sink).lines(),
        is_process_result(r, step_id@, program@, final(runner).calls().last().outcome),
{
    let outcome = runner.run_with_observer(program, args, sink);
    proof {
        assert(runner.calls().drop_last() =~= old(runner).calls());
    }
    process_result(step_id, program, &outcome)
}

/// Runs (or, for a dry run, previews) the step of `request` on `platform`, handing the
/// output lines to the observer of `sink`; `elevated` tells whether the process has
/// administrator rights. Always gives a result: failures are reported in it. Only a launch
/// runs anything, and it runs one program, once.
pub fn execute_install_step_with_runner_and_observer<R: ProcessRunner + ?Sized, O: LineObserver + ?Sized>(
    request: ExecutionRequest,
    platform: OperatingSystem,
    elevated: bool,
    runner: &mut ProcessRuns<'_, R>,
    sink: &mut HandedLines<'_, O>,
) -> (r: Result<ExecutionResult, String>)
    ensures
        r matches Ok(res) && is_execution_result(res, request, platform, elevated),
        exists|a: StepAction|
            #[trigger] is_step_action(a, request, platform, elevated) && is_run_of(
                a,
                request.step.id@,
                r,
                old(runner).calls(),
                final(runner).calls(),
            ) && is_observed_as(
                a,
                request.dry_run,
                final(runner).calls(),
                old(sink).lines(),
                final(sink).lines(),
            ),
{
    let action = decide_step_action(&request, platform, elevated);
    let ghost a = action;
    match action {
        StepAction::Finish(result) => {
            if request.dry_run {
                sink.hand(result.message.as_str());
            }
            assert(is_step_action(StepAction::Finish(result), request, platform, elevated));
            Ok(result)
        },
        StepAction::Launch { program, args } => {
            let result = run_process_as_result(request.step.id.as_str(), runner, program.as_str(), args.as_slice(), sink);
            assert(is_step_action(StepAction::Launch { program, args }, request, platform, elevated));
            assert(is_run_of(a, request.step.id@, Ok(result), old(runner).calls(), runner.calls()));
            Ok(result)
        },
    }
}

/// Runs (or previews) the step of `request` on `platform` without watching its output: what
/// [`execute_install_step_with_runner_and_observer`] gives with an observer that ignores
/// every line.
pub fn execute_install_step_with_runner<R: ProcessRunner + ?Sized>(
    request: ExecutionRequest,
    platform: OperatingSystem,
    elevated: bool,
    runner: &mut ProcessRuns<'_, R>,
) -> (r: Result<ExecutionResult, String>)
    ensures
        r matches Ok(res) && is_execution_result(res, request, platform, elevated),
        exists|a: StepAction|
            #[trigger] is_step_action(a, request, platform, elevated) && is_run_of(
                a,
                request.step.id@,
                r,
                old(runner).calls(),
                final(runner).calls(),
            ),
{
    let mut noop = NoopObserver;
    let mut sink = HandedLines::new(&mut noop);
    execute_install_step_with_runner_and_observer(request, platform, elevated, runner, &mut sink)
}

/// Hands `line` to the observer of `sink` and adds it, with a line feed, to the standard error text
/// when it came from `stderr`, else to the standard output text.
pub fn append_observed_line<O: LineObserver + ?Sized>(
    stream: &str,
    line: String,
    stdout: &mut String,
    stderr: &mut String,
    sink: &mut HandedLines<'_, O>,
)
    ensures
        final(sink).lines() == old(sink).lines().push(line@),
        stream@ == "stderr"@ ==> final(stderr)@ == old(stderr)@ + line@ + "\n"@ && final(stdout)@
            == old(stdout)@,
        stream@ != "stderr"@ ==> final(stdout)@ == old(stdout)@ + line@ + "\n"@ && final(stderr)@
            == old(stderr)@,
{
    sink.hand(line.as_str());
    if same_text(stream, "stderr") {
        stderr.append(line.as_str());
        stderr.append("\n");
    } else {
        stdout.append(line.as_str());
        stdout.append("\n");
    }
}


/// Law: a dry run runs nothing. Whatever the platform and the rights of the process, no
/// program is run, the step finishes as a dry run whose message is the preview of its
/// command, and that preview is all the observer is handed.
pub proof fn dry_run_runs_nothing(
    a: StepAction,
    request: ExecutionRequest,
    platform: OperatingSystem,
    elevated: bool,
    r: Result<ExecutionResult, String>,
    before: Seq<ProcessCall>,
    after: Seq<ProcessCall>,
    lines_before: Seq<Seq<char>>,
    lines_after: Seq<Seq<char>>,
)
    requires
        request.dry_run,
        is_step_action(a, request, platform, elevated),
        is_run_of(a, request.step.id@, r, before, after),
        is_observed_as(a, request.dry_run, after, lines_before, lines_after),
    ensures
        after == before,
        ({
            let step = request.step;
            let preview = preview_text(opt_string_view(step.command), views_of(step.args@), opt_string_view(step.url));
            &&& r matches Ok(res) && res.status == ExecutionStatus::DryRun && res.message@ == preview
            &&& lines_after == lines_before.push(preview)
        }),
{
}

/// Law: whether the process has administrator rights changes what a request comes to
/// only where [`privilege_check_needed`] says the answer is needed.
pub proof fn privilege_matters_only_where_checked(
    a: StepAction,
    request: ExecutionRequest,
    platform: OperatingSystem,
)
    requires
        !needs_privilege_answer(request, platform),
    ensures
        is_step_action(a, request, platform, true) == is_step_action(a, request, platform, false),
{
}

/// Law: every result of running a request reports the id of the request's step.
pub proof fn execution_result_names_its_step(
    r: ExecutionResult,
    request: ExecutionRequest,
    platform: OperatingSystem,
    elevated: bool,
)
    requires
        is_execution_result(r, request, platform, elevated),
    ensures
        r.step_id@ == request.step.id@,
{
    let a = choose|a: StepAction|
        #[trigger] is_step_action(a, request, platform, elevated) && match a {
            StepAction::Finish(f) => r == f,
            StepAction::Launch { program, args } => exists|o: Result<ProcessOutput, String>|
                #[trigger] is_process_result(r, request.step.id@, program@, o),
        };
    if let StepAction::Launch { program, args } = a {
        let o = choose|o: Result<ProcessOutput, String>| #[trigger] is_process_result(r, request.step.id@, program@, o);
    }
}

} // verus!
