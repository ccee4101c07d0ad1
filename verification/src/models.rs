//! The data that the catalog, the planner, the detector and the executor exchange.
use vstd::prelude::*;

verus! {

/// A desktop platform that catalog entries and plans target.
#[derive(Debug, Clone, Copy, PartialEq, Eq, Structural)]
pub enum OperatingSystem {
    Windows,
    Macos,
    Linux,
}

/// The platform whose host name (`std::env::consts::OS`) is `name`: `"windows"` and
/// `"macos"` name themselves, every other name is taken for Linux.
pub open spec fn os_named(name: Seq<char>) -> OperatingSystem {
    if name == "windows"@ {
        OperatingSystem::Windows
    } else if name == "macos"@ {
        OperatingSystem::Macos
    } else {
        OperatingSystem::Linux
    }
}

impl OperatingSystem {
    /// The platform that a host reporting `name` as its operating system runs.
    pub fn from_host_name(name: &str) -> (os: OperatingSystem)
        ensures
            os == os_named(name@),
    {
        let n = String::from_str(name);
        if n == String::from_str("windows") {
            OperatingSystem::Windows
        } else if n == String::from_str("macos") {
            OperatingSystem::Macos
        } else {
            OperatingSystem::Linux
        }
    }
}

/// The name that `{:?}` prints for a platform.
pub open spec fn os_debug_name(os: OperatingSystem) -> Seq<char> {
    match os {
        OperatingSystem::Windows => "Windows"@,
        OperatingSystem::Macos => "Macos"@,
        OperatingSystem::Linux => "Linux"@,
    }
}

/// The name that `{:?}` prints for `os`.
pub fn os_debug_str(os: OperatingSystem) -> (r: &'static str)
    ensures
        r@ == os_debug_name(os),
{
    match os {
        OperatingSystem::Windows => "Windows",
        OperatingSystem::Macos => "Macos",
        OperatingSystem::Linux => "Linux",
    }
}

/// Whether `os` occurs in `platforms`.
pub fn contains_os(platforms: &Vec<OperatingSystem>, os: OperatingSystem) -> (r: bool)
    ensures
        r == platforms@.contains(os),
{
    let mut i: usize = 0;
    while i < platforms.len()
        invariant
            i <= platforms.len(),
            forall|k: int| 0 <= k < i ==> platforms@[k] != os,
        decreases platforms.len() - i,
    {
        if platforms[i] == os {
            return true;
        }
        i = i + 1;
    }
    false
}

/// Text in English and Simplified Chinese.
#[derive(Debug, Clone, PartialEq, Eq)]
pub struct LocalizedText {
    pub en: String,
    pub zh: String,
}

impl LocalizedText {
    /// A copy of this text.
    pub fn duplicate(&self) -> (r: LocalizedText)
        ensures
            r == *self,
    {
        LocalizedText { en: self.en.clone(), zh: self.zh.clone() }
    }
}

/// A copy of an optional text.
pub fn duplicate_optional_text(t: &Option<LocalizedText>) -> (r: Option<LocalizedText>)
    ensures
        r == *t,
{
    match t {
        Some(t) => Some(t.duplicate()),
        None => None,
    }
}

/// The declarative catalog of installable tools.
#[derive(Debug, Clone)]
pub struct Catalog {
    pub schema_version: u32,
    pub categories: Vec<CatalogCategory>,
    pub items: Vec<CatalogItem>,
}

#[derive(Debug, Clone)]
pub struct CatalogCategory {
    pub id: String,
    pub name: LocalizedText,
    pub description: LocalizedText,
    pub icon: String,
}

/// One installable tool.
#[derive(Debug, Clone)]
pub struct CatalogItem {
    pub id: String,
    pub category: String,
    pub name: LocalizedText,
    pub summary: LocalizedText,
    pub homepage: String,
    pub supported_platforms: Vec<OperatingSystem>,
    pub tags: Vec<String>,
    pub versions: Vec<VersionOption>,
    pub sources: Vec<Source>,
    pub detection: Vec<DetectionRule>,
    pub dependencies: Vec<String>,
    pub install_steps: Vec<InstallStepTemplate>,
    pub config_steps: Vec<ConfigChangeTemplate>,
}

#[derive(Debug, Clone)]
pub struct VersionOption {
    pub id: String,
    pub label: String,
    pub is_default: bool,
}

#[derive(Debug, Clone)]
pub struct Source {
    pub kind: SourceKind,
    pub url: String,
    pub notes: Option<LocalizedText>,
}

#[derive(Debug, Clone, Copy, PartialEq, Eq, Structural)]
pub enum SourceKind {
    Official,
    PackageManager,
    Mirror,
}

/// How to find out whether a tool is present: run `program` with `args`.
#[derive(Debug, Clone)]
pub struct DetectionRule {
    pub platforms: Vec<OperatingSystem>,
    pub kind: DetectionKind,
    pub program: String,
    pub args: Vec<String>,
    pub source_hint: Option<String>,
}

#[derive(Debug, Clone, Copy, PartialEq, Eq, Structural)]
pub enum DetectionKind {
    PathCommand,
    PackageManager,
    AppBundle,
    Registry,
}

/// A catalog step that installs a tool on some platforms.
#[derive(Debug, Clone)]
pub struct InstallStepTemplate {
    pub id: String,
    pub platforms: Vec<OperatingSystem>,
    pub kind: InstallStepKind,
    pub title: LocalizedText,
    pub url: Option<String>,
    pub mirror_url: Option<String>,
    pub checksum: Option<String>,
    pub command: Option<String>,
    pub args: Vec<String>,
    pub source: SourceKind,
    pub permissions: StepPermissions,
}

#[derive(Debug, Clone, Copy, PartialEq, Eq, Structural)]
pub enum InstallStepKind {
    Download,
    Command,
    PackageManager,
    Configure,
}

#[derive(Debug, Clone, PartialEq, Eq)]
pub struct StepPermissions {
    pub requires_admin: bool,
    pub reason: Option<LocalizedText>,
}

impl StepPermissions {
    /// A copy of these permissions.
    pub fn duplicate(&self) -> (r: StepPermissions)
        ensures
            r == *self,
    {
        StepPermissions { requires_admin: self.requires_admin, reason: duplicate_optional_text(&self.reason) }
    }
}

/// A configuration change that an installed tool needs, with how to back it up and undo it.
#[derive(Debug, Clone, PartialEq, Eq)]
pub struct ConfigChangeTemplate {
    pub target: String,
    pub action: ConfigAction,
    pub value: String,
    pub backup_hint: LocalizedText,
    pub rollback: LocalizedText,
}

impl ConfigChangeTemplate {
    /// A copy of this change.
    pub fn duplicate(&self) -> (r: ConfigChangeTemplate)
        ensures
            r == *self,
    {
        ConfigChangeTemplate {
            target: self.target.clone(),
            action: self.action,
            value: self.value.clone(),
            backup_hint: self.backup_hint.duplicate(),
            rollback: self.rollback.duplicate(),
        }
    }
}

/// A copy of a list of configuration changes.
pub fn duplicate_changes(v: &Vec<ConfigChangeTemplate>) -> (r: Vec<ConfigChangeTemplate>)
    ensures
        r@ == v@,
{
    let mut r: Vec<ConfigChangeTemplate> = Vec::new();
    let mut i: usize = 0;
    while i < v.len()
        invariant
            i <= v.len(),
            r@ == v@.take(i as int),
        decreases v.len() - i,
    {
        r.push(v[i].duplicate());
        assert(r@ =~= v@.take(i + 1));
        i = i + 1;
    }
    assert(v@.take(v.len() as int) =~= v@);
    r
}

#[derive(Debug, Clone, Copy, PartialEq, Eq, Structural)]
pub enum ConfigAction {
    Append,
    SetValue,
    WriteFile,
}

/// A tool that the user picked, with the version asked for, if any.
#[derive(Debug, Clone, PartialEq, Eq)]
pub struct PlanSelection {
    pub item_id: String,
    pub version: Option<String>,
}

#[derive(Debug, Clone, Copy, PartialEq, Eq, Structural)]
pub enum NetworkMode {
    Official,
    CustomProxy,
    ChinaMirror,
}

/// Where downloads come from: official sources, through a proxy, or from mirrors.
#[derive(Debug, Clone, PartialEq, Eq)]
pub struct NetworkProfile {
    pub mode: NetworkMode,
    pub proxy_url: Option<String>,
    pub mirror_region: Option<String>,
}

impl Default for NetworkProfile {
    /// Official sources, no proxy, no mirror region.
    fn default() -> (r: Self)
        ensures
            r.mode == NetworkMode::Official,
            r.proxy_url is None,
            r.mirror_region is None,
    {
        NetworkProfile { mode: NetworkMode::Official, proxy_url: None, mirror_region: None }
    }
}

impl NetworkProfile {
    /// A copy of this profile.
    pub fn duplicate(&self) -> (r: NetworkProfile)
        ensures
            r == *self,
    {
        NetworkProfile {
            mode: self.mode,
            proxy_url: self.proxy_url.clone(),
            mirror_region: self.mirror_region.clone(),
        }
    }
}

/// The ordered installation plan for a selection of tools.
#[derive(Debug, Clone)]
pub struct InstallPlan {
    pub id: String,
    pub platform: OperatingSystem,
    pub network: NetworkProfile,
    pub items: Vec<PlannedItem>,
    pub steps: Vec<PlannedStep>,
    pub requires_admin: bool,
    pub warnings: Vec<String>,
}

#[derive(Debug, Clone)]
pub struct PlannedItem {
    pub item_id: String,
    pub name: LocalizedText,
    pub version: String,
    pub dependency: bool,
}

/// One step of a plan, ready to show or to run.
#[derive(Debug, Clone)]
pub struct PlannedStep {
    pub id: String,
    pub item_id: String,
    pub title: LocalizedText,
    pub kind: InstallStepKind,
    pub source: SourceKind,
    pub url: Option<String>,
    pub checksum: Option<String>,
    pub command: Option<String>,
    pub args: Vec<String>,
    pub permissions: StepPermissions,
    pub config_changes: Vec<ConfigChangeTemplate>,
}

#[derive(Debug, Clone, Copy, PartialEq, Eq, Structural)]
pub enum DetectionStatus {
    Installed,
    Missing,
    Unknown,
}

/// What the detector found out about one tool.
#[derive(Debug, Clone, PartialEq, Eq)]
pub struct DetectionResult {
    pub item_id: String,
    pub status: DetectionStatus,
    pub version: Option<String>,
    pub path: Option<String>,
    pub source: Option<String>,
    pub satisfies_requested: bool,
    pub conflicts: Vec<String>,
}

#[derive(Debug, Clone)]
pub struct CatalogRefreshResult {
    pub catalog: Catalog,
    pub refreshed_online: bool,
    pub message: String,
}

/// A request to run (or preview) one planned step.
#[derive(Debug, Clone)]
pub struct ExecutionRequest {
    pub step: PlannedStep,
    pub dry_run: bool,
    pub network_profile: Option<NetworkProfile>,
}

/// Whether a request that does not say otherwise is a dry run: it is.
pub fn default_dry_run() -> (r: bool)
    ensures
        r,
{
    true
}

#[derive(Debug, Clone, Copy, PartialEq, Eq, Structural)]
pub enum ExecutionStatus {
    DryRun,
    Completed,
    Failed,
    NeedsPrivilege,
}

#[derive(Debug, Clone)]
pub struct ExecutionResult {
    pub step_id: String,
    pub status: ExecutionStatus,
    pub message: String,
    pub log_path: Option<String>,
}

#[derive(Debug, Clone)]
pub struct RollbackResult {
    pub target: String,
    pub message: String,
}

} // verus!
