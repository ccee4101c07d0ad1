#![allow(dead_code)]

use elvpath_lib::models::{
    Catalog, CatalogCategory, CatalogItem, ConfigAction, ConfigChangeTemplate, DetectionKind,
    DetectionRule, InstallStepKind, InstallStepTemplate, LocalizedText, NetworkMode,
    NetworkProfile, OperatingSystem, PlanSelection, Source, SourceKind, StepPermissions,
    VersionOption,
};
use elvpath_lib::planner::{build_install_plan, PlanError};

fn text(en: &str) -> LocalizedText {
    LocalizedText { en: en.to_string(), zh: format!("zh: {en}") }
}

fn all_platforms() -> Vec<OperatingSystem> {
    vec![OperatingSystem::Windows, OperatingSystem::Macos, OperatingSystem::Linux]
}

fn step(
    id: &str,
    platforms: Vec<OperatingSystem>,
    command: Option<&str>,
    args: &[&str],
    url: Option<&str>,
    mirror_url: Option<&str>,
    requires_admin: bool,
) -> InstallStepTemplate {
    InstallStepTemplate {
        id: id.to_string(),
        platforms,
        kind: if url.is_some() { InstallStepKind::Download } else { InstallStepKind::Command },
        title: text(&format!("Install {id}")),
        url: url.map(|u| u.to_string()),
        mirror_url: mirror_url.map(|u| u.to_string()),
        checksum: None,
        command: command.map(|c| c.to_string()),
        args: args.iter().map(|a| a.to_string()).collect(),
        source: SourceKind::Official,
        permissions: StepPermissions {
            requires_admin,
            reason: if requires_admin { Some(text("needs admin")) } else { None },
        },
    }
}

fn probe(program: &str, args: &[&str], platforms: Vec<OperatingSystem>) -> DetectionRule {
    DetectionRule {
        platforms,
        kind: DetectionKind::PathCommand,
        program: program.to_string(),
        args: args.iter().map(|a| a.to_string()).collect(),
        source_hint: None,
    }
}

fn tool(
    id: &str,
    category: &str,
    dependencies: &[&str],
    install_steps: Vec<InstallStepTemplate>,
    detection: Vec<DetectionRule>,
) -> CatalogItem {
    CatalogItem {
        id: id.to_string(),
        category: category.to_string(),
        name: text(id),
        summary: text(&format!("{id} summary")),
        homepage: format!("https://example.org/{id}"),
        supported_platforms: all_platforms(),
        tags: vec![category.to_string()],
        versions: vec![
            VersionOption { id: "stable".to_string(), label: "Stable".to_string(), is_default: true },
            VersionOption { id: "latest".to_string(), label: "Latest".to_string(), is_default: false },
        ],
        sources: vec![Source {
            kind: SourceKind::Official,
            url: format!("https://example.org/{id}/download"),
            notes: None,
        }],
        detection,
        dependencies: dependencies.iter().map(|d| d.to_string()).collect(),
        install_steps,
        config_steps: vec![ConfigChangeTemplate {
            target: "PATH".to_string(),
            action: ConfigAction::Append,
            value: format!("/opt/{id}/bin"),
            backup_hint: text("PATH is backed up first"),
            rollback: text(&format!("Remove /opt/{id}/bin from PATH")),
        }],
    }
}

fn language(id: &str, program: &str) -> CatalogItem {
    tool(
        id,
        "languages",
        &[],
        vec![
            step("windows-installer", vec![OperatingSystem::Windows], Some(program), &["--install"], Some(&format!("https://example.org/{id}/setup.exe")), None, false),
            step("unix-package", vec![OperatingSystem::Macos, OperatingSystem::Linux], Some(program), &["install", id], None, None, false),
        ],
        vec![probe(program, &["--version"], all_platforms())],
    )
}

fn seed_catalog() -> Catalog {
    let categories = ["languages", "containers", "editors", "devops", "databases"]
        .iter()
        .map(|id| CatalogCategory {
            id: id.to_string(),
            name: text(id),
            description: text(&format!("{id} tools")),
            icon: format!("{id}.svg"),
        })
        .collect();
    let mut items = vec![
        language("rust", "rustc"),
        tool(
            "nodejs",
            "languages",
            &[],
            vec![
                step("windows-installer", vec![OperatingSystem::Windows], Some("msiexec"), &["/i", "node.msi"], Some("https://nodejs.org/dist/latest/node.msi"), Some("https://npmmirror.com/mirrors/node/latest/node.msi"), false),
                step("linux-archive", vec![OperatingSystem::Linux], Some("tar"), &["-xf", "node.tar.xz"], Some("https://nodejs.org/dist/latest/node.tar.xz"), Some("https://npmmirror.com/mirrors/node/latest/node.tar.xz"), false),
            ],
            vec![probe("node", &["--version"], all_platforms())],
        ),
        language("python", "python3"),
        tool(
            "git",
            "devops",
            &[],
            vec![step("git-setup", all_platforms(), Some("git-installer"), &["/silent"], Some("https://git-scm.com/download"), None, false)],
            vec![probe("git", &["--version"], all_platforms())],
        ),
        tool(
            "docker",
            "containers",
            &["git"],
            vec![step("docker-desktop", all_platforms(), Some("docker-installer"), &["install", "--quiet"], Some("https://docs.docker.com/get-docker"), None, true)],
            vec![probe("docker", &["--version"], all_platforms())],
        ),
        tool(
            "vscode",
            "editors",
            &[],
            vec![step("vscode-setup", all_platforms(), Some("code-installer"), &[], Some("https://code.visualstudio.com/download"), None, false)],
            vec![probe("code", &["--version"], all_platforms())],
        ),
        language("java", "java"),
        language("go", "go"),
        language("dotnet", "dotnet"),
        language("php", "php"),
        language("ruby", "ruby"),
    ];
    items[0].detection[0].platforms = all_platforms();
    Catalog { schema_version: 1, categories, items }
}

fn select(id: &str, version: Option<&str>) -> PlanSelection {
    PlanSelection { item_id: id.into(), version: version.map(|v| v.into()) }
}

#[test]
fn install_plan_orders_dependencies_before_selected_items() {
    let catalog = seed_catalog();
    let selections = vec![PlanSelection {
        item_id: "docker".into(),
        version: Some("latest".into()),
    }];
    let profile = NetworkProfile::default();

    let plan = build_install_plan(&catalog, &selections, &profile, OperatingSystem::Windows)
        .expect("plan builds");

    let ordered_ids: Vec<_> = plan
        .items
        .iter()
        .map(|item| item.item_id.as_str())
        .collect();
    let git_index = ordered_ids
        .iter()
        .position(|id| *id == "git")
        .expect("git dependency");
    let docker_index = ordered_ids
        .iter()
        .position(|id| *id == "docker")
        .expect("docker selected");
    assert!(git_index < docker_index);
    assert!(plan.requires_admin);
    assert!(plan
        .steps
        .iter()
        .any(|step| step.permissions.requires_admin));
}

#[test]
fn mirror_profile_rewrites_download_urls_when_available() {
    let catalog = seed_catalog();
    let selections = vec![PlanSelection {
        item_id: "nodejs".into(),
        version: Some("22".into()),
    }];
    let profile = NetworkProfile {
        mode: NetworkMode::ChinaMirror,
        proxy_url: None,
        mirror_region: Some("cn".into()),
    };

    let plan = build_install_plan(&catalog, &selections, &profile, OperatingSystem::Linux).unwrap();

    assert!(
        plan.steps.iter().any(|step| step
            .url
            .as_deref()
            .is_some_and(|url| url.contains("npmmirror.com"))),
        "expected at least one mirror URL in {:#?}",
        plan.steps
    );
}

#[test]
fn plan_fields_follow_the_catalog() {
    let catalog = seed_catalog();
    let selections = vec![select("docker", Some("latest")), select("rust", None)];
    let plan = build_install_plan(&catalog, &selections, &NetworkProfile::default(), OperatingSystem::Windows).unwrap();
    assert_eq!(plan.id, "Windows-docker-rust");
    assert_eq!(plan.platform, OperatingSystem::Windows);
    assert_eq!(plan.network, NetworkProfile::default());
    let items: Vec<_> = plan.items.iter().map(|i| (i.item_id.as_str(), i.version.as_str(), i.dependency)).collect();
    assert_eq!(items, vec![("git", "stable", true), ("docker", "latest", false), ("rust", "stable", false)]);
    let steps: Vec<_> = plan.steps.iter().map(|s| s.id.as_str()).collect();
    assert_eq!(steps, vec!["git:git-setup", "docker:docker-desktop", "rust:windows-installer"]);
    assert_eq!(plan.steps[2].item_id, "rust");
    assert_eq!(plan.steps[2].command.as_deref(), Some("rustc"));
    assert_eq!(plan.steps[2].url.as_deref(), Some("https://example.org/rust/setup.exe"));
    assert_eq!(plan.steps[2].config_changes, catalog.items[0].config_steps);
    assert!(plan.warnings.is_empty());
}

#[test]
fn items_without_platform_steps_are_warned_about() {
    let catalog = seed_catalog();
    let plan = build_install_plan(&catalog, &[select("nodejs", None)], &NetworkProfile::default(), OperatingSystem::Macos).unwrap();
    assert!(plan.steps.is_empty());
    assert!(!plan.requires_admin);
    assert_eq!(plan.warnings, vec!["nodejs has no install step for Macos".to_string()]);
    assert_eq!(plan.id, "Macos-nodejs");
}

#[test]
fn official_and_proxy_profiles_keep_official_urls() {
    let catalog = seed_catalog();
    for mode in [NetworkMode::Official, NetworkMode::CustomProxy] {
        let profile = NetworkProfile { mode, proxy_url: Some("http://127.0.0.1:7890".into()), mirror_region: None };
        let plan = build_install_plan(&catalog, &[select("nodejs", None)], &profile, OperatingSystem::Linux).unwrap();
        assert_eq!(plan.steps[0].url.as_deref(), Some("https://nodejs.org/dist/latest/node.tar.xz"));
    }
    let mirror = NetworkProfile { mode: NetworkMode::ChinaMirror, proxy_url: None, mirror_region: None };
    let plan = build_install_plan(&catalog, &[select("git", None)], &mirror, OperatingSystem::Linux).unwrap();
    assert_eq!(plan.steps[0].url.as_deref(), Some("https://git-scm.com/download"));
}

#[test]
fn shared_dependencies_are_planned_once() {
    let mut catalog = seed_catalog();
    catalog.items[5].dependencies = vec!["git".into()];
    let plan = build_install_plan(&catalog, &[select("vscode", None), select("docker", None), select("git", Some("2.44"))], &NetworkProfile::default(), OperatingSystem::Linux).unwrap();
    let items: Vec<_> = plan.items.iter().map(|i| (i.item_id.as_str(), i.version.as_str(), i.dependency)).collect();
    assert_eq!(items, vec![("git", "2.44", false), ("vscode", "stable", false), ("docker", "stable", false)]);
}

#[test]
fn last_selection_of_an_item_decides_its_version() {
    let mut catalog = seed_catalog();
    catalog.items[3].versions.clear();
    let plan = build_install_plan(&catalog, &[select("git", Some("2.40")), select("git", None)], &NetworkProfile::default(), OperatingSystem::Linux).unwrap();
    assert_eq!(plan.items.len(), 1);
    assert_eq!(plan.items[0].version, "latest");
    assert_eq!(plan.id, "Linux-git-git");
}

#[test]
fn unknown_items_fail_the_plan() {
    let catalog = seed_catalog();
    let error = build_install_plan(&catalog, &[select("cobol", None)], &NetworkProfile::default(), OperatingSystem::Linux).unwrap_err();
    assert_eq!(error, PlanError::UnknownItem("cobol".into()));
    assert_eq!(error.message(), "unknown catalog item 'cobol'");

    let mut catalog = seed_catalog();
    catalog.items[3].dependencies = vec!["svn".into()];
    let error = build_install_plan(&catalog, &[select("docker", None)], &NetworkProfile::default(), OperatingSystem::Linux).unwrap_err();
    assert_eq!(error, PlanError::UnknownItem("svn".into()));
}

#[test]
fn dependency_cycles_fail_the_plan() {
    let mut catalog = seed_catalog();
    catalog.items[3].dependencies = vec!["docker".into()];
    let error = build_install_plan(&catalog, &[select("docker", None)], &NetworkProfile::default(), OperatingSystem::Linux).unwrap_err();
    assert_eq!(error, PlanError::DependencyCycle("docker".into()));
    assert_eq!(error.message(), "dependency cycle detected at docker");
}

#[test]
fn empty_selection_gives_empty_plan() {
    let catalog = seed_catalog();
    let plan = build_install_plan(&catalog, &[], &NetworkProfile::default(), OperatingSystem::Linux).unwrap();
    assert!(plan.items.is_empty() && plan.steps.is_empty() && plan.warnings.is_empty());
    assert_eq!(plan.id, "Linux-");
}
