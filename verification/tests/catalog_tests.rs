#![allow(dead_code)]

use elvpath_lib::catalog::validate_catalog;
use elvpath_lib::models::{
    Catalog, CatalogCategory, CatalogItem, ConfigAction, ConfigChangeTemplate, DetectionKind,
    DetectionRule, InstallStepKind, InstallStepTemplate, LocalizedText, OperatingSystem, Source,
    SourceKind, StepPermissions, VersionOption,
};

fn text(en: &str) -> LocalizedText {
    LocalizedText { en: en.to_string(), zh: format!("zh: {en}") }
}

fn all_platforms() -> Vec<OperatingSystem> {
    vec![OperatingSystem::Windows, OperatingSystem::Macos, OperatingSystem::Linux]
}

fn step(
    id: &str,
    platforms: Vec<OperatingSystem>,
    command: Option<&str>,
    args: &[&str],
    url: Option<&str>,
    mirror_url: Option<&str>,
    requires_admin: bool,
) -> InstallStepTemplate {
    InstallStepTemplate {
        id: id.to_string(),
        platforms,
        kind: if url.is_some() { InstallStepKind::Download } else { InstallStepKind::Command },
        title: text(&format!("Install {id}")),
        url: url.map(|u| u.to_string()),
        mirror_url: mirror_url.map(|u| u.to_string()),
        checksum: None,
        command: command.map(|c| c.to_string()),
        args: args.iter().map(|a| a.to_string()).collect(),
        source: SourceKind::Official,
        permissions: StepPermissions {
            requires_admin,
            reason: if requires_admin { Some(text("needs admin")) } else { None },
        },
    }
}

fn probe(program: &str, args: &[&str], platforms: Vec<OperatingSystem>) -> DetectionRule {
    DetectionRule {
        platforms,
        kind: DetectionKind::PathCommand,
        program: program.to_string(),
        args: args.iter().map(|a| a.to_string()).collect(),
        source_hint: None,
    }
}

fn tool(
    id: &str,
    category: &str,
    dependencies: &[&str],
    install_steps: Vec<InstallStepTemplate>,
    detection: Vec<DetectionRule>,
) -> CatalogItem {
    CatalogItem {
        id: id.to_string(),
        category: category.to_string(),
        name: text(id),
        summary: text(&format!("{id} summary")),
        homepage: format!("https://example.org/{id}"),
        supported_platforms: all_platforms(),
        tags: vec![category.to_string()],
        versions: vec![
            VersionOption { id: "stable".to_string(), label: "Stable".to_string(), is_default: true },
            VersionOption { id: "latest".to_string(), label: "Latest".to_string(), is_default: false },
        ],
        sources: vec![Source {
            kind: SourceKind::Official,
            url: format!("https://example.org/{id}/download"),
            notes: None,
        }],
        detection,
        dependencies: dependencies.iter().map(|d| d.to_string()).collect(),
        install_steps,
        config_steps: vec![ConfigChangeTemplate {
            target: "PATH".to_string(),
            action: ConfigAction::Append,
            value: format!("/opt/{id}/bin"),
            backup_hint: text("PATH is backed up first"),
            rollback: text(&format!("Remove /opt/{id}/bin from PATH")),
        }],
    }
}

fn language(id: &str, program: &str) -> CatalogItem {
    tool(
        id,
        "languages",
        &[],
        vec![
            step("windows-installer", vec![OperatingSystem::Windows], Some(program), &["--install"], Some(&format!("https://example.org/{id}/setup.exe")), None, false),
            step("unix-package", vec![OperatingSystem::Macos, OperatingSystem::Linux], Some(program), &["install", id], None, None, false),
        ],
        vec![probe(program, &["--version"], all_platforms())],
    )
}

fn seed_catalog() -> Catalog {
    let categories = ["languages", "containers", "editors", "devops", "databases"]
        .iter()
        .map(|id| CatalogCategory {
            id: id.to_string(),
            name: text(id),
            description: text(&format!("{id} tools")),
            icon: format!("{id}.svg"),
        })
        .collect();
    let mut items = vec![
        language("rust", "rustc"),
        tool(
            "nodejs",
            "languages",
            &[],
            vec![
                step("windows-installer", vec![OperatingSystem::Windows], Some("msiexec"), &["/i", "node.msi"], Some("https://nodejs.org/dist/latest/node.msi"), Some("https://npmmirror.com/mirrors/node/latest/node.msi"), false),
                step("linux-archive", vec![OperatingSystem::Linux], Some("tar"), &["-xf", "node.tar.xz"], Some("https://nodejs.org/dist/latest/node.tar.xz"), Some("https://npmmirror.com/mirrors/node/latest/node.tar.xz"), false),
            ],
            vec![probe("node", &["--version"], all_platforms())],
        ),
        language("python", "python3"),
        tool(
            "git",
            "devops",
            &[],
            vec![step("git-setup", all_platforms(), Some("git-installer"), &["/silent"], Some("https://git-scm.com/download"), None, false)],
            vec![probe("git", &["--version"], all_platforms())],
        ),
        tool(
            "docker",
            "containers",
            &["git"],
            vec![step("docker-desktop", all_platforms(), Some("docker-installer"), &["install", "--quiet"], Some("https://docs.docker.com/get-docker"), None, true)],
            vec![probe("docker", &["--version"], all_platforms())],
        ),
        tool(
            "vscode",
            "editors",
            &[],
            vec![step("vscode-setup", all_platforms(), Some("code-installer"), &[], Some("https://code.visualstudio.com/download"), None, false)],
            vec![probe("code", &["--version"], all_platforms())],
        ),
        language("java", "java"),
        language("go", "go"),
        language("dotnet", "dotnet"),
        language("php", "php"),
        language("ruby", "ruby"),
    ];
    items[0].detection[0].platforms = all_platforms();
    Catalog { schema_version: 1, categories, items }
}

#[test]
fn catalog_validation_rejects_items_without_platform_steps() {
    let mut catalog = seed_catalog();
    catalog.items[0].install_steps.clear();

    let errors = validate_catalog(&catalog).expect_err("catalog should be invalid");
    assert!(
        errors.iter().any(|error| error.contains("install step")),
        "expected install step validation error, got {errors:?}"
    );
}

#[test]
fn seed_catalog_passes_validation() {
    assert_eq!(validate_catalog(&seed_catalog()), Ok(()));
}

#[test]
fn catalog_without_categories_is_rejected_first() {
    let mut catalog = seed_catalog();
    catalog.categories.clear();
    let errors = validate_catalog(&catalog).unwrap_err();
    assert_eq!(errors[0], "catalog must define at least one category");
    // every item now references a missing category
    assert_eq!(errors.len(), 1 + catalog.items.len());
    assert_eq!(errors[1], "item 'rust' references missing category 'languages'");
}

#[test]
fn every_failed_check_reports_its_own_message_in_order() {
    let mut catalog = seed_catalog();
    let item = &mut catalog.items[2];
    item.id = " \t ".to_string();
    item.category = "games".to_string();
    item.supported_platforms.clear();
    item.install_steps.clear();
    item.sources[0].kind = SourceKind::Mirror;
    item.dependencies = vec!["git".to_string(), "cobol".to_string()];
    let errors = validate_catalog(&catalog).unwrap_err();
    assert_eq!(
        errors,
        vec![
            "catalog item has empty id".to_string(),
            "item ' \t ' references missing category 'games'".to_string(),
            "item ' \t ' must support at least one platform".to_string(),
            "item ' \t ' must define at least one install step".to_string(),
            "item ' \t ' must include an official source".to_string(),
            "item ' \t ' depends on unknown item 'cobol'".to_string(),
        ]
    );
}

#[test]
fn duplicate_ids_are_reported_at_the_later_item() {
    let mut catalog = seed_catalog();
    catalog.items[5].id = "git".to_string();
    let errors = validate_catalog(&catalog).unwrap_err();
    assert_eq!(errors, vec!["duplicate catalog item id 'git'".to_string()]);
}

#[test]
fn unicode_whitespace_id_counts_as_empty() {
    let mut catalog = seed_catalog();
    catalog.items[1].id = "\u{3000}\u{2003}".to_string();
    let errors = validate_catalog(&catalog).unwrap_err();
    assert_eq!(errors[0], "catalog item has empty id");
}
