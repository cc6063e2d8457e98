use aethaum_core::aethaum_predefined::Describe;
use aethaum_core::code_generator::{CodeGenerationError, CodeGenerator};
use aethaum_core::project_template::{
    AethaumModule, AethaumProject, ProjectTemplateGenerator, TemplateGenerationError,
};

fn sample_project() -> AethaumProject {
    AethaumProject {
        root: "D:\\Aethaum\\test_project".to_string(),
        name: "test_project".to_string(),
        modules: vec![
            AethaumModule {
                name: "explore".to_string(),
                code: "pub mod components {}\n".to_string(),
            },
            AethaumModule {
                name: "combat".to_string(),
                code: "pub mod components {}\n".to_string(),
            },
        ],
    }
}

#[test]
fn test_generate_code() {
    let project = sample_project();
    let code_generator = CodeGenerator::new(project);
    code_generator.generate().unwrap();
}

#[test]
fn generation_plan_lays_out_the_tree() {
    let plan = CodeGenerator::new(sample_project()).generate().unwrap();

    let root = "D:\\Aethaum\\test_project/generated";
    assert_eq!(plan.dirs.len(), 7);
    assert_eq!(plan.dirs[0], format!("{}/src", root));
    assert_eq!(plan.dirs[1], format!("{}/assets", root));
    assert_eq!(plan.dirs[2], format!("{}/config", root));
    assert_eq!(plan.dirs[3], format!("{}/src/modules", root));
    assert_eq!(plan.dirs[4], format!("{}/assets/modules/explore", root));
    assert_eq!(plan.dirs[5], format!("{}/assets/modules/combat", root));
    assert_eq!(plan.dirs[6], format!("{}/assets/scripts", root));

    let paths: Vec<&str> = plan.files.iter().map(|f| f.path.as_str()).collect();
    assert_eq!(paths[0], format!("{}/Cargo.toml", root));
    assert_eq!(paths[1], format!("{}/src/main.rs", root));
    assert_eq!(paths[2], format!("{}/src/lib.rs", root));
    assert_eq!(paths[3], format!("{}/src/modules.rs", root));
    assert_eq!(paths[4], format!("{}/src/modules/explore.rs", root));
    assert_eq!(paths[5], format!("{}/src/modules/combat.rs", root));
    assert_eq!(paths[6], format!("{}/src/lua_bindings.rs", root));
    assert!(paths.contains(&format!("{}/config/config.toml", root).as_str()));

    // The rendered module sources come last and replace the seed files.
    let last = &plan.files[plan.files.len() - 2];
    assert_eq!(last.path, format!("{}/src/modules/explore.rs", root));
    assert_eq!(last.content, "pub mod components {}\n");
}

#[test]
fn modules_rs_declares_every_module() {
    let plan = CodeGenerator::new(sample_project()).generate().unwrap();
    let modules_rs = plan
        .files
        .iter()
        .find(|f| f.path.ends_with("/src/modules.rs"))
        .expect("modules.rs is planned");
    assert_eq!(
        modules_rs.content,
        "//! Aethaum modules\npub mod explore;\npub mod combat;\n"
    );
}

#[test]
fn cargo_manifest_names_the_project() {
    let plan = CodeGenerator::new(sample_project()).generate().unwrap();
    let manifest = plan
        .files
        .iter()
        .find(|f| f.path.ends_with("/Cargo.toml"))
        .expect("Cargo.toml is planned");
    assert!(manifest.content.starts_with("[package]\nname = \"test_project\"\n"));
    assert!(manifest.content.contains("bevy_ecs = \"0.16.1\""));
    assert!(manifest.content.contains("mlua = { version = \"0.11.2\""));
}

#[test]
fn an_invalid_module_name_is_refused() {
    let mut project = sample_project();
    project.modules.push(AethaumModule {
        name: "bad-name".to_string(),
        code: String::new(),
    });
    match CodeGenerator::new(project).generate() {
        Err(CodeGenerationError::TemplateGeneration(
            TemplateGenerationError::InvalidModuleName(name),
        )) => assert_eq!(name, "bad-name"),
        other => panic!("expected the invalid-name error, got {:?}", other),
    }
}

struct Bare;

impl Describe for Bare {}

#[test]
fn describe_defaults_say_nothing() {
    let b = Bare;
    assert_eq!(b.describe(), "");
    assert_eq!(b.describe_field("anything"), "");
}

#[test]
fn template_plan_seeds_example_scripts() {
    let project = sample_project();
    let plan = ProjectTemplateGenerator::generate("out", &project).unwrap();
    let lua = plan
        .files
        .iter()
        .find(|f| f.path == "out/assets/modules/explore/scripts/example.lua")
        .expect("example script is planned");
    assert!(lua.content.contains("Hello from explore module!"));
    assert!(lua
        .content
        .contains("explore module Lua environment initialized"));
    assert!(plan
        .files
        .iter()
        .any(|f| f.path == "out/assets/scripts/example.lua"));
}
