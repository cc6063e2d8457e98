//! Plans the scaffolding of a generated project: the directory tree and the
//! files it is seeded with, computed from the project description. Writing
//! the plan to disk is the caller's business.
//!
//! The planned layout:
//! - Cargo.toml
//! - src/ with main.rs, lib.rs, modules.rs, one file per module under
//!   src/modules/, and lua_bindings.rs
//! - assets/ with a scripts/ directory per module and a root scripts/
//! - config/ with a starter configuration file

use vstd::prelude::*;

verus! {

/// One module of the project: its name and its already-rendered source text.
#[derive(Clone, Debug)]
pub struct AethaumModule {
    pub name: String,
    pub code: String,
}

/// A project description: where it lives, what it is called, and its
/// modules.
#[derive(Clone, Debug)]
pub struct AethaumProject {
    pub root: String,
    pub name: String,
    pub modules: Vec<AethaumModule>,
}

/// One file the plan asks the writer to create.
#[derive(Clone, Debug)]
pub struct GeneratedFile {
    pub path: String,
    pub content: String,
}

impl View for GeneratedFile {
    type V = (Seq<char>, Seq<char>);

    open spec fn view(&self) -> (Seq<char>, Seq<char>) {
        (self.path@, self.content@)
    }
}

/// The scaffolding plan: directories to create, then files to write, in
/// order — a later file overwrites an earlier one at the same path.
#[derive(Debug)]
pub struct TemplatePlan {
    pub dirs: Vec<String>,
    pub files: Vec<GeneratedFile>,
}

/// Why a plan could not be made.
#[derive(Clone, Debug)]
pub enum TemplateGenerationError {
    /// A module's name cannot stand as a module identifier.
    InvalidModuleName(String),
}

/// Whether `c` may open an identifier.
pub open spec fn ident_start_ok(c: char) -> bool {
    ('a' <= c && c <= 'z') || ('A' <= c && c <= 'Z') || c == '_'
}

/// Whether `c` may continue an identifier.
pub open spec fn ident_part_ok(c: char) -> bool {
    ident_start_ok(c) || ('0' <= c && c <= '9')
}

/// Whether position `j` of `s` fits its place in an identifier.
pub open spec fn ident_char_at(s: Seq<char>, j: int) -> bool {
    if j == 0 {
        ident_start_ok(s[0])
    } else {
        ident_part_ok(s[j])
    }
}

/// A nonempty identifier: a letter or underscore, then letters, digits and
/// underscores.
pub open spec fn valid_ident(s: Seq<char>) -> bool {
    s.len() > 0 && forall|j: int| 0 <= j < s.len() ==> #[trigger] ident_char_at(s, j)
}

/// Whether the given text is a valid module identifier.
pub fn is_valid_ident(s: &str) -> (r: bool)
    ensures
        r == valid_ident(s@),
{
    let n = s.unicode_len();
    if n == 0 {
        return false;
    }
    let mut i: usize = 0;
    while i < n
        invariant
            0 <= i <= n,
            n == s@.len(),
            forall|j: int| 0 <= j < i ==> #[trigger] ident_char_at(s@, j),
        decreases n - i,
    {
        let c = s.get_char(i);
        let start_ok = ('a' <= c && c <= 'z') || ('A' <= c && c <= 'Z') || c == '_';
        let ok = if i == 0 {
            start_ok
        } else {
            start_ok || ('0' <= c && c <= '9')
        };
        if !ok {
            proof {
                assert(!ident_char_at(s@, i as int));
            }
            return false;
        }
        proof {
            assert(ident_char_at(s@, i as int));
        }
        i += 1;
    }
    true
}

/// The module names of a project, as character sequences.
pub open spec fn spec_module_names(project: AethaumProject) -> Seq<Seq<char>> {
    project.modules@.map_values(|m: AethaumModule| m.name@)
}

/// The first name at or after `from` that is not a valid identifier, or
/// `names.len()`.
pub open spec fn first_invalid_name_from(names: Seq<Seq<char>>, from: int) -> int
    decreases names.len() - from,
{
    if from < 0 || from >= names.len() {
        names.len() as int
    } else if !valid_ident(names[from]) {
        from
    } else {
        first_invalid_name_from(names, from + 1)
    }
}

/// Every name before the first invalid one is valid, and the first invalid
/// one, when in range, is not.
pub proof fn lemma_first_invalid_bounds(names: Seq<Seq<char>>, from: int)
    requires
        0 <= from <= names.len(),
    ensures
        from <= first_invalid_name_from(names, from) <= names.len(),
        first_invalid_name_from(names, from) < names.len() ==> !valid_ident(
            names[first_invalid_name_from(names, from)],
        ),
        forall|j: int|
            from <= j < first_invalid_name_from(names, from) ==> valid_ident(#[trigger] names[j]),
    decreases names.len() - from,
{
    if from < names.len() && valid_ident(names[from]) {
        lemma_first_invalid_bounds(names, from + 1);
    }
}

/// The directories the plan creates, in creation order.
pub open spec fn template_dirs(root: Seq<char>, names: Seq<Seq<char>>) -> Seq<Seq<char>> {
    seq![root + "/src"@, root + "/assets"@, root + "/config"@, root + "/src/modules"@]
        + names.map_values(|n: Seq<char>| root + "/assets/modules/"@ + n) + seq![
        root + "/assets/scripts"@,
    ]
}

/// The manifest a generated project starts from.
pub open spec fn cargo_toml_content(name: Seq<char>) -> Seq<char> {
    "[package]\nname = \""@ + name
        + "\"\nversion = \"0.1.0\"\nedition = \"2024\"\n\n[dependencies]\nserde = { version = \"1.0\", features = [\"derive\"] }\nserde_json = \"1.0\"\nmlua = { version = \"0.11.2\", features = [\"lua54\", \"vendored\"] }\nbevy_ecs = \"0.16.1\"\nbevy_app = \"0.16.1\"\nsmart-string = { version = \"0.1.3\", features = [\"serde\"] }\nitertools = \"0.14.0\"\none-or-many = \"0.4.0\"\nmiette = \"7.6.0\"\nthiserror = \"2.0.16\"\n"@
}

/// The generated program's entry source.
pub open spec fn main_rs_content() -> Seq<char> {
    "use bevy::prelude::*;\nmod modules;\nmod lua_bindings;\nfn main() {\n    App::new().add_plugins(DefaultPlugins).add_plugins(lua_bindings::LuaPlugin).run();\n}\n"@
}

/// The generated library root.
pub open spec fn lib_rs_content() -> Seq<char> {
    "pub mod modules;\npub mod lua_bindings;\n"@
}

/// The module declarations for the first `n` module names.
pub open spec fn modules_decls(names: Seq<Seq<char>>, n: int) -> Seq<char>
    decreases n,
{
    if n <= 0 {
        Seq::empty()
    } else {
        modules_decls(names, n - 1) + "pub mod "@ + names[n - 1] + ";\n"@
    }
}

/// The source that declares every module.
pub open spec fn modules_rs_content(names: Seq<Seq<char>>) -> Seq<char> {
    "//! Aethaum modules\n"@ + modules_decls(names, names.len() as int)
}

/// The placeholder each module file is seeded with, until the rendered
/// module source replaces it.
pub open spec fn module_stub_content(name: Seq<char>) -> Seq<char> {
    "//! Aethaum module: "@ + name + "\n"@
}

/// The placeholder for the script bindings.
pub open spec fn lua_bindings_content() -> Seq<char> {
    "//! Lua bindings for the Aethaum runtime\n"@
}

/// The starter script each module's scripts directory is seeded with.
pub open spec fn example_lua_content(name: Seq<char>) -> Seq<char> {
    "-- Example Lua script for "@ + name + " module\nprint(\"Hello from "@ + name
        + " module!\")\n\nfunction init()\n    print(\""@ + name
        + " module Lua environment initialized\")\nend\n"@
}

/// The starter script of the root scripts directory.
pub open spec fn root_lua_content() -> Seq<char> {
    "-- Root Lua script\nprint(\"Hello from root Lua!\")\n\nfunction global_init()\n    print(\"Global Lua environment initialized\")\nend\n"@
}

/// The starter configuration file.
pub open spec fn config_toml_content() -> Seq<char> {
    "# Aethaum Configuration File\n\n[project]\nname = \"Aethaum Project\"\nversion = \"0.1.0\"\n\n[engine]\ntick_rate = 60\n\n[logging]\nlevel = \"info\"\n"@
}

/// The files the plan writes, in write order.
pub open spec fn template_files(root: Seq<char>, name: Seq<char>, names: Seq<Seq<char>>) -> Seq<
    (Seq<char>, Seq<char>),
> {
    seq![
        (root + "/Cargo.toml"@, cargo_toml_content(name)),
        (root + "/src/main.rs"@, main_rs_content()),
        (root + "/src/lib.rs"@, lib_rs_content()),
        (root + "/src/modules.rs"@, modules_rs_content(names)),
    ] + names.map_values(
        |n: Seq<char>| (root + "/src/modules/"@ + n + ".rs"@, module_stub_content(n)),
    ) + seq![(root + "/src/lua_bindings.rs"@, lua_bindings_content())] + names.map_values(
        |n: Seq<char>|
            (root + "/assets/modules/"@ + n + "/scripts/example.lua"@, example_lua_content(n)),
    ) + seq![
        (root + "/assets/scripts/example.lua"@, root_lua_content()),
        (root + "/config/config.toml"@, config_toml_content()),
    ]
}

/// Plans a generated project's scaffolding.
pub struct ProjectTemplateGenerator;

impl ProjectTemplateGenerator {
    /// Computes the directory tree and seed files for `project` under
    /// `project_path`. Succeeds exactly when every module name is a valid
    /// identifier; otherwise reports the first that is not.
    pub fn generate(project_path: &str, project: &AethaumProject) -> (r: Result<
        TemplatePlan,
        TemplateGenerationError,
    >)
        ensures
            ({
                let names = spec_module_names(*project);
                match r {
                    Ok(plan) => {
                        &&& forall|i: int| 0 <= i < names.len() ==> valid_ident(#[trigger] names[i])
                        &&& plan.dirs@.map_values(|s: String| s@) == template_dirs(
                            project_path@,
                            names,
                        )
                        &&& plan.files@.map_values(|f: GeneratedFile| f@) == template_files(
                            project_path@,
                            project.name@,
                            names,
                        )
                    },
                    Err(TemplateGenerationError::InvalidModuleName(n)) => {
                        let i = first_invalid_name_from(names, 0);
                        i < names.len() && n@ == names[i]
                    },
                }
            }),
    {
        let ghost names = spec_module_names(*project);
        let base: String = project_path.to_owned();
        let m = project.modules.len();

        let mut i: usize = 0;
        while i < m
            invariant
                0 <= i <= m,
                m == names.len(),
                names == spec_module_names(*project),
                first_invalid_name_from(names, 0) == first_invalid_name_from(names, i as int),
            decreases m - i,
        {
            if !is_valid_ident(project.modules[i].name.as_str()) {
                proof {
                    assert(first_invalid_name_from(names, i as int) == i as int);
                }
                return Err(
                    TemplateGenerationError::InvalidModuleName(project.modules[i].name.clone()),
                );
            }
            proof {
                assert(first_invalid_name_from(names, i as int) == first_invalid_name_from(
                    names,
                    i + 1,
                ));
            }
            i += 1;
        }
        proof {
            assert(first_invalid_name_from(names, m as int) == names.len());
            lemma_first_invalid_bounds(names, 0);
        }

        let mut dirs: Vec<String> = Vec::new();
        dirs.push(base.clone().concat("/src"));
        dirs.push(base.clone().concat("/assets"));
        dirs.push(base.clone().concat("/config"));
        dirs.push(base.clone().concat("/src/modules"));
        let mut i: usize = 0;
        while i < m
            invariant
                0 <= i <= m,
                m == names.len(),
                names == spec_module_names(*project),
                base@ == project_path@,
                dirs@.len() == 4 + i,
                forall|j: int|
                    0 <= j < 4 + i ==> (#[trigger] dirs@[j])@ == template_dirs(
                        project_path@,
                        names,
                    )[j],
            decreases m - i,
        {
            dirs.push(base.clone().concat("/assets/modules/").concat(project.modules[i].name.as_str()));
            i += 1;
        }
        dirs.push(base.clone().concat("/assets/scripts"));
        proof {
            assert(dirs@.map_values(|s: String| s@) =~= template_dirs(project_path@, names));
        }

        let mut modules_rs = String::from_str("//! Aethaum modules\n");
        let mut i: usize = 0;
        while i < m
            invariant
                0 <= i <= m,
                m == names.len(),
                names == spec_module_names(*project),
                modules_rs@ == "//! Aethaum modules\n"@ + modules_decls(names, i as int),
            decreases m - i,
        {
            modules_rs.append("pub mod ");
            modules_rs.append(project.modules[i].name.as_str());
            modules_rs.append(";\n");
            proof {
                assert(modules_decls(names, i + 1) == modules_decls(names, i as int) + "pub mod "@
                    + names[i as int] + ";\n"@);
            }
            i += 1;
        }

        let mut files: Vec<GeneratedFile> = Vec::new();
        files.push(
            GeneratedFile {
                path: base.clone().concat("/Cargo.toml"),
                content: cargo_toml_text(project.name.as_str()),
            },
        );
        files.push(
            GeneratedFile {
                path: base.clone().concat("/src/main.rs"),
                content: String::from_str(
                    "use bevy::prelude::*;\nmod modules;\nmod lua_bindings;\nfn main() {\n    App::new().add_plugins(DefaultPlugins).add_plugins(lua_bindings::LuaPlugin).run();\n}\n",
                ),
            },
        );
        files.push(
            GeneratedFile {
                path: base.clone().concat("/src/lib.rs"),
                content: String::from_str("pub mod modules;\npub mod lua_bindings;\n"),
            },
        );
        files.push(
            GeneratedFile { path: base.clone().concat("/src/modules.rs"), content: modules_rs },
        );
        let ghost files_model = template_files(project_path@, project.name@, names);
        proof {
            assert(forall|j: int|
                0 <= j < 4 ==> (#[trigger] files@[j])@ == files_model[j]);
        }
        let mut i: usize = 0;
        while i < m
            invariant
                0 <= i <= m,
                m == names.len(),
                names == spec_module_names(*project),
                base@ == project_path@,
                files_model == template_files(project_path@, project.name@, names),
                files@.len() == 4 + i,
                forall|j: int| 0 <= j < 4 + i ==> (#[trigger] files@[j])@ == files_model[j],
            decreases m - i,
        {
            let name = project.modules[i].name.as_str();
            let path = base.clone().concat("/src/modules/").concat(name).concat(".rs");
            let content = String::from_str("//! Aethaum module: ").concat(name).concat("\n");
            files.push(GeneratedFile { path, content });
            i += 1;
        }
        files.push(
            GeneratedFile {
                path: base.clone().concat("/src/lua_bindings.rs"),
                content: String::from_str("//! Lua bindings for the Aethaum runtime\n"),
            },
        );
        let mut i: usize = 0;
        while i < m
            invariant
                0 <= i <= m,
                m == names.len(),
                names == spec_module_names(*project),
                base@ == project_path@,
                files_model == template_files(project_path@, project.name@, names),
                files@.len() == 5 + m + i,
                forall|j: int| 0 <= j < 5 + m + i ==> (#[trigger] files@[j])@ == files_model[j],
            decreases m - i,
        {
            let name = project.modules[i].name.as_str();
            let path = base.clone().concat("/assets/modules/").concat(name).concat(
                "/scripts/example.lua",
            );
            let content = String::from_str("-- Example Lua script for ").concat(name).concat(
                " module\nprint(\"Hello from ",
            ).concat(name).concat(" module!\")\n\nfunction init()\n    print(\"").concat(
                name,
            ).concat(" module Lua environment initialized\")\nend\n");
            files.push(GeneratedFile { path, content });
            i += 1;
        }
        files.push(
            GeneratedFile {
                path: base.clone().concat("/assets/scripts/example.lua"),
                content: String::from_str(
                    "-- Root Lua script\nprint(\"Hello from root Lua!\")\n\nfunction global_init()\n    print(\"Global Lua environment initialized\")\nend\n",
                ),
            },
        );
        files.push(
            GeneratedFile {
                path: base.clone().concat("/config/config.toml"),
                content: String::from_str(
                    "# Aethaum Configuration File\n\n[project]\nname = \"Aethaum Project\"\nversion = \"0.1.0\"\n\n[engine]\ntick_rate = 60\n\n[logging]\nlevel = \"info\"\n",
                ),
            },
        );
        proof {
            assert(files@.map_values(|f: GeneratedFile| f@) =~= files_model);
        }
        Ok(TemplatePlan { dirs, files })
    }
}

/// Renders the starter manifest for a project name.
fn cargo_toml_text(name: &str) -> (r: String)
    ensures
        r@ == cargo_toml_content(name@),
{
    String::from_str("[package]\nname = \"").concat(name).concat(
        "\"\nversion = \"0.1.0\"\nedition = \"2024\"\n\n[dependencies]\nserde = { version = \"1.0\", features = [\"derive\"] }\nserde_json = \"1.0\"\nmlua = { version = \"0.11.2\", features = [\"lua54\", \"vendored\"] }\nbevy_ecs = \"0.16.1\"\nbevy_app = \"0.16.1\"\nsmart-string = { version = \"0.1.3\", features = [\"serde\"] }\nitertools = \"0.14.0\"\none-or-many = \"0.4.0\"\nmiette = \"7.6.0\"\nthiserror = \"2.0.16\"\n",
    )
}

} // verus!
