//! Plans the whole output of a generation run: the project scaffolding under
//! the project's `generated` directory, followed by each module's rendered
//! source file. The caller writes the plan to disk, in order.

use vstd::prelude::*;
use crate::project_template::{
    first_invalid_name_from, spec_module_names, template_dirs, template_files, valid_ident,
    AethaumModule, AethaumProject, GeneratedFile, ProjectTemplateGenerator, TemplatePlan,
    TemplateGenerationError,
};

verus! {

/// Why a generation run produced no plan.
#[derive(Clone, Debug)]
pub enum CodeGenerationError {
    /// The scaffolding could not be planned.
    TemplateGeneration(TemplateGenerationError),
}

/// The root of the tree a generation run writes into.
pub open spec fn generated_root(project: AethaumProject) -> Seq<char> {
    project.root@ + "/generated"@
}

/// The module source files a generation run writes after the scaffolding,
/// one per module, replacing that module's seed file.
pub open spec fn module_code_files(project: AethaumProject) -> Seq<(Seq<char>, Seq<char>)> {
    project.modules@.map_values(
        |mo: AethaumModule|
            (generated_root(project) + "/src/modules/"@ + mo.name@ + ".rs"@, mo.code@),
    )
}

/// Plans a full generation run for one project.
pub struct CodeGenerator {
    project: AethaumProject,
}

impl CodeGenerator {
    /// The project this generator was made for.
    pub closed spec fn spec_project(&self) -> AethaumProject {
        self.project
    }

    pub fn new(project: AethaumProject) -> (r: Self)
        ensures
            r.spec_project() == project,
    {
        Self { project }
    }

    /// Computes everything a generation run writes: the scaffolding under
    /// the project's `generated` directory, then each module's rendered
    /// source over its seed file. Succeeds exactly when every module name is
    /// a valid identifier; otherwise reports the first that is not.
    pub fn generate(&self) -> (r: Result<TemplatePlan, CodeGenerationError>)
        ensures
            ({
                let names = spec_module_names(self.spec_project());
                let root = generated_root(self.spec_project());
                match r {
                    Ok(plan) => {
                        &&& forall|i: int| 0 <= i < names.len() ==> valid_ident(#[trigger] names[i])
                        &&& plan.dirs@.map_values(|s: String| s@) == template_dirs(root, names)
                        &&& plan.files@.map_values(|f: GeneratedFile| f@) == template_files(
                            root,
                            self.spec_project().name@,
                            names,
                        ) + module_code_files(self.spec_project())
                    },
                    Err(CodeGenerationError::TemplateGeneration(
                        TemplateGenerationError::InvalidModuleName(n),
                    )) => {
                        let i = first_invalid_name_from(names, 0);
                        i < names.len() && n@ == names[i]
                    },
                }
            }),
    {
        let root = self.project.root.clone().concat("/generated");
        let mut plan = match ProjectTemplateGenerator::generate(root.as_str(), &self.project) {
            Ok(p) => p,
            Err(e) => {
                return Err(CodeGenerationError::TemplateGeneration(e));
            },
        };
        let ghost scaffold = template_files(
            generated_root(self.spec_project()),
            self.spec_project().name@,
            spec_module_names(self.spec_project()),
        );
        proof {
            assert(plan.files@.map_values(|f: GeneratedFile| f@).len() == scaffold.len());
            assert forall|j: int| 0 <= j < scaffold.len() implies (#[trigger] plan.files@[j])@
                == scaffold[j] by {
                assert(plan.files@.map_values(|f: GeneratedFile| f@)[j] == (plan.files@[j])@);
            }
        }
        let m = self.project.modules.len();
        let mut i: usize = 0;
        while i < m
            invariant
                0 <= i <= m,
                m == self.project.modules@.len(),
                root@ == generated_root(self.spec_project()),
                plan.dirs@.map_values(|s: String| s@) == template_dirs(
                    generated_root(self.spec_project()),
                    spec_module_names(self.spec_project()),
                ),
                plan.files@.len() == scaffold.len() + i,
                forall|j: int|
                    0 <= j < scaffold.len() ==> (#[trigger] plan.files@[j])@ == scaffold[j],
                forall|j: int|
                    0 <= j < i ==> (#[trigger] plan.files@[scaffold.len() + j])@
                        == module_code_files(self.spec_project())[j],
            decreases m - i,
        {
            let mo = &self.project.modules[i];
            let path = root.clone().concat("/src/modules/").concat(mo.name.as_str()).concat(".rs");
            let content = mo.code.clone();
            plan.files.push(GeneratedFile { path, content });
            i += 1;
        }
        proof {
            let mcf = module_code_files(self.spec_project());
            let all = plan.files@.map_values(|f: GeneratedFile| f@);
            assert forall|k: int| 0 <= k < all.len() implies all[k] == (scaffold + mcf)[k] by {
                if k < scaffold.len() {
                    assert((plan.files@[k])@ == scaffold[k]);
                } else {
                    let j = k - scaffold.len();
                    assert((plan.files@[scaffold.len() + j])@ == mcf[j]);
                }
            }
            assert(all =~= scaffold + mcf);
        }
        Ok(plan)
    }
}

} // verus!
