use vstd::prelude::*;
use crate::contributor::{parses_to, Contributor};
use crate::contributor::parse_contributor;
use crate::error::Error;
use crate::render::{manifest_toml, render_manifest};
use crate::split::{split_list, split_nonempty};

verus! {

/// The `build-system` table: build-time dependency specifiers and the build
/// backend entry point. Both are always serialized, even when the defaults
/// were accepted unchanged.
#[derive(Debug)]
pub struct BuildSystem {
    pub requires: Vec<String>,
    pub build_backend: String,
}

/// The `project` table. `name` and `version` are required; every other
/// field is optional and omitted from the serialized output while empty.
#[derive(Debug)]
pub struct Project {
    pub name: String,
    pub version: String,
    pub description: String,
    pub readme: String,
    pub requires_python: String,
    pub license: String,
    pub authors: Vec<Contributor>,
    pub maintainers: Vec<Contributor>,
    pub keywords: Vec<String>,
    pub classifiers: Vec<String>,
}

impl Default for BuildSystem {
    fn default() -> (r: Self)
        ensures
            r.requires@.len() == 0,
            r.build_backend@.len() == 0,
    {
        BuildSystem { requires: Vec::new(), build_backend: String::new() }
    }
}

impl Default for Project {
    fn default() -> (r: Self)
        ensures
            r.name@.len() == 0,
            r.version@.len() == 0,
            r.description@.len() == 0,
            r.readme@.len() == 0,
            r.requires_python@.len() == 0,
            r.license@.len() == 0,
            r.authors@.len() == 0,
            r.maintainers@.len() == 0,
            r.keywords@.len() == 0,
            r.classifiers@.len() == 0,
    {
        Project {
            name: String::new(),
            version: String::new(),
            description: String::new(),
            readme: String::new(),
            requires_python: String::new(),
            license: String::new(),
            authors: Vec::new(),
            maintainers: Vec::new(),
            keywords: Vec::new(),
            classifiers: Vec::new(),
        }
    }
}

/// The raw text the user typed at each prompt, in prompt order. An empty
/// string stands for an empty confirmation: the field's default applies
/// where one exists.
#[derive(Debug)]
pub struct Answers {
    pub build_requires: String,
    pub build_backend: String,
    pub name: String,
    pub version: String,
    pub description: String,
    pub readme: String,
    pub requires_python: String,
    pub license: String,
    pub authors: String,
    pub maintainers: String,
    pub keywords: String,
    pub classifiers: String,
}

impl Default for Answers {
    fn default() -> (r: Self)
        ensures
            r.build_requires@.len() == 0,
            r.build_backend@.len() == 0,
            r.name@.len() == 0,
            r.version@.len() == 0,
            r.description@.len() == 0,
            r.readme@.len() == 0,
            r.requires_python@.len() == 0,
            r.license@.len() == 0,
            r.authors@.len() == 0,
            r.maintainers@.len() == 0,
            r.keywords@.len() == 0,
            r.classifiers@.len() == 0,
    {
        Answers {
            build_requires: String::new(),
            build_backend: String::new(),
            name: String::new(),
            version: String::new(),
            description: String::new(),
            readme: String::new(),
            requires_python: String::new(),
            license: String::new(),
            authors: String::new(),
            maintainers: String::new(),
            keywords: String::new(),
            classifiers: String::new(),
        }
    }
}

/// The answer that applies: the typed text, or the default when the typed
/// text is empty.
pub open spec fn default_if_empty(raw: Seq<char>, dflt: Seq<char>) -> Seq<char> {
    if raw.len() == 0 {
        dflt
    } else {
        raw
    }
}

/// The string list `v` holds exactly the character sequences `s`, in order.
pub open spec fn strs_match(v: Seq<String>, s: Seq<Seq<char>>) -> bool {
    v.len() == s.len() && forall|k: int| 0 <= k < v.len() ==> (#[trigger] v[k])@ == s[k]
}

/// The contributor list `v` parses, element by element and in order, from
/// the token list `s`.
pub open spec fn contributors_match(v: Seq<Contributor>, s: Seq<Seq<char>>) -> bool {
    v.len() == s.len() && forall|k: int| 0 <= k < v.len() ==> parses_to(s[k], #[trigger] v[k])
}

/// The whole in-memory manifest: where it came from, how deep the question
/// sequence goes, and the two tables of the document.
#[derive(Debug)]
pub struct Pyproject {
    pub folder_name: Option<String>,
    pub minimum: bool,
    pub build_system: BuildSystem,
    pub project: Project,
}

/// Resolves the project name: the typed text when there is any, else the
/// name derived from the project root, else the run fails with
/// `InvalidProjectRoot`.
pub fn resolve_project_name(folder_name: &Option<String>, raw: &str) -> (r: Result<String, Error>)
    ensures
        raw@.len() != 0 ==> (r matches Ok(s) && s@ == raw@),
        raw@.len() == 0 ==> (folder_name matches Some(h) ==> (r matches Ok(s) && s@ == h@)),
        raw@.len() == 0 && folder_name is None ==> r == Err::<String, Error>(
            Error::InvalidProjectRoot,
        ),
{
    if !raw.is_empty() {
        Ok(raw.to_owned())
    } else {
        match folder_name {
            Some(h) => Ok(h.clone()),
            None => Err(Error::InvalidProjectRoot),
        }
    }
}

/// Parses a semicolon-separated contributor list: each non-empty piece runs
/// through the contributor parser, in order.
pub fn parse_contributors(input: &str) -> (r: Vec<Contributor>)
    ensures
        contributors_match(r@, split_nonempty(input@, ';')),
{
    let pieces = split_list(input, ';');
    let mut r: Vec<Contributor> = Vec::new();
    let mut i: usize = 0;
    while i < pieces.len()
        invariant
            i <= pieces@.len(),
            r@.len() == i,
            pieces@.len() == split_nonempty(input@, ';').len(),
            forall|k: int|
                0 <= k < pieces@.len() ==> (#[trigger] pieces@[k])@ == split_nonempty(input@, ';')[k],
            forall|k: int| 0 <= k < i ==> parses_to(split_nonempty(input@, ';')[k], #[trigger] r@[k]),
        decreases pieces@.len() - i,
    {
        r.push(parse_contributor(pieces[i].as_str()));
        i = i + 1;
    }
    r
}

impl Pyproject {
    /// A fresh manifest for a project root whose base name is
    /// `folder_name` (`None` when the root has no file-name component),
    /// with both tables empty. `minimum` limits the question sequence to
    /// the build-system fields, the name and the version.
    pub fn new(folder_name: Option<String>, minimum: bool) -> (r: Self)
        ensures
            r.folder_name == folder_name,
            r.minimum == minimum,
            r.build_system.requires@.len() == 0,
            r.build_system.build_backend@.len() == 0,
            r.project.name@.len() == 0,
            r.project.version@.len() == 0,
            r.project.description@.len() == 0,
            r.project.readme@.len() == 0,
            r.project.requires_python@.len() == 0,
            r.project.license@.len() == 0,
            r.project.authors@.len() == 0,
            r.project.maintainers@.len() == 0,
            r.project.keywords@.len() == 0,
            r.project.classifiers@.len() == 0,
    {
        Pyproject {
            folder_name,
            minimum,
            build_system: BuildSystem::default(),
            project: Project::default(),
        }
    }

    /// Populates the manifest from the collected answers, applying the
    /// default-value and empty-handling policy of each field in the fixed
    /// prompt order. Fails with `InvalidProjectRoot`, leaving the manifest
    /// untouched, exactly when no name was typed and none can be derived
    /// from the project root.
    pub fn ask_inputs(&mut self, answers: &Answers) -> (r: Result<(), Error>)
        ensures
            r is Ok <==> !(answers.name@.len() == 0 && old(self).folder_name is None),
            r is Err ==> r == Err::<(), Error>(Error::InvalidProjectRoot) && *final(self) == *old(
                self,
            ),
            r is Ok ==> {
                &&& final(self).folder_name == old(self).folder_name
                &&& final(self).minimum == old(self).minimum
                &&& strs_match(
                    final(self).build_system.requires@,
                    split_nonempty(
                        default_if_empty(answers.build_requires@, "setuptools,wheel"@),
                        ',',
                    ),
                )
                &&& final(self).build_system.build_backend@ == default_if_empty(
                    answers.build_backend@,
                    "setuptools.build_meta"@,
                )
                &&& (answers.name@.len() != 0 ==> final(self).project.name@ == answers.name@)
                &&& (answers.name@.len() == 0 ==> (old(self).folder_name matches Some(h)
                    ==> final(self).project.name@ == h@))
                &&& (old(self).folder_name matches Some(h) ==> (h@.len() != 0
                    ==> final(self).project.name@.len() != 0))
                &&& final(self).project.version@ == default_if_empty(answers.version@, "0.1.0"@)
            },
            r is Ok && old(self).minimum ==> {
                &&& final(self).project.description@.len() == 0
                &&& final(self).project.readme@.len() == 0
                &&& final(self).project.requires_python@.len() == 0
                &&& final(self).project.license@.len() == 0
                &&& final(self).project.authors@.len() == 0
                &&& final(self).project.maintainers@.len() == 0
                &&& final(self).project.keywords@.len() == 0
                &&& final(self).project.classifiers@.len() == 0
            },
            r is Ok && !old(self).minimum ==> {
                &&& final(self).project.description@ == answers.description@
                &&& final(self).project.readme@ == answers.readme@
                &&& final(self).project.requires_python@ == answers.requires_python@
                &&& final(self).project.license@ == answers.license@
                &&& contributors_match(
                    final(self).project.authors@,
                    split_nonempty(answers.authors@, ';'),
                )
                &&& contributors_match(
                    final(self).project.maintainers@,
                    split_nonempty(answers.maintainers@, ';'),
                )
                &&& strs_match(
                    final(self).project.keywords@,
                    split_nonempty(answers.keywords@, ';'),
                )
                &&& strs_match(
                    final(self).project.classifiers@,
                    split_nonempty(answers.classifiers@, ';'),
                )
            },
    {
        let name = match resolve_project_name(&self.folder_name, answers.name.as_str()) {
            Ok(n) => n,
            Err(e) => {
                return Err(e);
            },
        };
        let reqs = if answers.build_requires.as_str().is_empty() {
            split_list("setuptools,wheel", ',')
        } else {
            split_list(answers.build_requires.as_str(), ',')
        };
        let build_backend = if answers.build_backend.as_str().is_empty() {
            "setuptools.build_meta".to_owned()
        } else {
            answers.build_backend.clone()
        };
        let version = if answers.version.as_str().is_empty() {
            "0.1.0".to_owned()
        } else {
            answers.version.clone()
        };
        let mut project = Project::default();
        project.name = name;
        project.version = version;
        if !self.minimum {
            project.description = answers.description.clone();
            project.readme = answers.readme.clone();
            project.requires_python = answers.requires_python.clone();
            project.license = answers.license.clone();
            project.authors = parse_contributors(answers.authors.as_str());
            project.maintainers = parse_contributors(answers.maintainers.as_str());
            project.keywords = split_list(answers.keywords.as_str(), ';');
            project.classifiers = split_list(answers.classifiers.as_str(), ';');
        }
        self.build_system = BuildSystem { requires: reqs, build_backend };
        self.project = project;
        Ok(())
    }

    /// The collected project name.
    pub fn get_project_name(&self) -> (r: String)
        ensures
            r@ == self.project.name@,
    {
        self.project.name.clone()
    }

    /// Serializes the manifest to the on-disk document text.
    pub fn to_toml(&self) -> (r: String)
        ensures
            r@ == manifest_toml(self.build_system, self.project),
    {
        render_manifest(&self.build_system, &self.project)
    }
}

/// Runs the whole collection in one call: a fresh manifest for the given
/// project-root hint, populated from the answers. Fails with
/// `InvalidProjectRoot` exactly when no name was typed and none can be
/// derived from the root.
pub fn ask_user_inputs(minimum: bool, folder_name: Option<String>, answers: &Answers) -> (r:
    Result<Pyproject, Error>)
    ensures
        r is Ok <==> !(answers.name@.len() == 0 && folder_name is None),
        r is Err ==> r == Err::<Pyproject, Error>(Error::InvalidProjectRoot),
        r matches Ok(p) ==> {
            &&& p.folder_name == folder_name
            &&& p.minimum == minimum
            &&& strs_match(
                p.build_system.requires@,
                split_nonempty(default_if_empty(answers.build_requires@, "setuptools,wheel"@), ','),
            )
            &&& p.build_system.build_backend@ == default_if_empty(
                answers.build_backend@,
                "setuptools.build_meta"@,
            )
            &&& (answers.name@.len() != 0 ==> p.project.name@ == answers.name@)
            &&& (answers.name@.len() == 0 ==> (folder_name matches Some(h) ==> p.project.name@
                == h@))
            &&& (folder_name matches Some(h) ==> (h@.len() != 0 ==> p.project.name@.len() != 0))
            &&& p.project.version@ == default_if_empty(answers.version@, "0.1.0"@)
        },
        minimum ==> (r matches Ok(p) ==> {
            &&& p.project.description@.len() == 0
            &&& p.project.readme@.len() == 0
            &&& p.project.requires_python@.len() == 0
            &&& p.project.license@.len() == 0
            &&& p.project.authors@.len() == 0
            &&& p.project.maintainers@.len() == 0
            &&& p.project.keywords@.len() == 0
            &&& p.project.classifiers@.len() == 0
        }),
        !minimum ==> (r matches Ok(p) ==> {
            &&& p.project.description@ == answers.description@
            &&& p.project.readme@ == answers.readme@
            &&& p.project.requires_python@ == answers.requires_python@
            &&& p.project.license@ == answers.license@
            &&& contributors_match(p.project.authors@, split_nonempty(answers.authors@, ';'))
            &&& contributors_match(
                p.project.maintainers@,
                split_nonempty(answers.maintainers@, ';'),
            )
            &&& strs_match(p.project.keywords@, split_nonempty(answers.keywords@, ';'))
            &&& strs_match(p.project.classifiers@, split_nonempty(answers.classifiers@, ';'))
        }),
{
    let mut p = Pyproject::new(folder_name, minimum);
    match p.ask_inputs(answers) {
        Ok(()) => Ok(p),
        Err(e) => Err(e),
    }
}

} // verus!
