//! Release steps as command pipelines: publishing, tagging, pushing and
//! uploading assets.
//!
//! Each step is built here as an exact, prepared command; running the
//! commands is process work and stays outside the verified core, which
//! also decides, from a captured search output, whether a package version
//! may be published.
use vstd::prelude::*;

use crate::runner::{no_op, program, Prepared, Runner, StageView, Unprepared};

verus! {

/// The failures of the release steps.
#[derive(Debug, Clone, PartialEq, Eq)]
pub enum TaskError {
    /// A packaged asset is missing at the given path.
    AssetNotFound(String),
    /// The registry search did not yield a version for the package.
    CrateVersionNotFound { name: String, version: String },
    /// The registry already serves exactly this version.
    PackageAlreadyPublished { name: String, version: String },
    /// A spawned command exited with a non-success status.
    CommandFailed { code: Option<i32>, command: String },
}

/// The name and version of the package a release concerns.
#[derive(Debug, Clone, PartialEq, Eq)]
pub struct CargoTomlPackage {
    pub name: String,
    pub version: String,
}

/// A loaded manifest: where it lives and the package it declares.
#[derive(Debug)]
pub struct CargoToml {
    pub path: String,
    pub package: CargoTomlPackage,
}

/// The release tag of a package: its name, `-v`, its version.
pub open spec fn spec_next_tag(name: Seq<char>, version: Seq<char>) -> Seq<char> {
    name + "-v"@ + version
}

/// Renders the release tag of a package.
pub fn create_next_tag(package: &CargoTomlPackage) -> (r: String)
    ensures
        r@ == spec_next_tag(package.name@, package.version@),
{
    let mut out = String::new();
    crate::strings::push_str(&mut out, package.name.as_str());
    crate::strings::push_str(&mut out, "-v");
    crate::strings::push_str(&mut out, package.version.as_str());
    out
}

/// A single-stage pipeline with the given program and arguments and no
/// environment.
pub open spec fn spec_single(prog: Seq<char>, args: Seq<Seq<char>>) -> Seq<StageView> {
    seq![StageView { program: prog, args, env: Seq::empty() }]
}

/// The publish command for a manifest path.
fn runner_to_publish(toml: &str) -> (r: Runner<Unprepared>)
    ensures
        r.wf(),
        r.spec_chain() == spec_single(
            "cargo"@,
            seq!["publish"@, "--manifest-path"@, toml@],
        ),
{
    let r = program("cargo".to_owned()).arg("publish").arg("--manifest-path").arg(toml);
    proof {
        assert(r.spec_chain() =~~= spec_single(
            "cargo"@,
            seq!["publish"@, "--manifest-path"@, toml@],
        ));
    }
    r
}

/// Prepares a runner whose validation cannot fail.
fn prepare_always(r: Runner<Unprepared>) -> (p: Runner<Prepared>)
    requires
        r.wf(),
    ensures
        p.wf(),
        p.spec_chain() == r.spec_chain(),
{
    match r.prepare(no_op::<TaskError>) {
        Ok(p) => p,
        Err(_) => {
            proof {
                assert(false);
            }
            vstd::pervasive::unreached()
        },
    }
}

/// What release commands are issued for: one package of one manifest.
pub struct ReleaseTerminal {
    cargo_toml_path: String,
    next_tag: String,
    package: CargoTomlPackage,
}

impl ReleaseTerminal {
    /// The manifest path commands refer to.
    pub closed spec fn spec_path(&self) -> Seq<char> {
        self.cargo_toml_path@
    }

    /// The release tag of this package.
    pub closed spec fn spec_tag(&self) -> Seq<char> {
        self.next_tag@
    }

    /// The package name.
    pub closed spec fn spec_name(&self) -> Seq<char> {
        self.package.name@
    }

    /// The package version.
    pub closed spec fn spec_version(&self) -> Seq<char> {
        self.package.version@
    }

    /// Captures the manifest and derives the release tag.
    pub fn load(cargo_toml: &CargoToml) -> (r: Result<ReleaseTerminal, TaskError>)
        ensures
            r matches Ok(t) && t.spec_path() == cargo_toml.path@ && t.spec_tag() == spec_next_tag(
                cargo_toml.package.name@,
                cargo_toml.package.version@,
            ) && t.spec_name() == cargo_toml.package.name@ && t.spec_version()
                == cargo_toml.package.version@,
    {
        Ok(
            ReleaseTerminal {
                cargo_toml_path: cargo_toml.path.clone(),
                next_tag: create_next_tag(&cargo_toml.package),
                package: CargoTomlPackage {
                    name: cargo_toml.package.name.clone(),
                    version: cargo_toml.package.version.clone(),
                },
            },
        )
    }

    /// The publish command of this package.
    pub fn cargo_publish(&self) -> (r: Runner<Prepared>)
        ensures
            r.spec_chain() == spec_single(
                "cargo"@,
                seq!["publish"@, "--manifest-path"@, self.spec_path()],
            ),
    {
        prepare_always(runner_to_publish(self.cargo_toml_path.as_str()))
    }

    /// The publish rehearsal command of this package.
    pub fn cargo_publish_dry_run(&self) -> (r: Runner<Prepared>)
        ensures
            r.spec_chain() == spec_single(
                "cargo"@,
                seq!["publish"@, "--manifest-path"@, self.spec_path(), "--dry-run"@],
            ),
    {
        let runner = runner_to_publish(self.cargo_toml_path.as_str()).arg("--dry-run");
        proof {
            assert(runner.spec_chain() =~~= spec_single(
                "cargo"@,
                seq!["publish"@, "--manifest-path"@, self.spec_path(), "--dry-run"@],
            ));
        }
        prepare_always(runner)
    }

    /// The search command whose output `cargo_search_judge` inspects.
    pub fn cargo_search(&self) -> (r: Runner<Prepared>)
        ensures
            r.spec_chain() == spec_single("cargo"@, seq!["search"@, self.spec_name()]),
    {
        let runner = program("cargo".to_owned()).arg("search").arg(self.package.name.as_str());
        proof {
            assert(runner.spec_chain() =~~= spec_single(
                "cargo"@,
                seq!["search"@, self.spec_name()],
            ));
        }
        prepare_always(runner)
    }

    /// Decides from a captured search output whether this version may be
    /// published: the version the registry lists must exist and differ
    /// from the one to be released.
    pub fn cargo_search_judge(&self, search_output: &str) -> (r: Result<(), TaskError>)
        ensures
            ({
                let listed = toml_string_of(search_output@, self.spec_name());
                &&& (r is Ok <==> (listed matches Some(v) && v != self.spec_version()))
                &&& listed is None ==> (r matches Err(e)
                    && e matches TaskError::CrateVersionNotFound { name, version } && name@
                    == self.spec_name() && version@ == self.spec_version())
                &&& (listed matches Some(v) && v == self.spec_version()) ==> (r matches Err(e)
                    && e matches TaskError::PackageAlreadyPublished { name, version } && name@
                    == self.spec_name() && version@ == self.spec_version())
            }),
    {
        let listed = extract_version(search_output, self.package.name.as_str());
        judge_listed_version(&listed, &self.package)
    }

    /// The two commands configuring the committing identity.
    pub fn git_config(&self) -> (r: (Runner<Prepared>, Runner<Prepared>))
        ensures
            r.0.spec_chain() == spec_single(
                "git"@,
                seq![
                    "config"@,
                    "user.email"@,
                    "41898282+github-actions[bot]@users.noreply.github.com"@,
                ],
            ),
            r.1.spec_chain() == spec_single(
                "git"@,
                seq!["config"@, "user.name"@, "github-actions[bot]"@],
            ),
    {
        let email = program("git".to_owned()).arg("config").arg("user.email").arg(
            "41898282+github-actions[bot]@users.noreply.github.com",
        );
        let name = program("git".to_owned()).arg("config").arg("user.name").arg(
            "github-actions[bot]",
        );
        proof {
            assert(email.spec_chain() =~~= spec_single(
                "git"@,
                seq![
                    "config"@,
                    "user.email"@,
                    "41898282+github-actions[bot]@users.noreply.github.com"@,
                ],
            ));
            assert(name.spec_chain() =~~= spec_single(
                "git"@,
                seq!["config"@, "user.name"@, "github-actions[bot]"@],
            ));
        }
        (prepare_always(email), prepare_always(name))
    }

    /// The command tagging the release.
    pub fn git_tag(&self) -> (r: Runner<Prepared>)
        ensures
            r.spec_chain() == spec_single(
                "git"@,
                seq!["tag"@, "-a"@, self.spec_tag(), "-m"@, ""@],
            ),
    {
        let runner = program("git".to_owned()).arg("tag").arg("-a").arg(
            self.next_tag.as_str(),
        ).arg("-m").arg("");
        proof {
            assert(runner.spec_chain() =~~= spec_single(
                "git"@,
                seq!["tag"@, "-a"@, self.spec_tag(), "-m"@, ""@],
            ));
        }
        prepare_always(runner)
    }

    /// The command pushing the release tag.
    pub fn git_push(&self) -> (r: Runner<Prepared>)
        ensures
            r.spec_chain() == spec_single("git"@, seq!["push"@, "origin"@, self.spec_tag()]),
    {
        let runner = program("git".to_owned()).arg("push").arg("origin").arg(
            self.next_tag.as_str(),
        );
        proof {
            assert(runner.spec_chain() =~~= spec_single(
                "git"@,
                seq!["push"@, "origin"@, self.spec_tag()],
            ));
        }
        prepare_always(runner)
    }

    /// The command opening the release under the tag.
    pub fn gh_release_create(&self) -> (r: Runner<Prepared>)
        ensures
            r.spec_chain() == spec_single(
                "gh"@,
                seq!["release"@, "create"@, self.spec_tag(), "--notes"@, ""@],
            ),
    {
        let runner = program("gh".to_owned()).arg("release").arg("create").arg(
            self.next_tag.as_str(),
        ).arg("--notes").arg("");
        proof {
            assert(runner.spec_chain() =~~= spec_single(
                "gh"@,
                seq!["release"@, "create"@, self.spec_tag(), "--notes"@, ""@],
            ));
        }
        prepare_always(runner)
    }

    /// Where the packaged assets of this release must lie, one path per
    /// build target.
    pub fn asset_paths(&self, triples: &Vec<String>) -> (r: Vec<String>)
        ensures
            r@.len() == triples@.len(),
            forall|i: int|
                0 <= i < r@.len() ==> #[trigger] r@[i]@ == spec_asset_path(
                    self.spec_tag(),
                    triples@[i]@,
                ),
    {
        let mut out: Vec<String> = Vec::new();
        let n = triples.len();
        let mut i: usize = 0;
        while i < n
            invariant
                i <= n,
                n == triples@.len(),
                out@.len() == i,
                forall|j: int|
                    0 <= j < i ==> #[trigger] out@[j]@ == spec_asset_path(
                        self.spec_tag(),
                        triples@[j]@,
                    ),
            decreases n - i,
        {
            let mut path = String::new();
            crate::strings::push_str(&mut path, "./dist/release/");
            crate::strings::push_str(&mut path, triples[i].as_str());
            crate::strings::push_char(&mut path, '/');
            crate::strings::push_str(&mut path, self.next_tag.as_str());
            crate::strings::push_char(&mut path, '-');
            crate::strings::push_str(&mut path, triples[i].as_str());
            crate::strings::push_str(&mut path, ".tar.xz");
            proof {
                assert(path@ =~= spec_asset_path(self.spec_tag(), triples@[i as int]@));
            }
            out.push(path);
            i = i + 1;
        }
        out
    }

    /// One upload command per asset path, in order.
    pub fn upload_assets(&self, paths: &Vec<String>) -> (r: Vec<Runner<Prepared>>)
        ensures
            r@.len() == paths@.len(),
            forall|i: int|
                0 <= i < r@.len() ==> #[trigger] r@[i].spec_chain() == spec_single(
                    "gh"@,
                    seq!["release"@, "upload"@, self.spec_tag(), paths@[i]@],
                ),
    {
        let mut out: Vec<Runner<Prepared>> = Vec::new();
        let n = paths.len();
        let mut i: usize = 0;
        while i < n
            invariant
                i <= n,
                n == paths@.len(),
                out@.len() == i,
                forall|j: int|
                    0 <= j < i ==> #[trigger] out@[j].spec_chain() == spec_single(
                        "gh"@,
                        seq!["release"@, "upload"@, self.spec_tag(), paths@[j]@],
                    ),
            decreases n - i,
        {
            let runner = program("gh".to_owned()).arg("release").arg("upload").arg(
                self.next_tag.as_str(),
            ).arg(paths[i].as_str());
            proof {
                assert(runner.spec_chain() =~~= spec_single(
                    "gh"@,
                    seq!["release"@, "upload"@, self.spec_tag(), paths@[i as int]@],
                ));
            }
            out.push(prepare_always(runner));
            i = i + 1;
        }
        out
    }

    /// Decides from existence probes whether every asset is in place:
    /// the first missing path is reported.
    pub fn all_assets_exist(&self, paths: &Vec<String>, exists: &Vec<bool>) -> (r: Result<
        (),
        TaskError,
    >)
        requires
            paths@.len() == exists@.len(),
        ensures
            r is Ok <==> (forall|i: int| 0 <= i < exists@.len() ==> exists@[i]),
            r matches Err(e) ==> (e matches TaskError::AssetNotFound(p) && exists@.contains(false)
                && {
                let k = first_false(exists@);
                p@ == paths@[k]@ && !exists@[k]
            }),
    {
        let n = paths.len();
        let mut i: usize = 0;
        while i < n
            invariant
                i <= n,
                n == paths@.len(),
                n == exists@.len(),
                forall|j: int| 0 <= j < i ==> exists@[j],
            decreases n - i,
        {
            if !exists[i] {
                proof {
                    lemma_first_false(exists@, i as int);
                }
                return Err(TaskError::AssetNotFound(paths[i].clone()));
            }
            i = i + 1;
        }
        Ok(())
    }
}

/// One asset path: the fixed release directory, the target triple, and
/// the tagged archive name.
pub open spec fn spec_asset_path(tag: Seq<char>, triple: Seq<char>) -> Seq<char> {
    "./dist/release/"@ + triple + seq!['/'] + tag + seq!['-'] + triple + ".tar.xz"@
}

/// The index of the first `false` in a probe list.
pub open spec fn first_false(s: Seq<bool>) -> int
    decreases s.len(),
{
    if s.len() == 0 {
        0
    } else if !s[0] {
        0
    } else {
        1 + first_false(s.drop_first())
    }
}

proof fn lemma_first_false(s: Seq<bool>, i: int)
    requires
        0 <= i < s.len(),
        !s[i],
        forall|j: int| 0 <= j < i ==> s[j],
    ensures
        first_false(s) == i,
        s.contains(false),
    decreases i,
{
    assert(s.contains(false)) by {
        assert(s[i] == false);
    }
    if i > 0 {
        let rest = s.drop_first();
        assert(!rest[i - 1]);
        assert(forall|j: int| 0 <= j < i - 1 ==> rest[j] == s[j + 1]);
        lemma_first_false(rest, i - 1);
    }
}

/// The string value a well-formed configuration line assigns to a key;
/// nothing when the line does not parse or the key is not a string there.
/// A function of the text and the key alone.
pub uninterp spec fn toml_string_of(text: Seq<char>, key: Seq<char>) -> Option<Seq<char>>;

/// Relies on the toml crate's `Value` parser: parses one line of
/// configuration text and looks the key up as a string.
#[verifier::external_body]
pub fn extract_version(toml_line: &str, package_name: &str) -> (r: Option<String>)
    ensures
        r matches Some(v) ==> toml_string_of(toml_line@, package_name@) == Some(v@),
        r is None ==> toml_string_of(toml_line@, package_name@) is None,
{
    let value: Result<toml::Value, _> = toml::from_str(toml_line);
    match value {
        Ok(v) => v.get(package_name).and_then(|x| x.as_str()).map(|x| x.to_string()),
        Err(_) => None,
    }
}

/// Judges a version listed by the registry against the one to release:
/// absent means the search failed, the same version means it is already
/// published, any other version may be released.
pub fn judge_listed_version(listed: &Option<String>, package: &CargoTomlPackage) -> (r: Result<
    (),
    TaskError,
>)
    ensures
        r is Ok <==> (listed matches Some(v) && v@ != package.version@),
        listed is None ==> (r matches Err(e) && e matches TaskError::CrateVersionNotFound {
            name,
            version,
        } && name@ == package.name@ && version@ == package.version@),
        (listed matches Some(v) && v@ == package.version@) ==> (r matches Err(e)
            && e matches TaskError::PackageAlreadyPublished { name, version } && name@
            == package.name@ && version@ == package.version@),
{
    match listed {
        None => Err(
            TaskError::CrateVersionNotFound {
                name: package.name.clone(),
                version: package.version.clone(),
            },
        ),
        Some(v) => {
            if crate::chars::str_eq(v.as_str(), package.version.as_str()) {
                Err(
                    TaskError::PackageAlreadyPublished {
                        name: package.name.clone(),
                        version: package.version.clone(),
                    },
                )
            } else {
                Ok(())
            }
        },
    }
}

} // verus!
