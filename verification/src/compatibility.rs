//! Compatibility suites: which are run, what they report, and how direct and proxied runs compare.
use vstd::prelude::*;

use crate::clock::Duration;
use crate::config::holds_text;
use crate::json::{
    bool_json, item_facts, json_bool, json_list, json_member, json_object, json_optional,
    json_quoted, json_quoted_of, json_value_of, list_json, object_json, optional_json, push_member,
    read_json, Json, JsonFacts,
};
use crate::order::{
    in_order, insert_text, law_text_order_irreflexive, law_text_order_total,
    law_text_order_transitive, text_before, text_less,
};
use crate::text::{
    blank, clone_opt, decimal, decimal_text, is_blank, join2, join3, join4, join5, join_all, joined,
    lemma_texts_push, lines, lines_of, opt_text, same_opt, same_text, split, split_on, texts, trim,
    trimmed, u64_text, usize_text,
};

verus! {

/// What a suite is run against.
#[derive(Clone, Copy, Debug, PartialEq, Eq, Structural)]
pub enum CompatibilityTarget {
    DirectPostgres,
    PgKinetic,
}

impl CompatibilityTarget {
    /// The name under which the value is written.
    pub open spec fn name(self) -> Seq<char> {
        match self {
            CompatibilityTarget::DirectPostgres => "direct-postgres"@,
            CompatibilityTarget::PgKinetic => "pg-kinetic"@,
        }
    }

    /// The name under which the value is written.
    pub fn as_str(self) -> (r: &'static str)
        ensures
            r@ == self.name(),
    {
        match self {
            CompatibilityTarget::DirectPostgres => "direct-postgres",
            CompatibilityTarget::PgKinetic => "pg-kinetic",
        }
    }

    /// What each value is written as.
    pub proof fn law_written_as(self)
        ensures
            self is DirectPostgres ==> self.name() == "direct-postgres"@,
            self is PgKinetic ==> self.name() == "pg-kinetic"@,
    {
    }

    /// No two values have the same name.
    pub proof fn law_names_differ(a: CompatibilityTarget, b: CompatibilityTarget)
        requires
            a.name() == b.name(),
        ensures
            a == b,
    {
        reveal_strlit("direct-postgres");
        reveal_strlit("pg-kinetic");
        assert("direct-postgres"@.len() == 15);
        assert("pg-kinetic"@.len() == 10);
    }
}

/// How a suite ended.
#[derive(Clone, Copy, Debug, PartialEq, Eq, Structural)]
pub enum CompatibilityOutcome {
    Passed,
    Failed,
    Skipped,
    Blocked,
}

impl CompatibilityOutcome {
    /// The name under which the value is written.
    pub open spec fn name(self) -> Seq<char> {
        match self {
            CompatibilityOutcome::Passed => "pass"@,
            CompatibilityOutcome::Failed => "fail"@,
            CompatibilityOutcome::Skipped => "skip"@,
            CompatibilityOutcome::Blocked => "blocked"@,
        }
    }

    /// The name under which the value is written.
    pub fn as_str(self) -> (r: &'static str)
        ensures
            r@ == self.name(),
    {
        match self {
            CompatibilityOutcome::Passed => "pass",
            CompatibilityOutcome::Failed => "fail",
            CompatibilityOutcome::Skipped => "skip",
            CompatibilityOutcome::Blocked => "blocked",
        }
    }

    /// What each value is written as.
    pub proof fn law_written_as(self)
        ensures
            self is Passed ==> self.name() == "pass"@,
            self is Failed ==> self.name() == "fail"@,
            self is Skipped ==> self.name() == "skip"@,
            self is Blocked ==> self.name() == "blocked"@,
    {
    }

    /// No two values have the same name.
    pub proof fn law_names_differ(a: CompatibilityOutcome, b: CompatibilityOutcome)
        requires
            a.name() == b.name(),
        ensures
            a == b,
    {
        reveal_strlit("pass");
        reveal_strlit("fail");
        reveal_strlit("skip");
        reveal_strlit("blocked");
        assert("pass"@.len() == 4 && "pass"@[0] == 'p');
        assert("fail"@.len() == 4 && "fail"@[0] == 'f');
        assert("skip"@.len() == 4 && "skip"@[0] == 's');
        assert("blocked"@.len() == 7 && "blocked"@[0] == 'b');
    }
}

/// What is kept of a suite's output.
#[derive(Clone, Copy, Debug, PartialEq, Eq, Structural)]
pub enum CompatibilityArtifactPolicy {
    Summary,
    Large,
}

impl CompatibilityArtifactPolicy {
    /// The name under which the value is written.
    pub open spec fn name(self) -> Seq<char> {
        match self {
            CompatibilityArtifactPolicy::Summary => "summary"@,
            CompatibilityArtifactPolicy::Large => "large"@,
        }
    }

    /// The name under which the value is written.
    pub fn as_str(self) -> (r: &'static str)
        ensures
            r@ == self.name(),
    {
        match self {
            CompatibilityArtifactPolicy::Summary => "summary",
            CompatibilityArtifactPolicy::Large => "large",
        }
    }

    /// What each value is written as.
    pub proof fn law_written_as(self)
        ensures
            self is Summary ==> self.name() == "summary"@,
            self is Large ==> self.name() == "large"@,
    {
    }

    /// No two values have the same name.
    pub proof fn law_names_differ(a: CompatibilityArtifactPolicy, b: CompatibilityArtifactPolicy)
        requires
            a.name() == b.name(),
        ensures
            a == b,
    {
        reveal_strlit("summary");
        reveal_strlit("large");
        assert("summary"@.len() == 7);
        assert("large"@.len() == 5);
    }
}


/// A language that clients are written in: its place among the languages, and its name.
#[derive(Clone, Debug)]
pub struct CompatibilityLanguage {
    pub rank: u32,
    pub label: String,
}

/// A language as plain values.
pub struct LanguageFacts {
    pub rank: u32,
    pub label: Seq<char>,
}

impl View for CompatibilityLanguage {
    type V = LanguageFacts;

    open spec fn view(&self) -> LanguageFacts {
        LanguageFacts { rank: self.rank, label: self.label@ }
    }
}

impl CompatibilityLanguage {
    /// The same once more.
    pub fn copied(&self) -> (r: CompatibilityLanguage)
        ensures
            r@ == self@,
    {
        CompatibilityLanguage { rank: self.rank, label: self.label.clone() }
    }

    /// Whether two languages are the same.
    pub fn same_as(&self, other: &CompatibilityLanguage) -> (r: bool)
        ensures
            r == (self@ == other@),
    {
        self.rank == other.rank && same_text(self.label.as_str(), other.label.as_str())
    }
}

/// Why suites cannot be listed or run.
#[derive(Clone, Debug, PartialEq, Eq)]
pub enum CompatibilityError {
    Manifest(String),
    Runner(String),
}

/// Why suites cannot be listed or run, as plain values.
pub enum CompatibilityComplaint {
    Manifest(Seq<char>),
    Runner(Seq<char>),
}

impl View for CompatibilityError {
    type V = CompatibilityComplaint;

    open spec fn view(&self) -> CompatibilityComplaint {
        match *self {
            CompatibilityError::Manifest(message) => CompatibilityComplaint::Manifest(message@),
            CompatibilityError::Runner(message) => CompatibilityComplaint::Runner(message@),
        }
    }
}

impl CompatibilityComplaint {
    /// What the error says.
    pub open spec fn text(self) -> Seq<char> {
        match self {
            CompatibilityComplaint::Manifest(message) => "compatibility manifest error: "@
                + message,
            CompatibilityComplaint::Runner(message) => "compatibility runner error: "@ + message,
        }
    }
}

impl CompatibilityError {
    /// What the error says.
    pub fn text(&self) -> (r: String)
        ensures
            r@ == self@.text(),
    {
        match self {
            CompatibilityError::Manifest(message) => join2(
                "compatibility manifest error: ",
                message.as_str(),
            ),
            CompatibilityError::Runner(message) => join2(
                "compatibility runner error: ",
                message.as_str(),
            ),
        }
    }
}

// ---------------------------------------------------------------------------
// Suites
// ---------------------------------------------------------------------------

/// A library whose clients a suite runs.
#[derive(Clone, Debug)]
pub struct CompatibilityLibrary {
    pub name: String,
    pub version: Option<String>,
    pub required: bool,
    pub skip_reason: Option<String>,
}

/// A suite.
#[derive(Clone, Debug)]
pub struct CompatibilitySuite {
    pub id: String,
    pub language: CompatibilityLanguage,
    pub library: CompatibilityLibrary,
    pub target: CompatibilityTarget,
    pub command: String,
    pub timeout_seconds: u64,
    pub required_services: Vec<String>,
    pub artifact_policy: CompatibilityArtifactPolicy,
    pub artifact_path: Option<String>,
    pub smoke: bool,
}

/// A suite as plain values.
pub struct SuiteFacts {
    pub id: Seq<char>,
    pub language: LanguageFacts,
    pub library: Seq<char>,
    pub version: Option<Seq<char>>,
    pub required: bool,
    pub skip_reason: Option<Seq<char>>,
    pub target: CompatibilityTarget,
    pub command: Seq<char>,
    pub timeout_seconds: u64,
    pub services: Seq<Seq<char>>,
    pub artifact_policy: CompatibilityArtifactPolicy,
    pub artifact_path: Option<Seq<char>>,
    pub smoke: bool,
}

impl View for CompatibilitySuite {
    type V = SuiteFacts;

    open spec fn view(&self) -> SuiteFacts {
        SuiteFacts {
            id: self.id@,
            language: self.language@,
            library: self.library.name@,
            version: opt_text(self.library.version),
            required: self.library.required,
            skip_reason: opt_text(self.library.skip_reason),
            target: self.target,
            command: self.command@,
            timeout_seconds: self.timeout_seconds,
            services: texts(self.required_services@),
            artifact_policy: self.artifact_policy,
            artifact_path: opt_text(self.artifact_path),
            smoke: self.smoke,
        }
    }
}

/// A suite of the manifest, and the category that it belongs to.
#[derive(Clone, Debug)]
pub struct LoadedCompatibilitySuite {
    pub suite: CompatibilitySuite,
    pub category: String,
}

/// A suite of the manifest as plain values.
pub struct LoadedFacts {
    pub suite: SuiteFacts,
    pub category: Seq<char>,
}

impl View for LoadedCompatibilitySuite {
    type V = LoadedFacts;

    open spec fn view(&self) -> LoadedFacts {
        LoadedFacts { suite: self.suite@, category: self.category@ }
    }
}

/// Suites of the manifest as plain values.
pub open spec fn loaded_facts(list: Seq<LoadedCompatibilitySuite>) -> Seq<LoadedFacts> {
    list.map_values(|item: LoadedCompatibilitySuite| item@)
}

/// What the manifest says of a suite.
#[derive(Clone, Debug)]
pub struct CompatibilityCaseDocument {
    pub suite_id: String,
    pub library: String,
    pub library_version: Option<String>,
    pub command: String,
    pub timeout_seconds: u64,
    pub required_services: Vec<String>,
    pub artifact_path: Option<String>,
    pub smoke: bool,
    pub category: Option<String>,
    pub required: bool,
    pub skip_reason: Option<String>,
}

/// A case of the manifest, which may be a suite.
#[derive(Clone, Debug)]
pub struct ManifestCaseDocument {
    pub category: String,
    pub compatibility: Option<CompatibilityCaseDocument>,
}

/// What was found of a case: what is wrong with its parts, and what their names stand for.
#[derive(Debug)]
pub struct CaseChecks {
    pub command: Option<String>,
    pub category: Option<String>,
    pub language: Result<CompatibilityLanguage, String>,
    pub target: Result<CompatibilityTarget, String>,
    pub library: Option<String>,
    pub artifact_policy: Result<CompatibilityArtifactPolicy, String>,
    pub suite: Option<String>,
}

/// What is kept of a suite's output where the manifest does not say.
pub fn default_artifact_policy() -> (r: String)
    ensures
        r@ == "summary"@,
{
    "summary".to_owned()
}

/// The first thing that is wrong with a suite.
pub open spec fn case_complaint(checks: CaseChecks) -> Option<Seq<char>> {
    if checks.command is Some {
        Some(checks.command->0@)
    } else if checks.category is Some {
        Some(checks.category->0@)
    } else if checks.language is Err {
        Some(checks.language->Err_0@)
    } else if checks.target is Err {
        Some(checks.target->Err_0@)
    } else if checks.library is Some {
        Some(checks.library->0@)
    } else if checks.artifact_policy is Err {
        Some(checks.artifact_policy->Err_0@)
    } else {
        opt_text(checks.suite)
    }
}

/// A case's suite, where nothing is wrong with it.
pub open spec fn case_suite(
    case: ManifestCaseDocument,
    document: CompatibilityCaseDocument,
    checks: CaseChecks,
) -> LoadedFacts {
    LoadedFacts {
        suite: SuiteFacts {
            id: document.suite_id@,
            language: checks.language->Ok_0@,
            library: document.library@,
            version: opt_text(document.library_version),
            required: document.required,
            skip_reason: opt_text(document.skip_reason),
            target: checks.target->Ok_0,
            command: document.command@,
            timeout_seconds: document.timeout_seconds,
            services: texts(document.required_services@),
            artifact_policy: checks.artifact_policy->Ok_0,
            artifact_path: opt_text(document.artifact_path),
            smoke: document.smoke,
        },
        category: crate::text::text_or(document.category, case.category@),
    }
}

/// The suites of some cases, or the first thing that is wrong with one of them.
pub open spec fn manifest_suites(
    cases: Seq<ManifestCaseDocument>,
    checks: Seq<CaseChecks>,
) -> Result<Seq<LoadedFacts>, Seq<char>>
    decreases cases.len(),
{
    if cases.len() == 0 {
        Ok(Seq::empty())
    } else {
        let k = cases.len() - 1;
        match manifest_suites(cases.drop_last(), checks) {
            Err(message) => Err(message),
            Ok(list) => match cases[k].compatibility {
                None => Ok(list),
                Some(document) => match case_complaint(checks[k]) {
                    Some(message) => Err(message),
                    None => Ok(list.push(case_suite(cases[k], document, checks[k]))),
                },
            },
        }
    }
}

proof fn lemma_manifest_error_stays(
    cases: Seq<ManifestCaseDocument>,
    checks: Seq<CaseChecks>,
    k: int,
)
    requires
        0 <= k <= cases.len(),
        manifest_suites(cases.take(k), checks) is Err,
    ensures
        manifest_suites(cases, checks) == manifest_suites(cases.take(k), checks),
    decreases cases.len() - k,
{
    if k < cases.len() {
        assert(cases.take(k + 1).drop_last() =~= cases.take(k));
        lemma_manifest_error_stays(cases, checks, k + 1);
    } else {
        assert(cases.take(k) =~= cases);
    }
}

fn copy_texts(list: &Vec<String>) -> (r: Vec<String>)
    ensures
        texts(r@) == texts(list@),
{
    let mut r: Vec<String> = Vec::new();
    let mut i: usize = 0;
    while i < list.len()
        invariant
            i <= list@.len(),
            r@.len() == i,
            forall|j: int| 0 <= j < i ==> (#[trigger] r@[j])@ == list@[j]@,
        decreases list@.len() - i,
    {
        r.push(list[i].clone());
        i += 1;
    }
    assert(texts(r@) =~= texts(list@));
    r
}

fn load_case(
    case: &ManifestCaseDocument,
    document: &CompatibilityCaseDocument,
    checks: &CaseChecks,
) -> (r: Result<LoadedCompatibilitySuite, String>)
    ensures
        match r {
            Ok(loaded) => case_complaint(*checks) is None && loaded@ == case_suite(
                *case,
                *document,
                *checks,
            ),
            Err(message) => case_complaint(*checks) == Some(message@),
        },
{
    match &checks.command {
        Some(message) => {
            return Err(message.clone());
        },
        None => {},
    }
    let category = crate::text::opt_or(&document.category, case.category.as_str());
    match &checks.category {
        Some(message) => {
            return Err(message.clone());
        },
        None => {},
    }
    let language = match &checks.language {
        Ok(language) => language.copied(),
        Err(message) => {
            return Err(message.clone());
        },
    };
    let target = match &checks.target {
        Ok(target) => *target,
        Err(message) => {
            return Err(message.clone());
        },
    };
    match &checks.library {
        Some(message) => {
            return Err(message.clone());
        },
        None => {},
    }
    let artifact_policy = match &checks.artifact_policy {
        Ok(policy) => *policy,
        Err(message) => {
            return Err(message.clone());
        },
    };
    match &checks.suite {
        Some(message) => {
            return Err(message.clone());
        },
        None => {},
    }
    Ok(
        LoadedCompatibilitySuite {
            suite: CompatibilitySuite {
                id: document.suite_id.clone(),
                language,
                library: CompatibilityLibrary {
                    name: document.library.clone(),
                    version: clone_opt(&document.library_version),
                    required: document.required,
                    skip_reason: clone_opt(&document.skip_reason),
                },
                target,
                command: document.command.clone(),
                timeout_seconds: document.timeout_seconds,
                required_services: copy_texts(&document.required_services),
                artifact_policy,
                artifact_path: clone_opt(&document.artifact_path),
                smoke: document.smoke,
            },
            category,
        },
    )
}

/// The suites of a manifest: those of its cases that are suites, in the order in which they stand.
pub fn load_compatibility_manifest(
    version: u32,
    cases: &Vec<ManifestCaseDocument>,
    checks: &Vec<CaseChecks>,
) -> (r: Result<Vec<LoadedCompatibilitySuite>, CompatibilityError>)
    requires
        cases@.len() == checks@.len(),
    ensures
        match r {
            Ok(list) => version == 1 && manifest_suites(cases@, checks@) == Ok::<
                Seq<LoadedFacts>,
                Seq<char>,
            >(loaded_facts(list@)),
            Err(error) => if version != 1 {
                error@ == CompatibilityComplaint::Manifest(
                    "unsupported manifest version "@ + decimal(version as nat),
                )
            } else {
                manifest_suites(cases@, checks@) is Err && error@
                    == CompatibilityComplaint::Manifest(manifest_suites(cases@, checks@)->Err_0)
            },
        },
{
    if version != 1 {
        return Err(
            CompatibilityError::Manifest(
                join2("unsupported manifest version ", u64_text(version as u64).as_str()),
            ),
        );
    }
    let mut suites: Vec<LoadedCompatibilitySuite> = Vec::new();
    let mut i: usize = 0;
    assert(cases@.take(0) =~= Seq::empty());
    assert(loaded_facts(suites@) =~= Seq::empty());
    while i < cases.len()
        invariant
            i <= cases@.len(),
            cases@.len() == checks@.len(),
            version == 1,
            manifest_suites(cases@.take(i as int), checks@) == Ok::<Seq<LoadedFacts>, Seq<char>>(
                loaded_facts(suites@),
            ),
        decreases cases@.len() - i,
    {
        proof {
            assert(cases@.take(i + 1).drop_last() =~= cases@.take(i as int));
            assert(cases@.take(i + 1)[i as int] == cases@[i as int]);
            if manifest_suites(cases@.take(i + 1), checks@) is Err {
                lemma_manifest_error_stays(cases@, checks@, i + 1);
            }
        }
        match &cases[i].compatibility {
            None => {},
            Some(document) => {
                let ghost held = suites@;
                match load_case(&cases[i], document, &checks[i]) {
                    Err(message) => {
                        return Err(CompatibilityError::Manifest(message));
                    },
                    Ok(loaded) => {
                        suites.push(loaded);
                        assert(loaded_facts(suites@) =~= loaded_facts(held).push(loaded@));
                    },
                }
            },
        }
        i += 1;
    }
    assert(cases@.take(i as int) =~= cases@);
    Ok(suites)
}

/// Which suites are asked for.
#[derive(Clone, Debug)]
pub struct CompatibilitySuiteSelector {
    pub language: Option<CompatibilityLanguage>,
    pub target: Option<CompatibilityTarget>,
    pub smoke: bool,
}

/// Which suites of which manifest are to be run.
#[derive(Clone, Debug)]
pub struct CompatibilityRunConfig {
    pub manifest_path: String,
    pub selector: CompatibilitySuiteSelector,
    pub library: Option<String>,
    pub category: Option<String>,
}

/// Whether a suite is asked for: by its language, its target, whether it is quick, its library and
/// its category, as far as each is given.
pub open spec fn is_selected(
    loaded: LoadedFacts,
    selector: CompatibilitySuiteSelector,
    library: Option<String>,
    category: Option<String>,
) -> bool {
    &&& selector.language matches Some(language) ==> loaded.suite.language == language@
    &&& selector.target matches Some(target) ==> loaded.suite.target == target
    &&& selector.smoke ==> loaded.suite.smoke
    &&& library matches Some(name) ==> loaded.suite.library == name@
    &&& category matches Some(name) ==> loaded.category == name@
}

/// Whether a suite is asked for.
pub fn selector_matches(
    loaded: &LoadedCompatibilitySuite,
    selector: &CompatibilitySuiteSelector,
    library: &Option<String>,
    category: &Option<String>,
) -> (r: bool)
    ensures
        r == is_selected(loaded@, *selector, *library, *category),
{
    let language_matches = match &selector.language {
        Some(language) => loaded.suite.language.same_as(language),
        None => true,
    };
    let target_matches = match selector.target {
        Some(target) => loaded.suite.target == target,
        None => true,
    };
    let smoke_matches = !selector.smoke || loaded.suite.smoke;
    let library_matches = match library {
        Some(name) => same_text(loaded.suite.library.name.as_str(), name.as_str()),
        None => true,
    };
    let category_matches = match category {
        Some(name) => same_text(loaded.category.as_str(), name.as_str()),
        None => true,
    };
    language_matches && target_matches && smoke_matches && library_matches && category_matches
}

/// The suites that are asked for, in the order in which they stand.
pub open spec fn selected_suites(
    list: Seq<LoadedFacts>,
    selector: CompatibilitySuiteSelector,
    library: Option<String>,
    category: Option<String>,
) -> Seq<SuiteFacts>
    decreases list.len(),
{
    if list.len() == 0 {
        Seq::empty()
    } else {
        let earlier = selected_suites(list.drop_last(), selector, library, category);
        if is_selected(list.last(), selector, library, category) {
            earlier.push(list.last().suite)
        } else {
            earlier
        }
    }
}

/// Suites as plain values.
pub open spec fn suite_facts(list: Seq<CompatibilitySuite>) -> Seq<SuiteFacts> {
    list.map_values(|suite: CompatibilitySuite| suite@)
}

fn copy_suite(suite: &CompatibilitySuite) -> (r: CompatibilitySuite)
    ensures
        r@ == suite@,
{
    CompatibilitySuite {
        id: suite.id.clone(),
        language: suite.language.copied(),
        library: CompatibilityLibrary {
            name: suite.library.name.clone(),
            version: clone_opt(&suite.library.version),
            required: suite.library.required,
            skip_reason: clone_opt(&suite.library.skip_reason),
        },
        target: suite.target,
        command: suite.command.clone(),
        timeout_seconds: suite.timeout_seconds,
        required_services: copy_texts(&suite.required_services),
        artifact_policy: suite.artifact_policy,
        artifact_path: clone_opt(&suite.artifact_path),
        smoke: suite.smoke,
    }
}

/// Lists suites and decides how each is run.
#[derive(Clone, Copy, Debug)]
pub struct CompatibilityRunner;

impl CompatibilityRunner {
    /// The suites of a manifest that are asked for.
    pub fn list(
        manifest: &Vec<LoadedCompatibilitySuite>,
        selector: &CompatibilitySuiteSelector,
        library: &Option<String>,
        category: &Option<String>,
    ) -> (r: Vec<CompatibilitySuite>)
        ensures
            suite_facts(r@) == selected_suites(
                loaded_facts(manifest@),
                *selector,
                *library,
                *category,
            ),
    {
        let mut suites: Vec<CompatibilitySuite> = Vec::new();
        let ghost all = loaded_facts(manifest@);
        let mut i: usize = 0;
        assert(all.take(0) =~= Seq::empty());
        assert(suite_facts(suites@) =~= Seq::empty());
        while i < manifest.len()
            invariant
                i <= manifest@.len(),
                all == loaded_facts(manifest@),
                suite_facts(suites@) == selected_suites(
                    all.take(i as int),
                    *selector,
                    *library,
                    *category,
                ),
            decreases manifest@.len() - i,
        {
            proof {
                assert(all.take(i + 1).drop_last() =~= all.take(i as int));
                assert(all.take(i + 1).last() == manifest@[i as int]@);
            }
            if selector_matches(&manifest[i], selector, library, category) {
                let ghost held = suites@;
                suites.push(copy_suite(&manifest[i].suite));
                assert(suite_facts(suites@) =~= suite_facts(held).push(
                    manifest@[i as int]@.suite,
                ));
            }
            i += 1;
        }
        assert(all.take(i as int) =~= all);
        suites
    }

    /// Checks that there is anything to run.
    pub fn check_selection(suites: &Vec<CompatibilitySuite>) -> (r: Result<(), CompatibilityError>)
        ensures
            match r {
                Ok(()) => suites@.len() > 0,
                Err(error) => suites@.len() == 0 && error@ == CompatibilityComplaint::Runner(
                    "no compatibility suites matched the selected filters"@,
                ),
            },
    {
        if suites.len() == 0 {
            return Err(
                CompatibilityError::Runner(
                    "no compatibility suites matched the selected filters".to_owned(),
                ),
            );
        }
        Ok(())
    }
}

/// Builds the command line of a suite.
#[derive(Clone, Copy, Debug)]
pub struct CompatibilityCommandBuilder;

impl CompatibilityCommandBuilder {
    /// The command line of a suite.
    pub fn build(suite: &CompatibilitySuite) -> (r: String)
        ensures
            r@ == suite@.command + " PG_KINETIC_COMPAT_TARGET="@ + suite@.target.name(),
    {
        join3(suite.command.as_str(), " PG_KINETIC_COMPAT_TARGET=", suite.target.as_str())
    }
}

// ---------------------------------------------------------------------------
// Reports
// ---------------------------------------------------------------------------

/// What a suite reports of one case.
#[derive(Clone, Debug)]
pub struct CompatibilityCaseObservation {
    pub case_id: String,
    pub outcome: String,
}

/// What a suite reports of one case, as plain values.
pub struct ObservationFacts {
    pub case_id: Seq<char>,
    pub outcome: Seq<char>,
}

impl View for CompatibilityCaseObservation {
    type V = ObservationFacts;

    open spec fn view(&self) -> ObservationFacts {
        ObservationFacts { case_id: self.case_id@, outcome: self.outcome@ }
    }
}

/// What a suite reports of its cases, as plain values.
pub open spec fn observation_facts(list: Seq<CompatibilityCaseObservation>) -> Seq<
    ObservationFacts,
> {
    list.map_values(|item: CompatibilityCaseObservation| item@)
}

/// How a suite ended.
#[derive(Clone, Debug)]
pub struct CompatibilityCaseReport {
    pub suite_id: String,
    pub language: CompatibilityLanguage,
    pub library: String,
    pub version: Option<String>,
    pub target: CompatibilityTarget,
    pub outcome: CompatibilityOutcome,
    pub duration_ms: u128,
    pub skip_reason: Option<String>,
    pub error_summary: Option<String>,
    pub observations: Vec<CompatibilityCaseObservation>,
}

/// How a suite ended, as plain values.
pub struct CaseFacts {
    pub suite_id: Seq<char>,
    pub language: LanguageFacts,
    pub library: Seq<char>,
    pub version: Option<Seq<char>>,
    pub target: CompatibilityTarget,
    pub outcome: CompatibilityOutcome,
    pub duration_ms: u128,
    pub skip_reason: Option<Seq<char>>,
    pub error_summary: Option<Seq<char>>,
    pub observations: Seq<ObservationFacts>,
}

impl View for CompatibilityCaseReport {
    type V = CaseFacts;

    open spec fn view(&self) -> CaseFacts {
        CaseFacts {
            suite_id: self.suite_id@,
            language: self.language@,
            library: self.library@,
            version: opt_text(self.version),
            target: self.target,
            outcome: self.outcome,
            duration_ms: self.duration_ms,
            skip_reason: opt_text(self.skip_reason),
            error_summary: opt_text(self.error_summary),
            observations: observation_facts(self.observations@),
        }
    }
}

/// How suites ended, as plain values.
pub open spec fn case_facts(list: Seq<CompatibilityCaseReport>) -> Seq<CaseFacts> {
    list.map_values(|item: CompatibilityCaseReport| item@)
}

/// A suite's report with an outcome and nothing else said.
pub open spec fn plain_case(suite: SuiteFacts, outcome: CompatibilityOutcome) -> CaseFacts {
    CaseFacts {
        suite_id: suite.id,
        language: suite.language,
        library: suite.library,
        version: suite.version,
        target: suite.target,
        outcome,
        duration_ms: 0,
        skip_reason: None,
        error_summary: None,
        observations: Seq::empty(),
    }
}

/// The report of a suite that is not run: a failure where its library is required.
pub open spec fn skipped(suite: SuiteFacts, reason: Seq<char>, summary: Seq<char>) -> CaseFacts {
    CaseFacts {
        skip_reason: Some(reason),
        error_summary: Some(summary),
        ..plain_case(
            suite,
            if suite.required {
                CompatibilityOutcome::Failed
            } else {
                CompatibilityOutcome::Skipped
            },
        )
    }
}

fn new_case(suite: &CompatibilitySuite, outcome: CompatibilityOutcome) -> (r:
    CompatibilityCaseReport)
    ensures
        r@ == plain_case(suite@, outcome),
{
    let report = CompatibilityCaseReport {
        suite_id: suite.id.clone(),
        language: suite.language.copied(),
        library: suite.library.name.clone(),
        version: clone_opt(&suite.library.version),
        target: suite.target,
        outcome,
        duration_ms: 0,
        skip_reason: None,
        error_summary: None,
        observations: Vec::new(),
    };
    assert(report@.observations =~= Seq::empty());
    report
}

/// The report of a suite that is not run.
pub fn skipped_case(suite: &CompatibilitySuite, skip_reason: &str, error_summary: &str) -> (r:
    CompatibilityCaseReport)
    ensures
        r@ == skipped(suite@, skip_reason@, error_summary@),
{
    let outcome = if suite.library.required {
        CompatibilityOutcome::Failed
    } else {
        CompatibilityOutcome::Skipped
    };
    let mut report = new_case(suite, outcome);
    report.skip_reason = Some(skip_reason.to_owned());
    report.error_summary = Some(error_summary.to_owned());
    report
}

/// The report of a suite that took too long.
pub fn timed_out_case(suite: &CompatibilitySuite, duration_ms: u128) -> (r: CompatibilityCaseReport)
    ensures
        r@ == (CaseFacts {
            duration_ms,
            error_summary: Some(
                "command timed out after "@ + decimal(suite@.timeout_seconds as nat)
                    + " seconds"@,
            ),
            ..plain_case(suite@, CompatibilityOutcome::Failed)
        }),
{
    let mut report = new_case(suite, CompatibilityOutcome::Failed);
    report.duration_ms = duration_ms;
    report.error_summary = Some(
        join3("command timed out after ", u64_text(suite.timeout_seconds).as_str(), " seconds"),
    );
    report
}

/// What comes next while a suite's command runs.
#[derive(Clone, Copy, Debug)]
pub enum SuiteWait {
    /// The command is done: its output is read.
    Finished,
    /// The command has time left: it is looked at again after a while.
    Sleep(Duration),
    /// The command took too long: it is killed.
    TimedOut,
}

/// Decides what comes next while a suite's command runs: whether it has exited is asked first,
/// then whether its time is over.
pub fn suite_wait(suite: &CompatibilitySuite, exited: bool, elapsed: &Duration) -> (r: SuiteWait)
    ensures
        match r {
            SuiteWait::Finished => exited,
            SuiteWait::Sleep(pause) => {
                &&& !exited
                &&& elapsed@ < suite@.timeout_seconds * 1_000_000_000
                &&& pause@ == 10_000_000
            },
            SuiteWait::TimedOut => !exited && elapsed@ >= suite@.timeout_seconds * 1_000_000_000,
        },
        r is Finished <==> exited,
        r is TimedOut <==> !exited && elapsed@ >= suite@.timeout_seconds * 1_000_000_000,
{
    if exited {
        SuiteWait::Finished
    } else if Duration::from_secs(suite.timeout_seconds).longer_than(elapsed) {
        SuiteWait::Sleep(Duration::from_millis(10))
    } else {
        SuiteWait::TimedOut
    }
}

/// Whether suites may be run at all, by a setting of the surroundings.
pub fn live_enabled(value: &Option<String>) -> (r: bool)
    ensures
        r == (opt_text(*value) == Some("1"@)),
{
    match value {
        Some(value) => same_text(value.as_str(), "1"),
        None => false,
    }
}

/// The texts of a list that are not blank, without white space around them.
pub open spec fn trimmed_texts(list: Seq<Seq<char>>) -> Seq<Seq<char>>
    decreases list.len(),
{
    if list.len() == 0 {
        Seq::empty()
    } else {
        let earlier = trimmed_texts(list.drop_last());
        if trimmed(list.last()).len() > 0 {
            earlier.push(trimmed(list.last()))
        } else {
            earlier
        }
    }
}

/// The services that a setting of the surroundings names: a list with commas between them.
pub fn available_services(value: &Option<String>) -> (r: Vec<String>)
    ensures
        texts(r@) == in_order(
            trimmed_texts(split_on(crate::text::text_or(*value, Seq::empty()), ',')),
        ),
{
    let text = match value {
        Some(text) => text.clone(),
        None => String::new(),
    };
    let parts = split(text.as_str(), ',');
    let ghost all = texts(parts@);
    let mut services: Vec<String> = Vec::new();
    let mut i: usize = 0;
    assert(text@ =~= crate::text::text_or(*value, Seq::empty()));
    assert(all.take(0) =~= Seq::empty());
    assert(texts(services@) =~= Seq::empty());
    while i < parts.len()
        invariant
            i <= parts@.len(),
            all == texts(parts@),
            texts(services@) == in_order(trimmed_texts(all.take(i as int))),
        decreases parts@.len() - i,
    {
        proof {
            assert(all.take(i + 1).drop_last() =~= all.take(i as int));
            assert(all.take(i + 1).last() == parts@[i as int]@);
        }
        let part = trim(parts[i].as_str());
        if !part.as_str().is_empty() {
            proof {
                let kept = trimmed_texts(all.take(i as int));
                assert(kept.push(part@).drop_last() =~= kept);
            }
            insert_text(&mut services, part);
        }
        i += 1;
    }
    assert(all.take(i as int) =~= all);
    services
}

/// The texts of a list that another does not hold.
pub open spec fn missing_from(wanted: Seq<Seq<char>>, held: Seq<Seq<char>>) -> Seq<Seq<char>>
    decreases wanted.len(),
{
    if wanted.len() == 0 {
        Seq::empty()
    } else {
        let earlier = missing_from(wanted.drop_last(), held);
        if held.contains(wanted.last()) {
            earlier
        } else {
            earlier.push(wanted.last())
        }
    }
}

/// What is done with a suite.
#[derive(Debug)]
pub enum SuitePlan {
    /// It is run.
    Run,
    /// It is not run, and this is its report.
    Skip(CompatibilityCaseReport),
}

/// Decides whether a suite is run: suites may be run at all, and every service that it needs is
/// there.
pub fn plan_suite(suite: &CompatibilitySuite, live: bool, services: &Vec<String>) -> (r: SuitePlan)
    ensures
        ({
            let missing = missing_from(suite@.services, texts(services@));
            if !live {
                r is Skip && r->Skip_0@ == skipped(
                    suite@,
                    "live-stack-unavailable"@,
                    "set PG_KINETIC_COMPAT_LIVE=1 after starting direct PostgreSQL and pg-kinetic"@,
                )
            } else if missing.len() > 0 {
                r is Skip && r->Skip_0@ == skipped(
                    suite@,
                    "live-stack-unavailable"@,
                    "required services unavailable: "@ + joined(missing, ", "@),
                )
            } else {
                r is Run
            }
        }),
        r is Run <==> live && forall|i: int|
            0 <= i < suite@.services.len() ==> texts(services@).contains(
                #[trigger] suite@.services[i],
            ),
        r matches SuitePlan::Skip(case) ==> (case@.outcome is Failed <==> suite@.required),
{
    proof {
        law_missing_services(suite@.services, texts(services@));
    }
    if !live {
        return SuitePlan::Skip(
            skipped_case(
                suite,
                "live-stack-unavailable",
                "set PG_KINETIC_COMPAT_LIVE=1 after starting direct PostgreSQL and pg-kinetic",
            ),
        );
    }
    let mut missing: Vec<String> = Vec::new();
    let ghost wanted = texts(suite.required_services@);
    let mut i: usize = 0;
    assert(wanted.take(0) =~= Seq::empty());
    assert(texts(missing@) =~= Seq::empty());
    while i < suite.required_services.len()
        invariant
            i <= suite.required_services@.len(),
            wanted == texts(suite.required_services@),
            texts(missing@) == missing_from(wanted.take(i as int), texts(services@)),
        decreases suite.required_services@.len() - i,
    {
        proof {
            assert(wanted.take(i + 1).drop_last() =~= wanted.take(i as int));
            assert(wanted.take(i + 1).last() == suite.required_services@[i as int]@);
        }
        if !holds_text(services, suite.required_services[i].as_str()) {
            let name = suite.required_services[i].clone();
            proof {
                lemma_texts_push(missing@, name);
            }
            missing.push(name);
        }
        i += 1;
    }
    assert(wanted.take(i as int) =~= wanted);
    assert(texts(missing@).len() == missing@.len());
    if missing.len() > 0 {
        SuitePlan::Skip(
            skipped_case(
                suite,
                "live-stack-unavailable",
                join2(
                    "required services unavailable: ",
                    join_all(&missing, ", ").as_str(),
                ).as_str(),
            ),
        )
    } else {
        SuitePlan::Run
    }
}

// ---------------------------------------------------------------------------
// A suite's output
// ---------------------------------------------------------------------------

/// What a suite's output says of how the suite ended.
#[derive(Debug)]
pub struct ParsedSuiteOutput {
    pub outcome: CompatibilityOutcome,
    pub skip_reason: Option<String>,
    pub error_summary: Option<String>,
    pub observations: Vec<CompatibilityCaseObservation>,
}

/// What a suite's output says, as plain values.
pub struct ParsedFacts {
    pub outcome: CompatibilityOutcome,
    pub skip_reason: Option<Seq<char>>,
    pub error_summary: Option<Seq<char>>,
    pub observations: Seq<ObservationFacts>,
}

impl View for ParsedSuiteOutput {
    type V = ParsedFacts;

    open spec fn view(&self) -> ParsedFacts {
        ParsedFacts {
            outcome: self.outcome,
            skip_reason: opt_text(self.skip_reason),
            error_summary: opt_text(self.error_summary),
            observations: observation_facts(self.observations@),
        }
    }
}

/// What may be known of a suite's output, as plain values.
pub open spec fn opt_parsed(parsed: Option<ParsedSuiteOutput>) -> Option<ParsedFacts> {
    match parsed {
        Some(parsed) => Some(parsed@),
        None => None,
    }
}

/// The outcome that a word stands for.
pub open spec fn outcome_named(word: Seq<char>) -> Option<CompatibilityOutcome> {
    if word == "pass"@ || word == "passed"@ {
        Some(CompatibilityOutcome::Passed)
    } else if word == "fail"@ || word == "failed"@ {
        Some(CompatibilityOutcome::Failed)
    } else if word == "skip"@ || word == "skipped"@ {
        Some(CompatibilityOutcome::Skipped)
    } else if word == "blocked"@ {
        Some(CompatibilityOutcome::Blocked)
    } else {
        None
    }
}

/// The outcome that a word stands for.
pub fn parse_outcome(value: &str) -> (r: Option<CompatibilityOutcome>)
    ensures
        r == outcome_named(value@),
{
    if same_text(value, "pass") || same_text(value, "passed") {
        Some(CompatibilityOutcome::Passed)
    } else if same_text(value, "fail") || same_text(value, "failed") {
        Some(CompatibilityOutcome::Failed)
    } else if same_text(value, "skip") || same_text(value, "skipped") {
        Some(CompatibilityOutcome::Skipped)
    } else if same_text(value, "blocked") {
        Some(CompatibilityOutcome::Blocked)
    } else {
        None
    }
}

/// Every outcome is found by the word that stands for it.
pub proof fn law_outcome_found_by_name(outcome: CompatibilityOutcome)
    ensures
        outcome_named(outcome.name()) == Some(outcome),
{
    reveal_strlit("pass");
    reveal_strlit("passed");
    reveal_strlit("fail");
    reveal_strlit("failed");
    reveal_strlit("skip");
    reveal_strlit("skipped");
    reveal_strlit("blocked");
    assert("pass"@.len() == 4 && "pass"@[0] == 'p');
    assert("passed"@.len() == 6);
    assert("fail"@.len() == 4 && "fail"@[0] == 'f');
    assert("failed"@.len() == 6);
    assert("skip"@.len() == 4 && "skip"@[0] == 's');
    assert("skipped"@.len() == 7 && "skipped"@[0] == 's');
    assert("blocked"@.len() == 7 && "blocked"@[0] == 'b');
}

/// Whether an item of a report is about a library: it names that library, or none.
pub open spec fn about(item: JsonFacts, library: Seq<char>) -> bool {
    match item.member_text("library"@) {
        Some(name) => name == library,
        None => true,
    }
}

fn is_about(item: &Json, library: &str) -> (r: bool)
    ensures
        r == about(item.facts(), library@),
{
    match item.text_at("library") {
        Some(name) => same_text(name.as_str(), library),
        None => true,
    }
}

/// What an item of a report comes to.
pub enum ItemVerdict {
    /// It ends the search: the suite is blocked, or has failed.
    Ends(CompatibilityOutcome),
    /// A case was skipped.
    Skips,
    /// A case passed.
    Passes,
    /// Nothing is said.
    Silent,
}

/// What an item of a report comes to.
pub open spec fn item_verdict(item: JsonFacts, library: Seq<char>) -> ItemVerdict {
    if !about(item, library) {
        ItemVerdict::Silent
    } else {
        match item.member_text("outcome"@) {
            Some(word) => if word == "blocked"@ {
                ItemVerdict::Ends(CompatibilityOutcome::Blocked)
            } else if word == "fail"@ || word == "failed"@ {
                ItemVerdict::Ends(CompatibilityOutcome::Failed)
            } else if word == "skip"@ || word == "skipped"@ {
                ItemVerdict::Skips
            } else if word == "pass"@ || word == "passed"@ || word == "connected"@ || word
                == "one-row"@ {
                ItemVerdict::Passes
            } else {
                ItemVerdict::Silent
            },
            None => ItemVerdict::Silent,
        }
    }
}

/// The first item that ends the search.
pub open spec fn first_end(items: Seq<JsonFacts>, library: Seq<char>) -> Option<JsonFacts>
    decreases items.len(),
{
    if items.len() == 0 {
        None
    } else if item_verdict(items[0], library) is Ends {
        Some(items[0])
    } else {
        first_end(items.skip(1), library)
    }
}

/// The first item of a skipped case.
pub open spec fn first_skip(items: Seq<JsonFacts>, library: Seq<char>) -> Option<JsonFacts>
    decreases items.len(),
{
    if items.len() == 0 {
        None
    } else if item_verdict(items[0], library) is Skips {
        Some(items[0])
    } else {
        first_skip(items.skip(1), library)
    }
}

/// Whether some case passed.
pub open spec fn some_pass(items: Seq<JsonFacts>, library: Seq<char>) -> bool
    decreases items.len(),
{
    if items.len() == 0 {
        false
    } else {
        item_verdict(items[0], library) is Passes || some_pass(items.skip(1), library)
    }
}

/// What the items of a report come to: a case that failed or is blocked decides; otherwise one
/// that was skipped; otherwise one that passed.
pub open spec fn results_summary(items: Seq<JsonFacts>, library: Seq<char>) -> Option<ParsedFacts> {
    if let Some(item) = first_end(items, library) {
        Some(
            ParsedFacts {
                outcome: item_verdict(item, library)->Ends_0,
                skip_reason: None,
                error_summary: item.member_text("error_summary"@),
                observations: Seq::empty(),
            },
        )
    } else if let Some(item) = first_skip(items, library) {
        Some(
            ParsedFacts {
                outcome: CompatibilityOutcome::Skipped,
                skip_reason: Some(
                    match item.member_text("skip_reason"@) {
                        Some(reason) => reason,
                        None => "feature-unsupported"@,
                    },
                ),
                error_summary: Some(
                    match item.member_text("error_summary"@) {
                        Some(summary) => summary,
                        None => "suite reported a skipped case"@,
                    },
                ),
                observations: Seq::empty(),
            },
        )
    } else if some_pass(items, library) {
        Some(
            ParsedFacts {
                outcome: CompatibilityOutcome::Passed,
                skip_reason: None,
                error_summary: None,
                observations: Seq::empty(),
            },
        )
    } else {
        None
    }
}

fn text_member(item: &Json, name: &str) -> (r: Option<String>)
    ensures
        opt_text(r) == item.facts().member_text(name@),
{
    match item.text_at(name) {
        Some(text) => Some(text.clone()),
        None => None,
    }
}

fn member_or(item: &Json, name: &str, other: &str) -> (r: String)
    ensures
        r@ == match item.facts().member_text(name@) {
            Some(text) => text,
            None => other@,
        },
{
    match item.text_at(name) {
        Some(text) => text.clone(),
        None => other.to_owned(),
    }
}

/// What the items of a report come to.
pub fn summarize_results(library: &str, results: &Vec<Json>) -> (r: Option<ParsedSuiteOutput>)
    ensures
        opt_parsed(r) == results_summary(item_facts(results@), library@),
{
    let ghost items = item_facts(results@);
    let none: Vec<CompatibilityCaseObservation> = Vec::new();
    assert(observation_facts(none@) =~= Seq::empty());
    let mut saw_pass = false;
    let mut skipped: Option<usize> = None;
    let mut i: usize = 0;
    assert(items.skip(0) =~= items);
    while i < results.len()
        invariant
            i <= results@.len(),
            items == item_facts(results@),
            observation_facts(none@) == Seq::<ObservationFacts>::empty(),
            first_end(items, library@) == first_end(items.skip(i as int), library@),
            match skipped {
                Some(k) => k < results@.len() && first_skip(items, library@) == Some(
                    items[k as int],
                ),
                None => first_skip(items, library@) == first_skip(items.skip(i as int), library@),
            },
            some_pass(items, library@) == (saw_pass || some_pass(items.skip(i as int), library@)),
        decreases results@.len() - i,
    {
        let item = &results[i];
        proof {
            assert(items.skip(i as int)[0] == item.facts());
            assert(items[i as int] == item.facts());
            assert(items.skip(i as int).skip(1) =~= items.skip(i + 1));
            reveal_strlit("blocked");
            reveal_strlit("fail");
            reveal_strlit("failed");
            reveal_strlit("skip");
            reveal_strlit("skipped");
            reveal_strlit("pass");
            reveal_strlit("passed");
            reveal_strlit("connected");
            reveal_strlit("one-row");
        }
        if is_about(item, library) {
            match item.text_at("outcome") {
                Some(word) => {
                    let word = word.as_str();
                    if same_text(word, "blocked") {
                        return Some(
                            ParsedSuiteOutput {
                                outcome: CompatibilityOutcome::Blocked,
                                skip_reason: None,
                                error_summary: text_member(item, "error_summary"),
                                observations: none,
                            },
                        );
                    } else if same_text(word, "fail") || same_text(word, "failed") {
                        return Some(
                            ParsedSuiteOutput {
                                outcome: CompatibilityOutcome::Failed,
                                skip_reason: None,
                                error_summary: text_member(item, "error_summary"),
                                observations: none,
                            },
                        );
                    } else if same_text(word, "skip") || same_text(word, "skipped") {
                        if skipped.is_none() {
                            skipped = Some(i);
                        }
                    } else if same_text(word, "pass") || same_text(word, "passed") || same_text(
                        word,
                        "connected",
                    ) || same_text(word, "one-row") {
                        saw_pass = true;
                    }
                },
                None => {},
            }
        }
        i += 1;
    }
    match skipped {
        Some(k) => {
            assert(items[k as int] == results@[k as int].facts());
            Some(
                ParsedSuiteOutput {
                    outcome: CompatibilityOutcome::Skipped,
                    skip_reason: Some(member_or(&results[k], "skip_reason", "feature-unsupported")),
                    error_summary: Some(
                        member_or(&results[k], "error_summary", "suite reported a skipped case"),
                    ),
                    observations: none,
                },
            )
        },
        None => if saw_pass {
            Some(
                ParsedSuiteOutput {
                    outcome: CompatibilityOutcome::Passed,
                    skip_reason: None,
                    error_summary: None,
                    observations: none,
                },
            )
        } else {
            None
        },
    }
}

/// What an item says of a case, where it names one and its outcome.
pub open spec fn observed(item: JsonFacts) -> Seq<ObservationFacts> {
    match (item.member_text("case_id"@), item.member_text("outcome"@)) {
        (Some(case_id), Some(outcome)) => seq![ObservationFacts { case_id, outcome }],
        _ => Seq::empty(),
    }
}

/// What some items say of the cases of a library.
pub open spec fn observed_items(items: Seq<JsonFacts>, library: Seq<char>) -> Seq<ObservationFacts>
    decreases items.len(),
{
    if items.len() == 0 {
        Seq::empty()
    } else {
        observed_items(items.drop_last(), library) + if about(items.last(), library) {
            observed(items.last())
        } else {
            Seq::empty()
        }
    }
}

/// What a list within an object says of the cases of a library.
pub open spec fn observed_in(item: JsonFacts, name: Seq<char>, library: Seq<char>) -> Seq<
    ObservationFacts,
> {
    match item.member_items(name) {
        Some(items) => observed_items(items, library),
        None => Seq::empty(),
    }
}

/// What some results say of the cases of a library: each of itself, and of the cases within it.
pub open spec fn observed_results(items: Seq<JsonFacts>, library: Seq<char>) -> Seq<
    ObservationFacts,
>
    decreases items.len(),
{
    if items.len() == 0 {
        Seq::empty()
    } else {
        observed_results(items.drop_last(), library) + if about(items.last(), library) {
            observed(items.last()) + observed_in(items.last(), "cases"@, library)
        } else {
            Seq::empty()
        }
    }
}

/// Everything that a report says of the cases of a library.
pub open spec fn all_observed(value: JsonFacts, library: Seq<char>) -> Seq<ObservationFacts> {
    observed_in(value, "cases"@, library) + match value.member_items("results"@) {
        Some(items) => observed_results(items, library),
        None => Seq::empty(),
    }
}

fn collect_case_item(item: &Json, observations: &mut Vec<CompatibilityCaseObservation>)
    ensures
        observation_facts(final(observations)@) == observation_facts(old(observations)@) + observed(
            item.facts(),
        ),
{
    proof {
        assert(observation_facts(observations@) + Seq::<ObservationFacts>::empty()
            =~= observation_facts(observations@));
    }
    let case_id = match item.text_at("case_id") {
        Some(text) => text,
        None => {
            return;
        },
    };
    let outcome = match item.text_at("outcome") {
        Some(text) => text,
        None => {
            return;
        },
    };
    observations.push(
        CompatibilityCaseObservation { case_id: case_id.clone(), outcome: outcome.clone() },
    );
    assert(observation_facts(observations@) =~= observation_facts(old(observations)@) + observed(
        item.facts(),
    ));
}

fn collect_case_items(
    library: &str,
    items: &Vec<Json>,
    observations: &mut Vec<CompatibilityCaseObservation>,
)
    ensures
        observation_facts(final(observations)@) == observation_facts(old(observations)@)
            + observed_items(item_facts(items@), library@),
{
    let ghost all = item_facts(items@);
    let mut i: usize = 0;
    proof {
        assert(all.take(0) =~= Seq::empty());
        assert(observation_facts(observations@) + observed_items(all.take(0), library@)
            =~= observation_facts(observations@));
    }
    while i < items.len()
        invariant
            i <= items@.len(),
            all == item_facts(items@),
            observation_facts(observations@) == observation_facts(old(observations)@)
                + observed_items(all.take(i as int), library@),
        decreases items@.len() - i,
    {
        proof {
            assert(all.take(i + 1).drop_last() =~= all.take(i as int));
            assert(all.take(i + 1).last() == items@[i as int].facts());
        }
        if is_about(&items[i], library) {
            collect_case_item(&items[i], observations);
        }
        assert(observation_facts(observations@) =~= observation_facts(old(observations)@)
            + observed_items(all.take(i + 1), library@));
        i += 1;
    }
    assert(all.take(i as int) =~= all);
}

/// Everything that a report says of the cases of a library.
pub fn collect_observations(library: &str, value: &Json) -> (r: Vec<CompatibilityCaseObservation>)
    ensures
        observation_facts(r@) == all_observed(value.facts(), library@),
{
    let mut observations: Vec<CompatibilityCaseObservation> = Vec::new();
    assert(observation_facts(observations@) =~= Seq::empty());
    match value.list_at("cases") {
        Some(items) => {
            collect_case_items(library, items, &mut observations);
        },
        None => {},
    }
    let ghost first = observed_in(value.facts(), "cases"@, library@);
    assert(observation_facts(observations@) =~= first);
    match value.list_at("results") {
        Some(results) => {
            let ghost all = item_facts(results@);
            let mut i: usize = 0;
            proof {
                assert(all.take(0) =~= Seq::empty());
                assert(first + observed_results(all.take(0), library@) =~= first);
            }
            while i < results.len()
                invariant
                    i <= results@.len(),
                    all == item_facts(results@),
                    observation_facts(observations@) == first + observed_results(
                        all.take(i as int),
                        library@,
                    ),
                decreases results@.len() - i,
            {
                proof {
                    assert(all.take(i + 1).drop_last() =~= all.take(i as int));
                    assert(all.take(i + 1).last() == results@[i as int].facts());
                }
                let result = &results[i];
                let ghost held = observation_facts(observations@);
                if is_about(result, library) {
                    collect_case_item(result, &mut observations);
                    match result.list_at("cases") {
                        Some(items) => {
                            collect_case_items(library, items, &mut observations);
                        },
                        None => {},
                    }
                    assert(observation_facts(observations@) =~= held + (observed(result.facts())
                        + observed_in(result.facts(), "cases"@, library@)));
                } else {
                    assert(held + Seq::<ObservationFacts>::empty() =~= held);
                }
                assert(observation_facts(observations@) =~= first + observed_results(
                    all.take(i + 1),
                    library@,
                ));
                i += 1;
            }
            assert(all.take(i as int) =~= all);
        },
        None => {
            assert(first + Seq::<ObservationFacts>::empty() =~= first);
        },
    }
    observations
}

/// What a report says of how the suite ended.
pub open spec fn report_of(value: JsonFacts, library: Seq<char>) -> Option<ParsedFacts> {
    let observations = all_observed(value, library);
    let summary = match value.member_items("results"@) {
        Some(items) => results_summary(items, library),
        None => None,
    };
    match summary {
        Some(parsed) => Some(ParsedFacts { observations, ..parsed }),
        None => match value.member_text("outcome"@) {
            None => None,
            Some(word) => match outcome_named(word) {
                None => None,
                Some(outcome) => Some(
                    ParsedFacts {
                        outcome,
                        skip_reason: value.member_text("skip_reason"@),
                        error_summary: value.member_text("error_summary"@),
                        observations,
                    },
                ),
            },
        },
    }
}

/// What a report says of how the suite ended.
pub fn read_report(library: &str, value: &Json) -> (r: Option<ParsedSuiteOutput>)
    ensures
        opt_parsed(r) == report_of(value.facts(), library@),
{
    let observations = collect_observations(library, value);
    match value.list_at("results") {
        Some(results) => match summarize_results(library, results) {
            Some(parsed) => {
                return Some(
                    ParsedSuiteOutput {
                        outcome: parsed.outcome,
                        skip_reason: parsed.skip_reason,
                        error_summary: parsed.error_summary,
                        observations,
                    },
                );
            },
            None => {},
        },
        None => {},
    }
    let word = match value.text_at("outcome") {
        Some(word) => word,
        None => {
            return None;
        },
    };
    match parse_outcome(word.as_str()) {
        Some(outcome) => Some(
            ParsedSuiteOutput {
                outcome,
                skip_reason: text_member(value, "skip_reason"),
                error_summary: text_member(value, "error_summary"),
                observations,
            },
        ),
        None => None,
    }
}

/// The last line that is JSON.
pub open spec fn last_value(list: Seq<Seq<char>>) -> Option<JsonFacts>
    decreases list.len(),
{
    if list.len() == 0 {
        None
    } else {
        match json_value_of(list.last()) {
            Ok(value) => Some(value),
            Err(_) => last_value(list.drop_last()),
        }
    }
}

/// What a suite's output says of how the suite ended: its last line that is JSON.
pub open spec fn output_report(stdout: Seq<char>, library: Seq<char>) -> Option<ParsedFacts> {
    match last_value(lines_of(stdout)) {
        Some(value) => report_of(value, library),
        None => None,
    }
}

/// What a suite's output says of how the suite ended.
pub fn parse_suite_output(suite: &CompatibilitySuite, stdout: &str) -> (r: Option<ParsedSuiteOutput>)
    ensures
        opt_parsed(r) == output_report(stdout@, suite@.library),
{
    let list = lines(stdout);
    let ghost all = texts(list@);
    let mut i: usize = list.len();
    assert(all.take(i as int) =~= all);
    while i > 0
        invariant
            i <= list@.len(),
            all == texts(list@),
            all == lines_of(stdout@),
            last_value(all) == last_value(all.take(i as int)),
        decreases i,
    {
        let at: usize = i - 1;
        proof {
            assert(all.take(i as int).last() == list@[at as int]@);
            assert(all.take(i as int).drop_last() =~= all.take(at as int));
        }
        match read_json(list[at].as_str()) {
            Ok(value) => {
                return read_report(suite.library.name.as_str(), &value);
            },
            Err(_) => {},
        }
        i = at;
    }
    None
}

/// The first line that is not blank, or what is said where there is none.
pub open spec fn first_line(list: Seq<Seq<char>>) -> Seq<char>
    decreases list.len(),
{
    if list.len() == 0 {
        "command exited without a JSON report"@
    } else if !is_blank(list[0]) {
        list[0]
    } else {
        first_line(list.skip(1))
    }
}

/// The first line that is not blank, or what is said where there is none.
pub fn first_non_empty_line(value: &str) -> (r: String)
    ensures
        r@ == first_line(lines_of(value@)),
{
    let list = lines(value);
    let ghost all = texts(list@);
    let mut i: usize = 0;
    assert(all.skip(0) =~= all);
    while i < list.len()
        invariant
            i <= list@.len(),
            all == texts(list@),
            all == lines_of(value@),
            first_line(all) == first_line(all.skip(i as int)),
        decreases list@.len() - i,
    {
        assert(all.skip(i as int)[0] == list@[i as int]@);
        if !blank(list[i].as_str()) {
            return list[i].clone();
        }
        assert(all.skip(i as int).skip(1) =~= all.skip(i + 1));
        i += 1;
    }
    "command exited without a JSON report".to_owned()
}

// ---------------------------------------------------------------------------
// What is expected
// ---------------------------------------------------------------------------

/// The outcome that is expected of a case.
pub open spec fn expected_outcome(case: JsonFacts) -> Option<Seq<char>> {
    match case.member_text("outcome"@) {
        Some(outcome) => Some(outcome),
        None => if case.member("sqlstate"@) is Some {
            Some("sqlstate"@)
        } else {
            match case.member_items("rows"@) {
                Some(rows) => if rows.len() > 0 {
                    Some("one-row"@)
                } else {
                    None
                },
                None => None,
            }
        },
    }
}

/// A case and the outcome that is expected of it.
#[derive(Clone, Debug)]
pub struct ExpectedCase {
    pub case_id: String,
    pub outcome: String,
}

impl View for ExpectedCase {
    type V = ObservationFacts;

    open spec fn view(&self) -> ObservationFacts {
        ObservationFacts { case_id: self.case_id@, outcome: self.outcome@ }
    }
}

/// Expectations as plain values.
pub open spec fn expected_facts(list: Seq<ExpectedCase>) -> Seq<ObservationFacts> {
    list.map_values(|item: ExpectedCase| item@)
}

/// What is said of a case that expects nothing.
pub open spec fn no_expectation(case_id: Seq<char>) -> Seq<char> {
    "compatibility expected result '"@ + case_id + "' must declare an outcome, rows, or sqlstate"@
}

/// What is expected of some cases, or what is said of the first that expects nothing.
pub open spec fn expectations(members: Seq<(Seq<char>, JsonFacts)>) -> Result<
    Seq<ObservationFacts>,
    Seq<char>,
>
    decreases members.len(),
{
    if members.len() == 0 {
        Ok(Seq::empty())
    } else {
        match expectations(members.drop_last()) {
            Err(message) => Err(message),
            Ok(list) => match expected_outcome(members.last().1) {
                None => Err(no_expectation(members.last().0)),
                Some(outcome) => Ok(
                    list.push(ObservationFacts { case_id: members.last().0, outcome }),
                ),
            },
        }
    }
}

proof fn lemma_expectations_error_stays(members: Seq<(Seq<char>, JsonFacts)>, k: int)
    requires
        0 <= k <= members.len(),
        expectations(members.take(k)) is Err,
    ensures
        expectations(members) == expectations(members.take(k)),
    decreases members.len() - k,
{
    if k < members.len() {
        assert(members.take(k + 1).drop_last() =~= members.take(k));
        lemma_expectations_error_stays(members, k + 1);
    } else {
        assert(members.take(k) =~= members);
    }
}

/// What a document expects of each case, or what is wrong with the document.
pub open spec fn expected_of(value: JsonFacts, path: Seq<char>) -> Result<
    Seq<ObservationFacts>,
    Seq<char>,
> {
    match value.member("cases"@) {
        Some(JsonFacts::Members(members)) => expectations(members),
        _ => Err(
            "compatibility expected results '"@ + path + "' must contain a cases object"@,
        ),
    }
}

/// The outcome that is expected of a case.
fn expected_word(case: &Json) -> (r: Option<String>)
    ensures
        opt_text(r) == expected_outcome(case.facts()),
{
    match case.text_at("outcome") {
        Some(outcome) => {
            return Some(outcome.clone());
        },
        None => {},
    }
    if case.get("sqlstate").is_some() {
        return Some("sqlstate".to_owned());
    }
    match case.list_at("rows") {
        Some(rows) => {
            assert(item_facts(rows@).len() == rows@.len());
            if rows.len() > 0 {
                Some("one-row".to_owned())
            } else {
                None
            }
        },
        None => None,
    }
}

/// What a document expects of each case.
pub fn expected_case_outcomes(value: &Json, path: &str) -> (r: Result<
    Vec<ExpectedCase>,
    CompatibilityError,
>)
    ensures
        match (r, expected_of(value.facts(), path@)) {
            (Ok(list), Ok(expected)) => expected_facts(list@) == expected,
            (Err(error), Err(message)) => error@ == CompatibilityComplaint::Runner(message),
            _ => false,
        },
{
    match value.get("cases") {
        Some(Json::Members(members)) => {
            let ghost object = Json::Members(*members).facts();
            let ghost all = object->Members_0;
            let mut list: Vec<ExpectedCase> = Vec::new();
            let mut i: usize = 0;
            proof {
                assert(value.facts().member("cases"@) == Some(object));
                assert(all.take(0) =~= Seq::empty());
                assert(expected_facts(list@) =~= Seq::empty());
            }
            while i < members.len()
                invariant
                    i <= members@.len(),
                    object == Json::Members(*members).facts(),
                    all == object->Members_0,
                    all.len() == members@.len(),
                    value.facts().member("cases"@) == Some(object),
                    expectations(all.take(i as int)) == Ok::<Seq<ObservationFacts>, Seq<char>>(
                        expected_facts(list@),
                    ),
                decreases members@.len() - i,
            {
                proof {
                    assert(all[i as int] == (members@[i as int].0@, members@[i as int].1.facts()));
                    assert(all.take(i + 1).drop_last() =~= all.take(i as int));
                    assert(all.take(i + 1).last() == all[i as int]);
                    if expectations(all.take(i + 1)) is Err {
                        lemma_expectations_error_stays(all, i + 1);
                    }
                }
                match expected_word(&members[i].1) {
                    Some(outcome) => {
                        let ghost held = list@;
                        let expected = ExpectedCase { case_id: members[i].0.clone(), outcome };
                        list.push(expected);
                        assert(expected_facts(list@) =~= expected_facts(held).push(expected@));
                    },
                    None => {
                        return Err(
                            CompatibilityError::Runner(
                                join3(
                                    "compatibility expected result '",
                                    members[i].0.as_str(),
                                    "' must declare an outcome, rows, or sqlstate",
                                ),
                            ),
                        );
                    },
                }
                i += 1;
            }
            assert(all.take(i as int) =~= all);
            Ok(list)
        },
        _ => Err(
            CompatibilityError::Runner(
                join3(
                    "compatibility expected results '",
                    path,
                    "' must contain a cases object",
                ),
            ),
        ),
    }
}

/// What a file's text expects of each case, or what is wrong with the file.
pub open spec fn expected_in(contents: Seq<char>, path: Seq<char>) -> Result<
    Seq<ObservationFacts>,
    Seq<char>,
> {
    match json_value_of(contents) {
        Err(error) => Err(
            "parse compatibility expected results '"@ + path + "': "@ + error,
        ),
        Ok(value) => expected_of(value, path),
    }
}

/// What a file's text expects of each case.
pub fn read_expected_outcomes(contents: &str, path: &str) -> (r: Result<
    Vec<ExpectedCase>,
    CompatibilityError,
>)
    ensures
        match (r, expected_in(contents@, path@)) {
            (Ok(list), Ok(expected)) => expected_facts(list@) == expected,
            (Err(error), Err(message)) => error@ == CompatibilityComplaint::Runner(message),
            _ => false,
        },
{
    match read_json(contents) {
        Err(error) => Err(
            CompatibilityError::Runner(
                join4(
                    "parse compatibility expected results '",
                    path,
                    "': ",
                    error.as_str(),
                ),
            ),
        ),
        Ok(value) => expected_case_outcomes(&value, path),
    }
}

/// The outcome that a list expects of a case.
pub open spec fn outcome_for(list: Seq<ObservationFacts>, case_id: Seq<char>) -> Option<Seq<char>>
    decreases list.len(),
{
    if list.len() == 0 {
        None
    } else if list.last().case_id == case_id {
        Some(list.last().outcome)
    } else {
        outcome_for(list.drop_last(), case_id)
    }
}

/// What is wrong with what a suite reports of one case. A skipped case is never wrong.
pub open spec fn observation_complaint(
    observation: ObservationFacts,
    expected: Seq<ObservationFacts>,
) -> Option<Seq<char>> {
    if observation.outcome == "skip"@ || observation.outcome == "skipped"@ {
        None
    } else {
        match outcome_for(expected, observation.case_id) {
            None => Some(
                "suite reported unknown compatibility case '"@ + observation.case_id + "'"@,
            ),
            Some(outcome) => if observation.outcome != outcome {
                Some(
                    "suite reported outcome '"@ + observation.outcome
                        + "' for compatibility case '"@ + observation.case_id + "', expected '"@
                        + outcome + "'"@,
                )
            } else {
                None
            },
        }
    }
}

/// The first thing that is wrong with what a suite reports of its cases.
pub open spec fn observations_complaint(
    observations: Seq<ObservationFacts>,
    expected: Seq<ObservationFacts>,
) -> Option<Seq<char>>
    decreases observations.len(),
{
    if observations.len() == 0 {
        None
    } else {
        match observation_complaint(observations[0], expected) {
            Some(message) => Some(message),
            None => observations_complaint(observations.skip(1), expected),
        }
    }
}

fn find_expected<'a>(list: &'a Vec<ExpectedCase>, case_id: &str) -> (r: Option<&'a String>)
    ensures
        match r {
            Some(outcome) => outcome_for(expected_facts(list@), case_id@) == Some(outcome@),
            None => outcome_for(expected_facts(list@), case_id@) is None,
        },
{
    let ghost all = expected_facts(list@);
    let mut i: usize = list.len();
    assert(all.take(i as int) =~= all);
    while i > 0
        invariant
            i <= list@.len(),
            all == expected_facts(list@),
            outcome_for(all, case_id@) == outcome_for(all.take(i as int), case_id@),
        decreases i,
    {
        let at: usize = i - 1;
        proof {
            assert(all.take(i as int).last() == list@[at as int]@);
            assert(all.take(i as int).drop_last() =~= all.take(at as int));
        }
        if same_text(list[at].case_id.as_str(), case_id) {
            return Some(&list[at].outcome);
        }
        i = at;
    }
    None
}

/// The first thing that is wrong with what a suite reports of its cases: a case that nothing is
/// expected of, or another outcome than expected.
pub fn validate_observations(
    observations: &Vec<CompatibilityCaseObservation>,
    expected: &Vec<ExpectedCase>,
) -> (r: Option<String>)
    ensures
        opt_text(r) == observations_complaint(
            observation_facts(observations@),
            expected_facts(expected@),
        ),
{
    let ghost all = observation_facts(observations@);
    let ghost wanted = expected_facts(expected@);
    let mut i: usize = 0;
    assert(all.skip(0) =~= all);
    while i < observations.len()
        invariant
            i <= observations@.len(),
            all == observation_facts(observations@),
            wanted == expected_facts(expected@),
            observations_complaint(all, wanted) == observations_complaint(
                all.skip(i as int),
                wanted,
            ),
        decreases observations@.len() - i,
    {
        let observation = &observations[i];
        proof {
            assert(all.skip(i as int)[0] == observation@);
            assert(all.skip(i as int).skip(1) =~= all.skip(i + 1));
        }
        let outcome = observation.outcome.as_str();
        if !(same_text(outcome, "skip") || same_text(outcome, "skipped")) {
            match find_expected(expected, observation.case_id.as_str()) {
                None => {
                    return Some(
                        join3(
                            "suite reported unknown compatibility case '",
                            observation.case_id.as_str(),
                            "'",
                        ),
                    );
                },
                Some(wanted_outcome) => {
                    if !same_text(outcome, wanted_outcome.as_str()) {
                        let head = join5(
                            "suite reported outcome '",
                            outcome,
                            "' for compatibility case '",
                            observation.case_id.as_str(),
                            "', expected '",
                        );
                        return Some(join3(head.as_str(), wanted_outcome.as_str(), "'"));
                    }
                },
            }
        }
        i += 1;
    }
    None
}

// ---------------------------------------------------------------------------
// The report of a suite that was run
// ---------------------------------------------------------------------------

/// What is wrong with what a suite reports next to what is expected, or with the expectations.
pub open spec fn expectation_error(
    observations: Seq<ObservationFacts>,
    expected: Result<Seq<ObservationFacts>, Seq<char>>,
) -> Option<Seq<char>> {
    match expected {
        Ok(expected) => observations_complaint(observations, expected),
        Err(message) => Some(CompatibilityComplaint::Runner(message).text()),
    }
}

/// How a suite that was run ended.
pub open spec fn completed_outcome(
    required: bool,
    success: bool,
    reported: CompatibilityOutcome,
    error: Option<Seq<char>>,
) -> CompatibilityOutcome {
    if error is Some {
        CompatibilityOutcome::Failed
    } else if !success && reported == CompatibilityOutcome::Passed {
        CompatibilityOutcome::Failed
    } else if reported == CompatibilityOutcome::Skipped && required {
        CompatibilityOutcome::Failed
    } else {
        reported
    }
}

/// What is said of a suite that was run: the first that there is of what is wrong with its report,
/// what the report itself says, and the first line of its error output where the command failed.
pub open spec fn completed_summary(
    success: bool,
    error: Option<Seq<char>>,
    parsed: Option<ParsedFacts>,
    stderr: Seq<char>,
) -> Option<Seq<char>> {
    let said = match parsed {
        Some(parsed) => parsed.error_summary,
        None => None,
    };
    let failed = match parsed {
        Some(parsed) => parsed.outcome == CompatibilityOutcome::Failed,
        None => true,
    };
    let first = if error is Some {
        error
    } else if said is Some {
        said
    } else if !success {
        Some(first_line(lines_of(stderr)))
    } else if failed {
        Some("suite did not emit a recognized compatibility verdict"@)
    } else {
        None
    };
    match first {
        Some(text) => if is_blank(text) {
            None
        } else {
            Some(text)
        },
        None => None,
    }
}

/// The report of a suite that was run, given what its output says.
pub open spec fn completed(
    suite: SuiteFacts,
    duration_ms: u128,
    success: bool,
    parsed: Option<ParsedFacts>,
    stderr: Seq<char>,
    expected: Result<Seq<ObservationFacts>, Seq<char>>,
) -> CaseFacts {
    let observations = match parsed {
        Some(parsed) => parsed.observations,
        None => Seq::empty(),
    };
    let reported = match parsed {
        Some(parsed) => parsed.outcome,
        None => CompatibilityOutcome::Failed,
    };
    let error = expectation_error(observations, expected);
    CaseFacts {
        duration_ms,
        skip_reason: match parsed {
            Some(parsed) => parsed.skip_reason,
            None => None,
        },
        error_summary: completed_summary(success, error, parsed, stderr),
        observations,
        ..plain_case(suite, completed_outcome(suite.required, success, reported, error))
    }
}

/// A suite that was run passes only where its command succeeded, its report says so and every
/// case ended as expected.
pub proof fn law_pass_is_earned(
    suite: SuiteFacts,
    duration_ms: u128,
    success: bool,
    parsed: Option<ParsedFacts>,
    stderr: Seq<char>,
    expected: Result<Seq<ObservationFacts>, Seq<char>>,
)
    requires
        completed(suite, duration_ms, success, parsed, stderr, expected).outcome
            == CompatibilityOutcome::Passed,
    ensures
        success,
        parsed is Some,
        parsed->0.outcome == CompatibilityOutcome::Passed,
        expected is Ok,
        observations_complaint(parsed->0.observations, expected->Ok_0) is None,
{
}

/// A suite whose library is required never counts as skipped.
pub proof fn law_required_is_never_skipped(
    suite: SuiteFacts,
    duration_ms: u128,
    success: bool,
    parsed: Option<ParsedFacts>,
    stderr: Seq<char>,
    expected: Result<Seq<ObservationFacts>, Seq<char>>,
)
    requires
        suite.required,
    ensures
        completed(suite, duration_ms, success, parsed, stderr, expected).outcome
            != CompatibilityOutcome::Skipped,
        forall|reason: Seq<char>, summary: Seq<char>|
            (#[trigger] skipped(suite, reason, summary)).outcome == CompatibilityOutcome::Failed,
{
}

/// The report of a suite that was run, given what its output says. What is wrong with the
/// expectations, where anything is, is a runner's error.
pub fn completed_case(
    suite: &CompatibilitySuite,
    duration_ms: u128,
    success: bool,
    parsed: Option<ParsedSuiteOutput>,
    stderr: &str,
    expected: &Result<Vec<ExpectedCase>, String>,
) -> (r: CompatibilityCaseReport)
    ensures
        r@ == completed(
            suite@,
            duration_ms,
            success,
            opt_parsed(parsed),
            stderr@,
            match *expected {
                Ok(list) => Ok(expected_facts(list@)),
                Err(message) => Err(message@),
            },
        ),
{
    let reported = match &parsed {
        Some(parsed) => parsed.outcome,
        None => CompatibilityOutcome::Failed,
    };
    let (skip_reason, said, observations) = match parsed {
        Some(parsed) => (parsed.skip_reason, parsed.error_summary, parsed.observations),
        None => {
            let none: Vec<CompatibilityCaseObservation> = Vec::new();
            assert(observation_facts(none@) =~= Seq::empty());
            (None, None, none)
        },
    };
    let error = match expected {
        Ok(expected) => validate_observations(&observations, expected),
        Err(message) => Some(join2("compatibility runner error: ", message.as_str())),
    };
    let mut outcome = reported;
    if !success && reported == CompatibilityOutcome::Passed {
        outcome = CompatibilityOutcome::Failed;
    }
    if outcome == CompatibilityOutcome::Skipped && suite.library.required {
        outcome = CompatibilityOutcome::Failed;
    }
    if error.is_some() {
        outcome = CompatibilityOutcome::Failed;
    }
    let first = if error.is_some() {
        error
    } else if said.is_some() {
        said
    } else if !success {
        Some(first_non_empty_line(stderr))
    } else if reported == CompatibilityOutcome::Failed {
        Some("suite did not emit a recognized compatibility verdict".to_owned())
    } else {
        None
    };
    let error_summary = match first {
        Some(text) => if blank(text.as_str()) {
            None
        } else {
            Some(text)
        },
        None => None,
    };
    let mut report = new_case(suite, outcome);
    report.duration_ms = duration_ms;
    report.skip_reason = skip_reason;
    report.error_summary = error_summary;
    report.observations = observations;
    report
}

/// The report of a suite that was run: what its output says next to what is expected.
pub fn completed_case_from_output(
    suite: &CompatibilitySuite,
    duration_ms: u128,
    success: bool,
    stdout: &str,
    stderr: &str,
    expected: &Result<Vec<ExpectedCase>, String>,
) -> (r: CompatibilityCaseReport)
    ensures
        r@ == completed(
            suite@,
            duration_ms,
            success,
            output_report(stdout@, suite@.library),
            stderr@,
            match *expected {
                Ok(list) => Ok(expected_facts(list@)),
                Err(message) => Err(message@),
            },
        ),
{
    let parsed = parse_suite_output(suite, stdout);
    completed_case(suite, duration_ms, success, parsed, stderr, expected)
}

// ---------------------------------------------------------------------------
// Direct and proxied runs next to each other
// ---------------------------------------------------------------------------

/// What two runs are compared by: the library, in its language and version, and the case.
#[derive(Debug)]
struct CompareKey {
    language: CompatibilityLanguage,
    library: String,
    version: Option<String>,
    case_id: String,
}

/// What two runs are compared by, as plain values.
pub struct KeyFacts {
    pub language: LanguageFacts,
    pub library: Seq<char>,
    pub version: Option<Seq<char>>,
    pub case_id: Seq<char>,
}

impl View for CompareKey {
    type V = KeyFacts;

    closed spec fn view(&self) -> KeyFacts {
        KeyFacts {
            language: self.language@,
            library: self.library@,
            version: opt_text(self.version),
            case_id: self.case_id@,
        }
    }
}

/// Whether a version comes before another: none comes before any.
pub open spec fn version_before(a: Option<Seq<char>>, b: Option<Seq<char>>) -> bool {
    match (a, b) {
        (None, Some(_)) => true,
        (Some(a), Some(b)) => text_before(a, b),
        _ => false,
    }
}

/// Whether a key comes before another: by its language, then by its library, its version and its
/// case.
pub open spec fn key_before(a: KeyFacts, b: KeyFacts) -> bool {
    if a.language.rank != b.language.rank {
        a.language.rank < b.language.rank
    } else if a.library != b.library {
        text_before(a.library, b.library)
    } else if a.version != b.version {
        version_before(a.version, b.version)
    } else {
        text_before(a.case_id, b.case_id)
    }
}

/// A list of keys in order with one more, at its place; a key that is there already is not added.
pub open spec fn with_key(list: Seq<KeyFacts>, key: KeyFacts) -> Seq<KeyFacts>
    decreases list.len(),
{
    if list.len() == 0 {
        seq![key]
    } else if list.last() == key {
        list
    } else if key_before(list.last(), key) {
        list.push(key)
    } else {
        with_key(list.drop_last(), key).push(list.last())
    }
}

/// What one run reports of one case.
#[derive(Debug)]
struct Mention {
    key: CompareKey,
    target: CompatibilityTarget,
    outcome: String,
}

/// What one run reports of one case, as plain values.
pub struct MentionFacts {
    pub key: KeyFacts,
    pub target: CompatibilityTarget,
    pub outcome: Seq<char>,
}

impl View for Mention {
    type V = MentionFacts;

    closed spec fn view(&self) -> MentionFacts {
        MentionFacts { key: self.key@, target: self.target, outcome: self.outcome@ }
    }
}

/// What one case of a report is compared by.
pub open spec fn key_of(case: CaseFacts, observation: ObservationFacts) -> KeyFacts {
    KeyFacts {
        language: case.language,
        library: case.library,
        version: case.version,
        case_id: observation.case_id,
    }
}

/// What a run reports of its cases.
pub open spec fn case_mentions(case: CaseFacts, observations: Seq<ObservationFacts>) -> Seq<
    MentionFacts,
> {
    observations.map_values(
        |observation: ObservationFacts|
            MentionFacts {
                key: key_of(case, observation),
                target: case.target,
                outcome: observation.outcome,
            },
    )
}

/// What the runs that passed report of their cases.
pub open spec fn all_mentions(cases: Seq<CaseFacts>) -> Seq<MentionFacts>
    decreases cases.len(),
{
    if cases.len() == 0 {
        Seq::empty()
    } else {
        let earlier = all_mentions(cases.drop_last());
        if cases.last().outcome == CompatibilityOutcome::Passed {
            earlier + case_mentions(cases.last(), cases.last().observations)
        } else {
            earlier
        }
    }
}

/// The keys of some reports, in order, each of them once.
pub open spec fn mentioned_keys(mentions: Seq<MentionFacts>) -> Seq<KeyFacts>
    decreases mentions.len(),
{
    if mentions.len() == 0 {
        Seq::empty()
    } else {
        with_key(mentioned_keys(mentions.drop_last()), mentions.last().key)
    }
}

/// Whether a list of keys is in order and holds no key twice.
pub open spec fn keys_ascending(list: Seq<KeyFacts>) -> bool {
    forall|i: int, j: int|
        0 <= i < j < list.len() ==> key_before(#[trigger] list[i], #[trigger] list[j])
}

/// Whether no two languages of some keys have the same rank.
pub open spec fn ranks_tell(keys: Seq<KeyFacts>) -> bool {
    forall|i: int, j: int|
        0 <= i < keys.len() && 0 <= j < keys.len() && (#[trigger] keys[i]).language.rank == (
        #[trigger] keys[j]).language.rank ==> keys[i].language == keys[j].language
}

/// The keys of some reports, as they come.
pub open spec fn keys_of(mentions: Seq<MentionFacts>) -> Seq<KeyFacts> {
    mentions.map_values(|mention: MentionFacts| mention.key)
}

/// No key comes before itself.
pub proof fn law_key_order_irreflexive(a: KeyFacts)
    ensures
        !key_before(a, a),
{
    law_text_order_irreflexive(a.case_id);
}

/// Of two keys that differ, one comes before the other, unless two languages share a rank.
pub proof fn law_key_order_total(a: KeyFacts, b: KeyFacts)
    requires
        a.language.rank == b.language.rank ==> a.language == b.language,
    ensures
        a == b || key_before(a, b) || key_before(b, a),
{
    law_text_order_total(a.library, b.library);
    law_text_order_total(a.case_id, b.case_id);
    if let (Some(first), Some(second)) = (a.version, b.version) {
        law_text_order_total(first, second);
    }
}

/// A key that comes before a second comes before whatever the second comes before.
pub proof fn law_key_order_transitive(a: KeyFacts, b: KeyFacts, c: KeyFacts)
    requires
        key_before(a, b),
        key_before(b, c),
    ensures
        key_before(a, c),
{
    law_text_order_irreflexive(a.library);
    law_text_order_irreflexive(a.case_id);
    if text_before(a.library, b.library) && text_before(b.library, c.library) {
        law_text_order_transitive(a.library, b.library, c.library);
    }
    if text_before(a.case_id, b.case_id) && text_before(b.case_id, c.case_id) {
        law_text_order_transitive(a.case_id, b.case_id, c.case_id);
    }
    if let (Some(first), Some(second), Some(third)) = (a.version, b.version, c.version) {
        law_text_order_irreflexive(first);
        if text_before(first, second) && text_before(second, third) {
            law_text_order_transitive(first, second, third);
        }
    }
}

proof fn lemma_with_key(list: Seq<KeyFacts>, key: KeyFacts)
    requires
        keys_ascending(list),
        forall|i: int|
            0 <= i < list.len() && (#[trigger] list[i]).language.rank == key.language.rank
                ==> list[i].language == key.language,
    ensures
        keys_ascending(with_key(list, key)),
        forall|other: KeyFacts| #[trigger]
            with_key(list, key).contains(other) <==> (list.contains(other) || other == key),
    decreases list.len(),
{
    let result = with_key(list, key);
    if list.len() == 0 {
        assert(result[0] == key);
    } else if list.last() == key {
        assert(list[list.len() - 1] == key);
    } else if key_before(list.last(), key) {
        assert forall|i: int, j: int| 0 <= i < j < result.len() implies key_before(
            #[trigger] result[i],
            #[trigger] result[j],
        ) by {
            if j == list.len() && i < list.len() - 1 {
                law_key_order_transitive(list[i], list[list.len() - 1], key);
            }
        }
        assert forall|other: KeyFacts| #[trigger]
            result.contains(other) <==> (list.contains(other) || other == key) by {
            if list.contains(other) {
                let k = choose|k: int| 0 <= k < list.len() && list[k] == other;
                assert(result[k] == other);
            }
            if other == key {
                assert(result[list.len() as int] == other);
            }
        }
    } else {
        let front = list.drop_last();
        assert forall|i: int, j: int| 0 <= i < j < front.len() implies key_before(
            #[trigger] front[i],
            #[trigger] front[j],
        ) by {
            assert(front[i] == list[i] && front[j] == list[j]);
        }
        assert forall|i: int|
            0 <= i < front.len() && (#[trigger] front[i]).language.rank
                == key.language.rank implies front[i].language == key.language by {
            assert(front[i] == list[i]);
        }
        lemma_with_key(front, key);
        let inner = with_key(front, key);
        assert(list[list.len() - 1] == list.last());
        law_key_order_total(list.last(), key);
        assert forall|i: int, j: int| 0 <= i < j < result.len() implies key_before(
            #[trigger] result[i],
            #[trigger] result[j],
        ) by {
            if j == inner.len() {
                assert(inner.contains(inner[i]));
                if front.contains(inner[i]) {
                    let k = choose|k: int| 0 <= k < front.len() && front[k] == inner[i];
                    assert(list[k] == inner[i]);
                }
            }
        }
        assert forall|other: KeyFacts| #[trigger]
            result.contains(other) <==> (list.contains(other) || other == key) by {
            assert(result == inner.push(list.last()));
            if result.contains(other) {
                let k = choose|k: int| 0 <= k < result.len() && result[k] == other;
                if k < inner.len() {
                    assert(inner[k] == other);
                    assert(inner.contains(other));
                    if front.contains(other) {
                        let m = choose|m: int| 0 <= m < front.len() && front[m] == other;
                        assert(list[m] == other);
                    }
                }
            }
            if list.contains(other) || other == key {
                if other == list.last() {
                    assert(result[inner.len() as int] == other);
                } else {
                    if list.contains(other) {
                        let k = choose|k: int| 0 <= k < list.len() && list[k] == other;
                        assert(front[k] == other);
                    }
                    assert(inner.contains(other));
                    let m = choose|m: int| 0 <= m < inner.len() && inner[m] == other;
                    assert(result[m] == other);
                }
            }
        }
    }
}

/// The keys of some reports are strictly ascending, and none is lost or made up, unless two
/// languages share a rank.
pub proof fn law_mentioned_keys(mentions: Seq<MentionFacts>)
    requires
        ranks_tell(keys_of(mentions)),
    ensures
        keys_ascending(mentioned_keys(mentions)),
        forall|key: KeyFacts| #[trigger]
            mentioned_keys(mentions).contains(key) <==> keys_of(mentions).contains(key),
    decreases mentions.len(),
{
    let all = keys_of(mentions);
    if mentions.len() > 0 {
        let earlier = mentions.drop_last();
        let before = keys_of(earlier);
        assert(before =~= all.drop_last());
        assert(all[all.len() - 1] == mentions.last().key);
        assert forall|i: int, j: int|
            0 <= i < before.len() && 0 <= j < before.len() && (
            #[trigger] before[i]).language.rank == (
            #[trigger] before[j]).language.rank implies before[i].language
            == before[j].language by {
            assert(before[i] == all[i] && before[j] == all[j]);
        }
        law_mentioned_keys(earlier);
        let list = mentioned_keys(earlier);
        let key = mentions.last().key;
        assert forall|i: int|
            0 <= i < list.len() && (#[trigger] list[i]).language.rank
                == key.language.rank implies list[i].language == key.language by {
            assert(list.contains(list[i]));
            let k = choose|k: int| 0 <= k < before.len() && before[k] == list[i];
            assert(all[k] == list[i]);
        }
        lemma_with_key(list, key);
        assert forall|other: KeyFacts| #[trigger]
            mentioned_keys(mentions).contains(other) <==> all.contains(other) by {
            if all.contains(other) {
                let k = choose|k: int| 0 <= k < all.len() && all[k] == other;
                if k < before.len() {
                    assert(before[k] == other);
                }
            }
            if before.contains(other) {
                let k = choose|k: int| 0 <= k < before.len() && before[k] == other;
                assert(all[k] == other);
            }
        }
    }
}

/// The last outcome that was reported of a case against a target.
pub open spec fn last_outcome(
    mentions: Seq<MentionFacts>,
    key: KeyFacts,
    target: CompatibilityTarget,
) -> Option<Seq<char>>
    decreases mentions.len(),
{
    if mentions.len() == 0 {
        None
    } else if mentions.last().key == key && mentions.last().target == target {
        Some(mentions.last().outcome)
    } else {
        last_outcome(mentions.drop_last(), key, target)
    }
}

/// Whether a run of a library against a target passed.
pub open spec fn passed_against(
    case: CaseFacts,
    key: KeyFacts,
    target: CompatibilityTarget,
) -> bool {
    &&& case.outcome == CompatibilityOutcome::Passed
    &&& case.language == key.language
    &&& case.library == key.library
    &&& case.version == key.version
    &&& case.target == target
}

/// Whether some run of a library against a target passed.
pub open spec fn some_run_passed(
    cases: Seq<CaseFacts>,
    key: KeyFacts,
    target: CompatibilityTarget,
) -> bool {
    exists|i: int| 0 <= i < cases.len() && passed_against(#[trigger] cases[i], key, target)
}

/// What is wrong with a case: it was reported by one of two runs only, or with two outcomes.
pub open spec fn difference(
    cases: Seq<CaseFacts>,
    mentions: Seq<MentionFacts>,
    key: KeyFacts,
) -> Option<
    Seq<char>,
> {
    let direct = last_outcome(mentions, key, CompatibilityTarget::DirectPostgres);
    let proxied = last_outcome(mentions, key, CompatibilityTarget::PgKinetic);
    let paired = some_run_passed(cases, key, CompatibilityTarget::DirectPostgres)
        && some_run_passed(cases, key, CompatibilityTarget::PgKinetic);
    if paired && direct is None {
        Some("missing direct-postgres observation for paired compatibility case"@)
    } else if paired && proxied is None {
        Some("missing pg-kinetic observation for paired compatibility case"@)
    } else if direct is None || proxied is None || direct == proxied {
        None
    } else {
        Some(
            "direct-postgres outcome '"@ + direct->0 + "' differs from pg-kinetic outcome '"@
                + proxied->0 + "' for case '"@ + key.case_id + "'"@,
        )
    }
}

/// The report on a case with which something is wrong.
pub open spec fn comparison_report(key: KeyFacts, summary: Seq<char>) -> CaseFacts {
    CaseFacts {
        suite_id: "compatibility-comparison-"@ + key.language.label + "-"@ + key.library + "-"@
            + key.case_id,
        language: key.language,
        library: key.library,
        version: key.version,
        target: CompatibilityTarget::PgKinetic,
        outcome: CompatibilityOutcome::Failed,
        duration_ms: 0,
        skip_reason: None,
        error_summary: Some(summary),
        observations: seq![
            ObservationFacts { case_id: key.case_id, outcome: "comparison-failed"@ },
        ],
    }
}

/// The reports on those of some cases with which something is wrong.
pub open spec fn comparison_reports(
    cases: Seq<CaseFacts>,
    mentions: Seq<MentionFacts>,
    keys: Seq<KeyFacts>,
) -> Seq<CaseFacts>
    decreases keys.len(),
{
    if keys.len() == 0 {
        Seq::empty()
    } else {
        let earlier = comparison_reports(cases, mentions, keys.drop_last());
        match difference(cases, mentions, keys.last()) {
            Some(summary) => earlier.push(comparison_report(keys.last(), summary)),
            None => earlier,
        }
    }
}

/// The reports that the comparison of some runs adds.
pub open spec fn comparison_failures(cases: Seq<CaseFacts>) -> Seq<CaseFacts> {
    comparison_reports(cases, all_mentions(cases), mentioned_keys(all_mentions(cases)))
}

/// Whatever the comparison adds is a failure.
pub proof fn law_comparison_adds_failures(
    cases: Seq<CaseFacts>,
    mentions: Seq<MentionFacts>,
    keys: Seq<KeyFacts>,
)
    ensures
        forall|i: int|
            0 <= i < comparison_reports(cases, mentions, keys).len()
                ==> (#[trigger] comparison_reports(cases, mentions, keys)[i]).outcome
                == CompatibilityOutcome::Failed,
    decreases keys.len(),
{
    if keys.len() > 0 {
        law_comparison_adds_failures(cases, mentions, keys.drop_last());
    }
}

/// Where no run passed, there is nothing to compare.
pub proof fn law_nothing_passed_nothing_compared(cases: Seq<CaseFacts>)
    requires
        forall|i: int|
            0 <= i < cases.len() ==> (#[trigger] cases[i]).outcome != CompatibilityOutcome::Passed,
    ensures
        comparison_failures(cases) == Seq::<CaseFacts>::empty(),
{
    lemma_no_mentions(cases);
}

proof fn lemma_no_mentions(cases: Seq<CaseFacts>)
    requires
        forall|i: int|
            0 <= i < cases.len() ==> (#[trigger] cases[i]).outcome != CompatibilityOutcome::Passed,
    ensures
        all_mentions(cases) == Seq::<MentionFacts>::empty(),
    decreases cases.len(),
{
    if cases.len() > 0 {
        assert forall|i: int| 0 <= i < cases.drop_last().len() implies (
        #[trigger] cases.drop_last()[i]).outcome != CompatibilityOutcome::Passed by {
            assert(cases.drop_last()[i] == cases[i]);
        }
        lemma_no_mentions(cases.drop_last());
        assert(cases.last() == cases[cases.len() - 1]);
    }
}

impl CompareKey {
    fn same_as(&self, other: &CompareKey) -> (r: bool)
        ensures
            r == (self@ == other@),
    {
        self.language.same_as(&other.language) && same_text(
            self.library.as_str(),
            other.library.as_str(),
        ) && same_opt(&self.version, &other.version) && same_text(
            self.case_id.as_str(),
            other.case_id.as_str(),
        )
    }

    fn comes_before(&self, other: &CompareKey) -> (r: bool)
        ensures
            r == key_before(self@, other@),
    {
        if self.language.rank != other.language.rank {
            return self.language.rank < other.language.rank;
        }
        if !same_text(self.library.as_str(), other.library.as_str()) {
            return text_less(self.library.as_str(), other.library.as_str());
        }
        if !same_opt(&self.version, &other.version) {
            return match (&self.version, &other.version) {
                (None, Some(_)) => true,
                (Some(a), Some(b)) => text_less(a.as_str(), b.as_str()),
                _ => false,
            };
        }
        text_less(self.case_id.as_str(), other.case_id.as_str())
    }

    fn copied(&self) -> (r: CompareKey)
        ensures
            r@ == self@,
    {
        CompareKey {
            language: self.language.copied(),
            library: self.library.clone(),
            version: clone_opt(&self.version),
            case_id: self.case_id.clone(),
        }
    }
}

closed spec fn key_facts(keys: Seq<CompareKey>) -> Seq<KeyFacts> {
    keys.map_values(|key: CompareKey| key@)
}

closed spec fn mention_facts(mentions: Seq<Mention>) -> Seq<MentionFacts> {
    mentions.map_values(|mention: Mention| mention@)
}

proof fn lemma_with_key_at(list: Seq<KeyFacts>, key: KeyFacts, k: int)
    requires
        0 <= k <= list.len(),
        forall|j: int|
            k <= j < list.len() ==> #[trigger] list[j] != key && !key_before(list[j], key),
    ensures
        with_key(list, key) == with_key(list.take(k), key) + list.skip(k),
    decreases list.len() - k,
{
    if k == list.len() {
        assert(list.take(k) =~= list);
        assert(with_key(list, key) + list.skip(k) =~= with_key(list, key));
    } else {
        let front = list.drop_last();
        assert(front.take(k) =~= list.take(k));
        assert(list.last() == list[list.len() - 1]);
        assert forall|j: int| k <= j < front.len() implies #[trigger] front[j] != key
            && !key_before(front[j], key) by {
            assert(front[j] == list[j]);
        }
        lemma_with_key_at(front, key, k);
        assert((with_key(list.take(k), key) + front.skip(k)).push(list.last()) =~= with_key(
            list.take(k),
            key,
        ) + list.skip(k));
    }
}

fn insert_key(keys: &mut Vec<CompareKey>, key: CompareKey)
    ensures
        key_facts(final(keys)@) == with_key(key_facts(old(keys)@), key@),
{
    let ghost all = key_facts(keys@);
    let mut k: usize = keys.len();
    while k > 0
        invariant
            k <= keys@.len(),
            all == key_facts(keys@),
            keys@ == old(keys)@,
            forall|j: int|
                k <= j < all.len() ==> #[trigger] all[j] != key@ && !key_before(all[j], key@),
        decreases k,
    {
        let at: usize = k - 1;
        assert(all[at as int] == keys@[at as int]@);
        if keys[at].same_as(&key) {
            proof {
                lemma_with_key_at(all, key@, k as int);
                assert(all.take(k as int).last() == all[at as int]);
                assert(all =~= all.take(k as int) + all.skip(k as int));
            }
            return;
        }
        if keys[at].comes_before(&key) {
            proof {
                lemma_with_key_at(all, key@, k as int);
                assert(all.take(k as int).last() == all[at as int]);
            }
            keys.insert(k, key);
            assert(key_facts(keys@) =~= with_key(all.take(k as int), key@) + all.skip(k as int));
            return;
        }
        k -= 1;
    }
    proof {
        lemma_with_key_at(all, key@, 0);
        assert(all.take(0) =~= Seq::empty());
    }
    keys.insert(0, key);
    assert(key_facts(keys@) =~= with_key(all.take(0), key@) + all.skip(0));
}

fn collect_mentions(cases: &Vec<CompatibilityCaseReport>) -> (r: Vec<Mention>)
    ensures
        mention_facts(r@) == all_mentions(case_facts(cases@)),
{
    let mut mentions: Vec<Mention> = Vec::new();
    let ghost all = case_facts(cases@);
    let mut i: usize = 0;
    assert(all.take(0) =~= Seq::empty());
    assert(mention_facts(mentions@) =~= Seq::empty());
    while i < cases.len()
        invariant
            i <= cases@.len(),
            all == case_facts(cases@),
            mention_facts(mentions@) == all_mentions(all.take(i as int)),
        decreases cases@.len() - i,
    {
        let case = &cases[i];
        proof {
            assert(all.take(i + 1).drop_last() =~= all.take(i as int));
            assert(all.take(i + 1).last() == case@);
        }
        if case.outcome == CompatibilityOutcome::Passed {
            let ghost held = mention_facts(mentions@);
            let ghost observations = observation_facts(case.observations@);
            let mut j: usize = 0;
            assert(held + case_mentions(case@, observations.take(0)) =~= held);
            while j < case.observations.len()
                invariant
                    j <= case.observations@.len(),
                    observations == observation_facts(case.observations@),
                    mention_facts(mentions@) == held + case_mentions(
                        case@,
                        observations.take(j as int),
                    ),
                decreases case.observations@.len() - j,
            {
                let observation = &case.observations[j];
                let ghost before = mentions@;
                let mention = Mention {
                    key: CompareKey {
                        language: case.language.copied(),
                        library: case.library.clone(),
                        version: clone_opt(&case.version),
                        case_id: observation.case_id.clone(),
                    },
                    target: case.target,
                    outcome: observation.outcome.clone(),
                };
                mentions.push(mention);
                proof {
                    assert(observations[j as int] == observation@);
                    assert(mention_facts(mentions@) =~= mention_facts(before).push(mention@));
                    assert(case_mentions(case@, observations.take(j + 1)) =~= case_mentions(
                        case@,
                        observations.take(j as int),
                    ).push(mention@));
                    assert(mention_facts(mentions@) =~= held + case_mentions(
                        case@,
                        observations.take(j + 1),
                    ));
                }
                j += 1;
            }
            assert(observations.take(j as int) =~= observations);
        }
        i += 1;
    }
    assert(all.take(i as int) =~= all);
    mentions
}

fn find_outcome<'a>(
    mentions: &'a Vec<Mention>,
    key: &CompareKey,
    target: CompatibilityTarget,
) -> (r: Option<&'a String>)
    ensures
        match r {
            Some(outcome) => last_outcome(mention_facts(mentions@), key@, target) == Some(outcome@),
            None => last_outcome(mention_facts(mentions@), key@, target) is None,
        },
{
    let ghost all = mention_facts(mentions@);
    let mut i: usize = mentions.len();
    assert(all.take(i as int) =~= all);
    while i > 0
        invariant
            i <= mentions@.len(),
            all == mention_facts(mentions@),
            last_outcome(all, key@, target) == last_outcome(all.take(i as int), key@, target),
        decreases i,
    {
        let at: usize = i - 1;
        proof {
            assert(all.take(i as int).last() == mentions@[at as int]@);
            assert(all.take(i as int).drop_last() =~= all.take(at as int));
        }
        if mentions[at].key.same_as(key) && mentions[at].target == target {
            return Some(&mentions[at].outcome);
        }
        i = at;
    }
    None
}

fn run_passed(cases: &Vec<CompatibilityCaseReport>, key: &CompareKey, target: CompatibilityTarget)
    -> (r: bool)
    ensures
        r == some_run_passed(case_facts(cases@), key@, target),
{
    let ghost all = case_facts(cases@);
    let mut i: usize = 0;
    while i < cases.len()
        invariant
            i <= cases@.len(),
            all == case_facts(cases@),
            forall|j: int| 0 <= j < i ==> !passed_against(#[trigger] all[j], key@, target),
        decreases cases@.len() - i,
    {
        let case = &cases[i];
        assert(all[i as int] == case@);
        if case.outcome == CompatibilityOutcome::Passed && case.target == target
            && case.language.same_as(&key.language) && same_text(
            case.library.as_str(),
            key.library.as_str(),
        ) && same_opt(&case.version, &key.version) {
            return true;
        }
        i += 1;
    }
    false
}

fn comparison_failure(key: &CompareKey, summary: String) -> (r: CompatibilityCaseReport)
    ensures
        r@ == comparison_report(key@, summary@),
{
    let mut observations: Vec<CompatibilityCaseObservation> = Vec::new();
    observations.push(
        CompatibilityCaseObservation {
            case_id: key.case_id.clone(),
            outcome: "comparison-failed".to_owned(),
        },
    );
    let head = join5(
        "compatibility-comparison-",
        key.language.label.as_str(),
        "-",
        key.library.as_str(),
        "-",
    );
    let report = CompatibilityCaseReport {
        suite_id: join2(head.as_str(), key.case_id.as_str()),
        language: key.language.copied(),
        library: key.library.clone(),
        version: clone_opt(&key.version),
        target: CompatibilityTarget::PgKinetic,
        outcome: CompatibilityOutcome::Failed,
        duration_ms: 0,
        skip_reason: None,
        error_summary: Some(summary),
        observations,
    };
    assert(report@.observations =~= comparison_report(key@, summary@).observations);
    report
}

fn compare_case(cases: &Vec<CompatibilityCaseReport>, mentions: &Vec<Mention>, key: &CompareKey)
    -> (r: Option<String>)
    ensures
        opt_text(r) == difference(case_facts(cases@), mention_facts(mentions@), key@),
{
    let paired = run_passed(cases, key, CompatibilityTarget::DirectPostgres) && run_passed(
        cases,
        key,
        CompatibilityTarget::PgKinetic,
    );
    let direct = match find_outcome(mentions, key, CompatibilityTarget::DirectPostgres) {
        Some(outcome) => outcome,
        None => {
            return if paired {
                Some(
                    "missing direct-postgres observation for paired compatibility case".to_owned(),
                )
            } else {
                None
            };
        },
    };
    let proxied = match find_outcome(mentions, key, CompatibilityTarget::PgKinetic) {
        Some(outcome) => outcome,
        None => {
            return if paired {
                Some("missing pg-kinetic observation for paired compatibility case".to_owned())
            } else {
                None
            };
        },
    };
    if same_text(direct.as_str(), proxied.as_str()) {
        return None;
    }
    let head = join5(
        "direct-postgres outcome '",
        direct.as_str(),
        "' differs from pg-kinetic outcome '",
        proxied.as_str(),
        "' for case '",
    );
    Some(join3(head.as_str(), key.case_id.as_str(), "'"))
}

/// Puts the runs against the two targets next to each other, and adds a failure for each case that
/// only one of them reports, or that they report with two outcomes.
pub fn record_comparison_failures(cases: &mut Vec<CompatibilityCaseReport>)
    ensures
        case_facts(final(cases)@) == case_facts(old(cases)@) + comparison_failures(
            case_facts(old(cases)@),
        ),
{
    let ghost all = case_facts(cases@);
    let mentions = collect_mentions(cases);
    let ghost told = mention_facts(mentions@);
    let mut keys: Vec<CompareKey> = Vec::new();
    let mut i: usize = 0;
    proof {
        assert(told.take(0) =~= Seq::empty());
        assert(key_facts(keys@) =~= Seq::empty());
    }
    while i < mentions.len()
        invariant
            i <= mentions@.len(),
            told == mention_facts(mentions@),
            key_facts(keys@) == mentioned_keys(told.take(i as int)),
        decreases mentions@.len() - i,
    {
        proof {
            assert(told.take(i + 1).drop_last() =~= told.take(i as int));
            assert(told.take(i + 1).last() == mentions@[i as int]@);
        }
        insert_key(&mut keys, mentions[i].key.copied());
        i += 1;
    }
    assert(told.take(i as int) =~= told);
    let ghost listed = key_facts(keys@);
    let mut failures: Vec<CompatibilityCaseReport> = Vec::new();
    let mut k: usize = 0;
    proof {
        assert(listed.take(0) =~= Seq::empty());
        assert(case_facts(failures@) =~= Seq::empty());
    }
    while k < keys.len()
        invariant
            k <= keys@.len(),
            listed == key_facts(keys@),
            told == mention_facts(mentions@),
            all == case_facts(cases@),
            case_facts(failures@) == comparison_reports(all, told, listed.take(k as int)),
        decreases keys@.len() - k,
    {
        proof {
            assert(listed.take(k + 1).drop_last() =~= listed.take(k as int));
            assert(listed.take(k + 1).last() == keys@[k as int]@);
        }
        match compare_case(cases, &mentions, &keys[k]) {
            Some(summary) => {
                let ghost held = failures@;
                let report = comparison_failure(&keys[k], summary);
                failures.push(report);
                assert(case_facts(failures@) =~= case_facts(held).push(report@));
            },
            None => {},
        }
        k += 1;
    }
    assert(listed.take(k as int) =~= listed);
    cases.append(&mut failures);
    assert(case_facts(cases@) =~= all + comparison_failures(all));
}

// ---------------------------------------------------------------------------
// The whole run
// ---------------------------------------------------------------------------

/// How the suites ended.
#[derive(Debug)]
pub struct CompatibilityRunReport {
    cases: Vec<CompatibilityCaseReport>,
}

impl View for CompatibilityRunReport {
    type V = Seq<CaseFacts>;

    closed spec fn view(&self) -> Seq<CaseFacts> {
        case_facts(self.cases@)
    }
}

/// Whether a suite failed, or is blocked.
pub open spec fn case_failed(case: CaseFacts) -> bool {
    case.outcome == CompatibilityOutcome::Failed || case.outcome == CompatibilityOutcome::Blocked
}

/// Whether some suite failed, or is blocked.
pub open spec fn some_failed(cases: Seq<CaseFacts>) -> bool {
    exists|i: int| 0 <= i < cases.len() && case_failed(#[trigger] cases[i])
}

/// How many suites ended in one way.
pub open spec fn count_outcome(cases: Seq<CaseFacts>, outcome: CompatibilityOutcome) -> nat
    decreases cases.len(),
{
    if cases.len() == 0 {
        0
    } else {
        count_outcome(cases.drop_last(), outcome) + if cases.last().outcome == outcome {
            1nat
        } else {
            0nat
        }
    }
}

/// The members of an observation as it is written.
pub open spec fn observation_members(observation: ObservationFacts) -> Seq<Seq<char>> {
    seq![
        json_member("case_id"@, json_quoted_of(observation.case_id)),
        json_member("outcome"@, json_quoted_of(observation.outcome)),
    ]
}

/// The members of a report as it is written.
pub open spec fn case_members(case: CaseFacts) -> Seq<Seq<char>> {
    seq![
        json_member(
            "cases"@,
            json_list(
                case.observations.map_values(
                    |observation: ObservationFacts| json_object(observation_members(observation)),
                ),
            ),
        ),
        json_member("duration_ms"@, decimal(case.duration_ms as nat)),
        json_member("error_summary"@, json_optional(case.error_summary)),
        json_member("language"@, json_quoted_of(case.language.label)),
        json_member("library"@, json_quoted_of(case.library)),
        json_member("outcome"@, json_quoted_of(case.outcome.name())),
        json_member("skip_reason"@, json_optional(case.skip_reason)),
        json_member("suite_id"@, json_quoted_of(case.suite_id)),
        json_member("target"@, json_quoted_of(case.target.name())),
        json_member("version"@, json_optional(case.version)),
    ]
}

/// The members of the summary as it is written.
pub open spec fn summary_members(cases: Seq<CaseFacts>) -> Seq<Seq<char>> {
    seq![
        json_member("blocked"@, decimal(count_outcome(cases, CompatibilityOutcome::Blocked))),
        json_member("fail"@, decimal(count_outcome(cases, CompatibilityOutcome::Failed))),
        json_member("pass"@, decimal(count_outcome(cases, CompatibilityOutcome::Passed))),
        json_member("skip"@, decimal(count_outcome(cases, CompatibilityOutcome::Skipped))),
    ]
}

/// The members of the whole as it is written.
pub open spec fn run_members(cases: Seq<CaseFacts>) -> Seq<Seq<char>> {
    seq![
        json_member("ok"@, json_bool(!some_failed(cases))),
        json_member(
            "results"@,
            json_list(cases.map_values(|case: CaseFacts| json_object(case_members(case)))),
        ),
        json_member("success_marker"@, json_quoted_of("compatibility report complete"@)),
        json_member("summary"@, json_object(summary_members(cases))),
    ]
}

fn render_observation(observation: &CompatibilityCaseObservation) -> (r: String)
    ensures
        r@ == json_object(observation_members(observation@)),
{
    let mut members: Vec<String> = Vec::new();
    push_member(&mut members, "case_id", json_quoted(observation.case_id.as_str()).as_str());
    push_member(&mut members, "outcome", json_quoted(observation.outcome.as_str()).as_str());
    assert(texts(members@) =~= observation_members(observation@));
    object_json(&members)
}

/// Writes the report of a suite.
pub fn case_json(case: &CompatibilityCaseReport) -> (r: String)
    ensures
        r@ == json_object(case_members(case@)),
{
    let mut observations: Vec<String> = Vec::new();
    let mut i: usize = 0;
    while i < case.observations.len()
        invariant
            i <= case.observations@.len(),
            observations@.len() == i,
            forall|j: int|
                0 <= j < i ==> (#[trigger] observations@[j])@ == json_object(
                    observation_members(case.observations@[j]@),
                ),
        decreases case.observations@.len() - i,
    {
        observations.push(render_observation(&case.observations[i]));
        i += 1;
    }
    assert(texts(observations@) =~= case@.observations.map_values(
        |observation: ObservationFacts| json_object(observation_members(observation)),
    ));
    let mut members: Vec<String> = Vec::new();
    push_member(&mut members, "cases", list_json(&observations).as_str());
    push_member(&mut members, "duration_ms", decimal_text(case.duration_ms).as_str());
    push_member(&mut members, "error_summary", optional_json(&case.error_summary).as_str());
    push_member(&mut members, "language", json_quoted(case.language.label.as_str()).as_str());
    push_member(&mut members, "library", json_quoted(case.library.as_str()).as_str());
    push_member(&mut members, "outcome", json_quoted(case.outcome.as_str()).as_str());
    push_member(&mut members, "skip_reason", optional_json(&case.skip_reason).as_str());
    push_member(&mut members, "suite_id", json_quoted(case.suite_id.as_str()).as_str());
    push_member(&mut members, "target", json_quoted(case.target.as_str()).as_str());
    push_member(&mut members, "version", optional_json(&case.version).as_str());
    assert(texts(members@) =~= case_members(case@));
    object_json(&members)
}

/// What is written to a suite's own file, and where: only where its policy keeps everything and it
/// names a file.
pub fn suite_artifact(suite: &CompatibilitySuite, case: &CompatibilityCaseReport) -> (r: Option<
    (String, String),
>)
    ensures
        match r {
            Some((path, text)) => suite@.artifact_policy == CompatibilityArtifactPolicy::Large
                && suite@.artifact_path == Some(path@) && text@ == json_object(case_members(case@)),
            None => suite@.artifact_policy != CompatibilityArtifactPolicy::Large
                || suite@.artifact_path is None,
        },
        r is Some <==> suite@.artifact_policy is Large && suite@.artifact_path is Some,
{
    if suite.artifact_policy != CompatibilityArtifactPolicy::Large {
        return None;
    }
    match &suite.artifact_path {
        Some(path) => Some((path.clone(), case_json(case))),
        None => None,
    }
}

impl CompatibilityRunReport {
    /// The report on suites that were run or skipped: the runs against the two targets are compared
    /// first.
    pub fn new(cases: Vec<CompatibilityCaseReport>) -> (r: CompatibilityRunReport)
        ensures
            r@ == case_facts(cases@) + comparison_failures(case_facts(cases@)),
    {
        let mut cases = cases;
        record_comparison_failures(&mut cases);
        CompatibilityRunReport { cases }
    }

    /// How each suite ended.
    pub fn cases(&self) -> (r: &Vec<CompatibilityCaseReport>)
        ensures
            case_facts(r@) == self@,
    {
        &self.cases
    }

    /// Whether some suite failed, or is blocked.
    pub fn has_failures(&self) -> (r: bool)
        ensures
            r == some_failed(self@),
    {
        let mut i: usize = 0;
        while i < self.cases.len()
            invariant
                i <= self.cases@.len(),
                forall|j: int| 0 <= j < i ==> !case_failed(#[trigger] self@[j]),
            decreases self.cases@.len() - i,
        {
            assert(self@[i as int] == self.cases@[i as int]@);
            if self.cases[i].outcome == CompatibilityOutcome::Failed || self.cases[i].outcome
                == CompatibilityOutcome::Blocked {
                return true;
            }
            i += 1;
        }
        false
    }

    fn count(&self, outcome: CompatibilityOutcome) -> (r: usize)
        ensures
            r == count_outcome(self@, outcome),
    {
        let mut count: usize = 0;
        let mut i: usize = 0;
        assert(self@.take(0) =~= Seq::empty());
        while i < self.cases.len()
            invariant
                i <= self.cases@.len(),
                count <= i,
                count == count_outcome(self@.take(i as int), outcome),
            decreases self.cases@.len() - i,
        {
            assert(self@.take(i + 1).drop_last() =~= self@.take(i as int));
            assert(self@.take(i + 1).last() == self.cases@[i as int]@);
            if self.cases[i].outcome == outcome {
                count += 1;
            }
            i += 1;
        }
        assert(self@.take(i as int) =~= self@);
        count
    }

    /// Writes the whole as JSON.
    pub fn render_json(&self) -> (r: String)
        ensures
            r@ == json_object(run_members(self@)),
    {
        let mut results: Vec<String> = Vec::new();
        let mut i: usize = 0;
        while i < self.cases.len()
            invariant
                i <= self.cases@.len(),
                results@.len() == i,
                forall|j: int|
                    0 <= j < i ==> (#[trigger] results@[j])@ == json_object(
                        case_members(self.cases@[j]@),
                    ),
            decreases self.cases@.len() - i,
        {
            results.push(case_json(&self.cases[i]));
            i += 1;
        }
        assert(texts(results@) =~= self@.map_values(
            |case: CaseFacts| json_object(case_members(case)),
        ));
        let mut summary: Vec<String> = Vec::new();
        push_member(
            &mut summary,
            "blocked",
            usize_text(self.count(CompatibilityOutcome::Blocked)).as_str(),
        );
        push_member(
            &mut summary,
            "fail",
            usize_text(self.count(CompatibilityOutcome::Failed)).as_str(),
        );
        push_member(
            &mut summary,
            "pass",
            usize_text(self.count(CompatibilityOutcome::Passed)).as_str(),
        );
        push_member(
            &mut summary,
            "skip",
            usize_text(self.count(CompatibilityOutcome::Skipped)).as_str(),
        );
        assert(texts(summary@) =~= summary_members(self@));
        let mut members: Vec<String> = Vec::new();
        push_member(&mut members, "ok", bool_json(!self.has_failures()).as_str());
        push_member(&mut members, "results", list_json(&results).as_str());
        push_member(
            &mut members,
            "success_marker",
            json_quoted("compatibility report complete").as_str(),
        );
        push_member(&mut members, "summary", object_json(&summary).as_str());
        assert(texts(members@) =~= run_members(self@));
        object_json(&members)
    }
}

/// A suite is selected exactly where it fits each choice that was made, and each selected suite
/// comes once, in the order of the manifest.
pub proof fn law_selected_exactly_where(
    list: Seq<LoadedFacts>,
    selector: CompatibilitySuiteSelector,
    library: Option<String>,
    category: Option<String>,
    next: LoadedFacts,
)
    ensures
        ({
            let fits = {
                &&& selector.language is Some ==> selector.language->0@ == next.suite.language
                &&& selector.target is Some ==> selector.target->0 == next.suite.target
                &&& selector.smoke ==> next.suite.smoke
                &&& library is Some ==> library->0@ == next.suite.library
                &&& category is Some ==> category->0@ == next.category
            };
            let before = selected_suites(list, selector, library, category);
            let after = selected_suites(list.push(next), selector, library, category);
            &&& fits ==> after == before.push(next.suite)
            &&& !fits ==> after == before
        }),
        selected_suites(Seq::empty(), selector, library, category).len() == 0,
{
    assert(list.push(next).drop_last() =~= list);
}

/// The services that are missing are those that a suite needs and that are not there.
pub proof fn law_missing_services(wanted: Seq<Seq<char>>, held: Seq<Seq<char>>)
    ensures
        missing_from(wanted, held).len() == 0 <==> forall|i: int|
            0 <= i < wanted.len() ==> held.contains(#[trigger] wanted[i]),
        forall|i: int|
            0 <= i < missing_from(wanted, held).len() ==> !held.contains(
                #[trigger] missing_from(wanted, held)[i],
            ) && wanted.contains(missing_from(wanted, held)[i]),
    decreases wanted.len(),
{
    if wanted.len() > 0 {
        let front = wanted.drop_last();
        law_missing_services(front, held);
        let missing = missing_from(wanted, held);
        let earlier = missing_from(front, held);
        assert(forall|i: int| 0 <= i < front.len() ==> (#[trigger] front[i]) == wanted[i]);
        assert forall|i: int| 0 <= i < missing.len() implies !held.contains(#[trigger] missing[i])
            && wanted.contains(missing[i]) by {
            if i < earlier.len() {
                assert(missing[i] == earlier[i]);
                let k = choose|k: int| 0 <= k < front.len() && front[k] == earlier[i];
                assert(wanted[k] == missing[i]);
            } else {
                assert(wanted[wanted.len() - 1] == missing[i]);
            }
        }
        if missing.len() == 0 {
            assert forall|i: int| 0 <= i < wanted.len() implies held.contains(
                #[trigger] wanted[i],
            ) by {
                if i < front.len() {
                    assert(front[i] == wanted[i]);
                }
            }
        } else if forall|i: int| 0 <= i < wanted.len() ==> held.contains(#[trigger] wanted[i]) {
            assert forall|i: int| 0 <= i < front.len() implies held.contains(#[trigger] front[i]) by {
                assert(front[i] == wanted[i]);
            }
            assert(held.contains(wanted[wanted.len() - 1]));
        }
    }
}

/// What a suite comes to: it fails where its observations are not as expected, where it says that
/// it passed and its command failed, and where it is skipped and its library is required; otherwise
/// it comes to what it says.
pub proof fn law_outcome_of_suite(
    required: bool,
    success: bool,
    reported: CompatibilityOutcome,
    error: Option<Seq<char>>,
)
    ensures
        ({
            let outcome = completed_outcome(required, success, reported, error);
            &&& outcome is Passed <==> reported is Passed && success && error is None
            &&& outcome is Skipped <==> reported is Skipped && !required && error is None
            &&& outcome is Blocked <==> reported is Blocked && error is None
            &&& outcome is Failed <==> error is Some || reported is Failed || (reported is Passed
                && !success) || (reported is Skipped && required)
        }),
{
}

/// A suite that is not run fails where its library is required, and is skipped otherwise; why is
/// told.
pub proof fn law_suite_not_run(suite: SuiteFacts, reason: Seq<char>, summary: Seq<char>)
    ensures
        skipped(suite, reason, summary).outcome is Failed <==> suite.required,
        skipped(suite, reason, summary).outcome is Skipped <==> !suite.required,
        skipped(suite, reason, summary).skip_reason == Some(reason),
        skipped(suite, reason, summary).error_summary == Some(summary),
        skipped(suite, reason, summary).suite_id == suite.id,
        skipped(suite, reason, summary).library == suite.library,
        skipped(suite, reason, summary).target == suite.target,
        skipped(suite, reason, summary).version == suite.version,
        skipped(suite, reason, summary).language == suite.language,
{
}

/// An observation is as expected where it is skipped, or where its case is known and the last
/// expectation of it says the same.
pub proof fn law_observation_expected(
    observation: ObservationFacts,
    expected: Seq<ObservationFacts>,
)
    ensures
        observation_complaint(observation, expected) is None <==> (observation.outcome == "skip"@
            || observation.outcome == "skipped"@ || outcome_for(expected, observation.case_id)
            == Some(observation.outcome)),
{
}

/// Of several expectations of a case the last holds.
pub proof fn law_last_expectation_holds(list: Seq<ObservationFacts>, i: int)
    requires
        0 <= i < list.len(),
        forall|j: int| i < j < list.len() ==> (#[trigger] list[j]).case_id != list[i].case_id,
    ensures
        outcome_for(list, list[i].case_id) == Some(list[i].outcome),
    decreases list.len(),
{
    if i < list.len() - 1 {
        let front = list.drop_last();
        assert(list[list.len() - 1].case_id != list[i].case_id);
        assert forall|j: int| i < j < front.len() implies (#[trigger] front[j]).case_id
            != front[i].case_id by {
            assert(front[j] == list[j]);
        }
        law_last_expectation_holds(front, i);
    }
}

/// Observations are as expected exactly where each of them is.
pub proof fn law_every_observation_expected(
    observations: Seq<ObservationFacts>,
    expected: Seq<ObservationFacts>,
)
    ensures
        observations_complaint(observations, expected) is None <==> forall|i: int|
            0 <= i < observations.len() ==> observation_complaint(
                #[trigger] observations[i],
                expected,
            ) is None,
    decreases observations.len(),
{
    if observations.len() > 0 {
        let rest = observations.skip(1);
        law_every_observation_expected(rest, expected);
        assert(forall|i: int| 0 <= i < rest.len() ==> (#[trigger] rest[i]) == observations[i + 1]);
        if observations_complaint(observations, expected) is None {
            assert forall|i: int| 0 <= i < observations.len() implies observation_complaint(
                #[trigger] observations[i],
                expected,
            ) is None by {
                if i > 0 {
                    assert(rest[i - 1] == observations[i]);
                }
            }
        }
    }
}

/// A case that passed both directly and through the proxy differs exactly where one of them does
/// not tell of it, or both tell something else.
pub proof fn law_difference_exactly_where(
    cases: Seq<CaseFacts>,
    mentions: Seq<MentionFacts>,
    key: KeyFacts,
)
    ensures
        ({
            let direct = last_outcome(mentions, key, CompatibilityTarget::DirectPostgres);
            let proxied = last_outcome(mentions, key, CompatibilityTarget::PgKinetic);
            let both = some_run_passed(cases, key, CompatibilityTarget::DirectPostgres)
                && some_run_passed(cases, key, CompatibilityTarget::PgKinetic);
            difference(cases, mentions, key) is Some <==> (direct is Some && proxied is Some
                && direct != proxied) || (both && (direct is None || proxied is None))
        }),
{
}

/// A run fails where any of its cases failed or was blocked, and each case is counted once under
/// its outcome.
pub proof fn law_cases_counted(cases: Seq<CaseFacts>)
    ensures
        count_outcome(cases, CompatibilityOutcome::Passed) + count_outcome(
            cases,
            CompatibilityOutcome::Failed,
        ) + count_outcome(cases, CompatibilityOutcome::Skipped) + count_outcome(
            cases,
            CompatibilityOutcome::Blocked,
        ) == cases.len(),
        some_failed(cases) <==> count_outcome(cases, CompatibilityOutcome::Failed) + count_outcome(
            cases,
            CompatibilityOutcome::Blocked,
        ) > 0,
    decreases cases.len(),
{
    if cases.len() > 0 {
        let front = cases.drop_last();
        law_cases_counted(front);
        assert(cases[cases.len() - 1] == cases.last());
        if some_failed(front) {
            let i = choose|i: int| 0 <= i < front.len() && case_failed(#[trigger] front[i]);
            assert(cases[i] == front[i]);
        }
        if some_failed(cases) {
            let i = choose|i: int| 0 <= i < cases.len() && case_failed(#[trigger] cases[i]);
            if i < front.len() {
                assert(front[i] == cases[i]);
            }
        }
        if case_failed(cases.last()) {
            assert(case_failed(cases[cases.len() - 1]));
        }
    }
}

/// Only runs that passed are compared, by what they tell of each case.
pub proof fn law_only_passed_runs_compared(cases: Seq<CaseFacts>, case: CaseFacts)
    ensures
        !(case.outcome is Passed) ==> all_mentions(cases.push(case)) == all_mentions(cases),
        case.outcome is Passed ==> {
            let told = all_mentions(cases.push(case));
            let n = all_mentions(cases).len();
            &&& told.len() == n + case.observations.len()
            &&& forall|i: int|
                0 <= i < case.observations.len() ==> {
                    let mention = #[trigger] told[n + i];
                    &&& mention.key.language == case.language
                    &&& mention.key.library == case.library
                    &&& mention.key.version == case.version
                    &&& mention.key.case_id == case.observations[i].case_id
                    &&& mention.target == case.target
                    &&& mention.outcome == case.observations[i].outcome
                }
        },
{
    assert(cases.push(case).drop_last() =~= cases);
}

/// A suite's words for its outcome.
pub proof fn law_outcome_words(word: Seq<char>)
    ensures
        outcome_named(word) == Some(CompatibilityOutcome::Passed) <==> (word == "pass"@ || word
            == "passed"@),
        outcome_named(word) == Some(CompatibilityOutcome::Failed) <==> (word == "fail"@ || word
            == "failed"@),
        outcome_named(word) == Some(CompatibilityOutcome::Skipped) <==> (word == "skip"@ || word
            == "skipped"@),
        outcome_named(word) == Some(CompatibilityOutcome::Blocked) <==> word == "blocked"@,
{
    reveal_strlit("pass");
    reveal_strlit("passed");
    reveal_strlit("fail");
    reveal_strlit("failed");
    reveal_strlit("skip");
    reveal_strlit("skipped");
    reveal_strlit("blocked");
    assert("pass"@[0] == 'p' && "passed"@[0] == 'p');
    assert("fail"@[0] == 'f' && "failed"@[0] == 'f');
    assert("skip"@[0] == 's' && "skipped"@[0] == 's');
    assert("blocked"@[0] == 'b');
}

/// What one result says of a library: nothing where it is about another one; otherwise its word
/// blocks, fails, skips or passes.
pub proof fn law_result_words(item: JsonFacts, library: Seq<char>, word: Seq<char>)
    requires
        item.member_text("outcome"@) == Some(word),
        item.member_text("library"@) is None || item.member_text("library"@) == Some(library),
    ensures
        word == "blocked"@ ==> item_verdict(item, library) == ItemVerdict::Ends(
            CompatibilityOutcome::Blocked,
        ),
        word == "fail"@ || word == "failed"@ ==> item_verdict(item, library) == ItemVerdict::Ends(
            CompatibilityOutcome::Failed,
        ),
        word == "skip"@ || word == "skipped"@ ==> item_verdict(item, library) is Skips,
        word == "pass"@ || word == "passed"@ || word == "connected"@ || word == "one-row"@
            ==> item_verdict(item, library) is Passes,
{
    reveal_strlit("blocked");
    reveal_strlit("fail");
    reveal_strlit("failed");
    reveal_strlit("skip");
    reveal_strlit("skipped");
    reveal_strlit("pass");
    reveal_strlit("passed");
    reveal_strlit("connected");
    reveal_strlit("one-row");
    assert("blocked"@[0] == 'b' && "fail"@[0] == 'f' && "failed"@[0] == 'f' && "skip"@[0] == 's'
        && "skipped"@[0] == 's' && "pass"@[0] == 'p' && "passed"@[0] == 'p' && "connected"@[0]
        == 'c' && "one-row"@[0] == 'o');
}

/// A result about another library says nothing of this one.
pub proof fn law_other_library_is_silent(item: JsonFacts, library: Seq<char>, other: Seq<char>)
    requires
        item.member_text("library"@) == Some(other),
        other != library,
    ensures
        item_verdict(item, library) is Silent,
{
}

/// The first result that blocks or fails decides.
pub proof fn law_first_failure_decides(items: Seq<JsonFacts>, library: Seq<char>, i: int)
    requires
        0 <= i < items.len(),
        item_verdict(items[i], library) is Ends,
        forall|j: int| 0 <= j < i ==> !(item_verdict(#[trigger] items[j], library) is Ends),
    ensures
        results_summary(items, library) is Some,
        results_summary(items, library)->0.outcome == item_verdict(items[i], library)->Ends_0,
        results_summary(items, library)->0.error_summary == items[i].member_text("error_summary"@),
        results_summary(items, library)->0.skip_reason is None,
{
    lemma_first_end_at(items, library, i);
}

proof fn lemma_first_end_at(items: Seq<JsonFacts>, library: Seq<char>, i: int)
    requires
        0 <= i < items.len(),
        item_verdict(items[i], library) is Ends,
        forall|j: int| 0 <= j < i ==> !(item_verdict(#[trigger] items[j], library) is Ends),
    ensures
        first_end(items, library) == Some(items[i]),
    decreases items.len(),
{
    if i > 0 {
        let rest = items.skip(1);
        assert(!(item_verdict(items[0], library) is Ends));
        assert(rest[i - 1] == items[i]);
        assert forall|j: int| 0 <= j < i - 1 implies !(item_verdict(
            #[trigger] rest[j],
            library,
        ) is Ends) by {
            assert(rest[j] == items[j + 1]);
        }
        lemma_first_end_at(rest, library, i - 1);
    }
}

proof fn lemma_no_end(items: Seq<JsonFacts>, library: Seq<char>)
    requires
        forall|j: int| 0 <= j < items.len() ==> !(item_verdict(#[trigger] items[j], library) is Ends),
    ensures
        first_end(items, library) is None,
    decreases items.len(),
{
    if items.len() > 0 {
        let rest = items.skip(1);
        assert(!(item_verdict(items[0], library) is Ends));
        assert(forall|j: int| 0 <= j < rest.len() ==> (#[trigger] rest[j]) == items[j + 1]);
        lemma_no_end(rest, library);
    }
}

proof fn lemma_skips(items: Seq<JsonFacts>, library: Seq<char>)
    ensures
        first_skip(items, library) is None <==> forall|j: int|
            0 <= j < items.len() ==> !(item_verdict(#[trigger] items[j], library) is Skips),
    decreases items.len(),
{
    if items.len() > 0 {
        let rest = items.skip(1);
        lemma_skips(rest, library);
        assert(forall|j: int| 0 <= j < rest.len() ==> (#[trigger] rest[j]) == items[j + 1]);
        assert(forall|j: int| 0 < j < items.len() ==> (#[trigger] items[j]) == rest[j - 1]);
    }
}

proof fn lemma_passes(items: Seq<JsonFacts>, library: Seq<char>)
    ensures
        !some_pass(items, library) <==> forall|j: int|
            0 <= j < items.len() ==> !(item_verdict(#[trigger] items[j], library) is Passes),
    decreases items.len(),
{
    if items.len() > 0 {
        let rest = items.skip(1);
        lemma_passes(rest, library);
        assert(forall|j: int| 0 <= j < rest.len() ==> (#[trigger] rest[j]) == items[j + 1]);
        assert(forall|j: int| 0 < j < items.len() ==> (#[trigger] items[j]) == rest[j - 1]);
    }
}

/// Where no result blocks or fails, they are skipped where one is, and pass where one passes and
/// none is skipped; where none says anything there is no verdict.
pub proof fn law_results_without_failure(items: Seq<JsonFacts>, library: Seq<char>)
    requires
        forall|j: int| 0 <= j < items.len() ==> !(item_verdict(#[trigger] items[j], library) is Ends),
    ensures
        (results_summary(items, library) matches Some(summary) && summary.outcome is Skipped) <==> !(
        forall|j: int|
            0 <= j < items.len() ==> !(item_verdict(#[trigger] items[j], library) is Skips)),
        results_summary(items, library) is None <==> forall|j: int|
            0 <= j < items.len() ==> item_verdict(#[trigger] items[j], library) is Silent,
        results_summary(items, library) matches Some(summary) ==> summary.outcome is Skipped
            || summary.outcome is Passed,
{
    lemma_no_end(items, library);
    lemma_skips(items, library);
    lemma_passes(items, library);
    if results_summary(items, library) is None {
        assert forall|j: int| 0 <= j < items.len() implies item_verdict(
            #[trigger] items[j],
            library,
        ) is Silent by {
            assert(!(item_verdict(items[j], library) is Skips));
            assert(!(item_verdict(items[j], library) is Passes));
        }
    }
}

/// What is expected of a case: its outcome where it names one, else an SQLSTATE where it names one,
/// else a row where it lists any, else nothing.
pub proof fn law_expectation_of_case(case: JsonFacts)
    ensures
        case.member_text("outcome"@) is Some ==> expected_outcome(case) == case.member_text(
            "outcome"@,
        ),
        case.member_text("outcome"@) is None && case.member("sqlstate"@) is Some
            ==> expected_outcome(case) == Some("sqlstate"@),
        case.member_text("outcome"@) is None && case.member("sqlstate"@) is None ==> (
        expected_outcome(case) == Some("one-row"@) <==> (case.member_items("rows"@) matches Some(
            rows,
        ) && rows.len() > 0)),
        case.member_text("outcome"@) is None && case.member("sqlstate"@) is None
            && case.member_items("rows"@) is None ==> expected_outcome(case) is None,
{
}

/// A difference is reported as a failure of the proxy, of the same library and case.
pub proof fn law_difference_is_a_failure(key: KeyFacts, summary: Seq<char>)
    ensures
        comparison_report(key, summary).outcome is Failed,
        comparison_report(key, summary).target is PgKinetic,
        comparison_report(key, summary).library == key.library,
        comparison_report(key, summary).language == key.language,
        comparison_report(key, summary).version == key.version,
        comparison_report(key, summary).error_summary == Some(summary),
        comparison_report(key, summary).observations.len() == 1,
        comparison_report(key, summary).observations[0].case_id == key.case_id,
{
}

/// Why a suite failed: what is not as expected, else what it says itself, else the first line of its
/// errors where its command failed, else that it gave no verdict.
pub proof fn law_summary_of_suite(
    success: bool,
    error: Option<Seq<char>>,
    parsed: Option<ParsedFacts>,
    stderr: Seq<char>,
)
    ensures
        error matches Some(text) ==> (!is_blank(text) ==> completed_summary(
            success,
            error,
            parsed,
            stderr,
        ) == Some(text)),
        error is None && parsed is Some && parsed->0.error_summary is Some && !is_blank(
            parsed->0.error_summary->0,
        ) ==> completed_summary(success, error, parsed, stderr) == parsed->0.error_summary,
        error is None && success && parsed is Some && parsed->0.error_summary is None && !(
        parsed->0.outcome is Failed) ==> completed_summary(success, error, parsed, stderr) is None,
        completed_summary(success, error, parsed, stderr) matches Some(text) ==> !is_blank(text),
{
}

/// A run's report says whether all went well, and counts its cases by outcome.
pub proof fn law_run_is_summed_up(cases: Seq<CaseFacts>)
    ensures
        summary_members(cases).len() == 4,
        summary_members(cases)[0] == json_member(
            "blocked"@,
            decimal(count_outcome(cases, CompatibilityOutcome::Blocked)),
        ),
        summary_members(cases)[1] == json_member(
            "fail"@,
            decimal(count_outcome(cases, CompatibilityOutcome::Failed)),
        ),
        summary_members(cases)[2] == json_member(
            "pass"@,
            decimal(count_outcome(cases, CompatibilityOutcome::Passed)),
        ),
        summary_members(cases)[3] == json_member(
            "skip"@,
            decimal(count_outcome(cases, CompatibilityOutcome::Skipped)),
        ),
        run_members(cases)[0] == json_member("ok"@, json_bool(!some_failed(cases))),
{
}

} // verus!
