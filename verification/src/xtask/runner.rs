//! The test suites: which are run, which files they are made of, and how each test is started.

use crate::text::{chars_of, contains, law_contains_means_a_part, same_text, string_of};
use crate::xtask::report::{record_views, RecordView, TestRecord};
use vstd::prelude::*;

verus! {

/// A public test suite.
#[derive(Clone, Copy, PartialEq, Eq, Structural)]
pub enum Suite {
    /// The inline unit tests of the workspace.
    Unit,
    /// The scripts that exercise one module each.
    Component,
    /// The tests that exercise the daemon as a whole.
    Integration,
    /// The benchmarks.
    Benchmark,
}

/// The public suites, in the order in which they are run.
pub const PUBLIC_SUITES: [Suite; 4] = [
    Suite::Unit,
    Suite::Component,
    Suite::Integration,
    Suite::Benchmark,
];

/// What a category stands for.
pub enum Selection {
    /// All public suites.
    All,
    /// One suite.
    One(Suite),
    /// A private suite, which is not run; holds the line for an operator.
    Restricted(String),
    /// Nothing; holds the error.
    Unknown(String),
}

/// The model of a selection.
pub enum SelectionView {
    /// All public suites.
    All,
    /// One suite.
    One(Suite),
    /// A private suite.
    Restricted(Seq<char>),
    /// Nothing.
    Unknown(Seq<char>),
}

impl View for Selection {
    type V = SelectionView;

    open spec fn view(&self) -> SelectionView {
        match self {
            Selection::All => SelectionView::All,
            Selection::One(suite) => SelectionView::One(*suite),
            Selection::Restricted(line) => SelectionView::Restricted(line@),
            Selection::Unknown(error) => SelectionView::Unknown(error@),
        }
    }
}

/// Whether a category is that of a private suite.
pub open spec fn is_restricted(category: Seq<char>) -> bool {
    category == "fuzz"@ || category == "fuzzing"@ || category == "threat"@
}

/// What a category stands for, in the model.
pub open spec fn selection_of(category: Option<Seq<char>>) -> SelectionView {
    match category {
        None => SelectionView::All,
        Some(name) => if name == "all"@ {
            SelectionView::All
        } else if name == "unit"@ {
            SelectionView::One(Suite::Unit)
        } else if name == "component"@ {
            SelectionView::One(Suite::Component)
        } else if name == "integration"@ {
            SelectionView::One(Suite::Integration)
        } else if name == "benchmark"@ {
            SelectionView::One(Suite::Benchmark)
        } else if is_restricted(name) {
            SelectionView::Restricted(
                "[WARN] The '"@ + name
                    + "' test suite requires strict network air-gapping and is restricted."@,
            )
        } else {
            SelectionView::Unknown("Unknown test category: "@ + name)
        },
    }
}

/// What a category stands for; without one, all public suites.
pub fn select_suites(category: Option<&str>) -> (r: Selection)
    ensures
        r@ == selection_of(
            match category {
                Some(name) => Some(name@),
                None => None,
            },
        ),
{
    match category {
        None => Selection::All,
        Some(name) => if same_text(name, "all") {
            Selection::All
        } else if same_text(name, "unit") {
            Selection::One(Suite::Unit)
        } else if same_text(name, "component") {
            Selection::One(Suite::Component)
        } else if same_text(name, "integration") {
            Selection::One(Suite::Integration)
        } else if same_text(name, "benchmark") {
            Selection::One(Suite::Benchmark)
        } else if same_text(name, "fuzz") || same_text(name, "fuzzing") || same_text(
            name,
            "threat",
        ) {
            let mut line = "[WARN] The '".to_owned();
            line.append(name);
            line.append("' test suite requires strict network air-gapping and is restricted.");
            Selection::Restricted(line)
        } else {
            let mut error = "Unknown test category: ".to_owned();
            error.append(name);
            Selection::Unknown(error)
        },
    }
}

/// What a run consists of.
pub struct RunPlan {
    /// The suites to run.
    pub suites: Vec<Suite>,
    /// The test to run of each; none for all of them.
    pub target: Option<String>,
    /// What to tell an operator first, if anything.
    pub notice: Option<String>,
}

/// The model of a plan.
pub struct PlanView {
    /// The suites to run.
    pub suites: Seq<Suite>,
    /// The test to run of each.
    pub target: Option<Seq<char>>,
    /// What to tell an operator first.
    pub notice: Option<Seq<char>>,
}

impl View for RunPlan {
    type V = PlanView;

    open spec fn view(&self) -> PlanView {
        PlanView {
            suites: self.suites@,
            target: target_view(self.target),
            notice: target_view(self.notice),
        }
    }
}

/// What a category and a target ask for, in the model. All public suites are run without a target;
/// a suite of its own is run with it; of a private one nothing is run.
pub open spec fn plan_of(category: Option<Seq<char>>, target: Option<Seq<char>>) -> Result<
    PlanView,
    Seq<char>,
> {
    match selection_of(category) {
        SelectionView::All => Ok(
            PlanView {
                suites: PUBLIC_SUITES@,
                target: None,
                notice: Some("\n[INFO] Initiating public Bouclier Bleu test suites..."@),
            },
        ),
        SelectionView::One(suite) => Ok(PlanView { suites: seq![suite], target, notice: None }),
        SelectionView::Restricted(line) => Ok(
            PlanView { suites: Seq::empty(), target: None, notice: Some(line) },
        ),
        SelectionView::Unknown(error) => Err(error),
    }
}

/// What a category and a target ask for; a category that there is not is an error.
pub fn plan_run(category: Option<&str>, target: Option<&str>) -> (r: Result<RunPlan, String>)
    ensures
        ({
            let expected = plan_of(
                match category {
                    Some(name) => Some(name@),
                    None => None,
                },
                match target {
                    Some(name) => Some(name@),
                    None => None,
                },
            );
            &&& r is Ok <==> expected is Ok
            &&& r matches Ok(plan) ==> expected == Ok::<PlanView, Seq<char>>(plan@)
            &&& r matches Err(error) ==> expected == Err::<PlanView, Seq<char>>(error@)
        }),
{
    match select_suites(category) {
        Selection::All => {
            let mut suites: Vec<Suite> = Vec::new();
            suites.push(PUBLIC_SUITES[0]);
            suites.push(PUBLIC_SUITES[1]);
            suites.push(PUBLIC_SUITES[2]);
            suites.push(PUBLIC_SUITES[3]);
            assert(suites@ =~= PUBLIC_SUITES@);
            let notice = "\n[INFO] Initiating public Bouclier Bleu test suites...".to_owned();
            Ok(RunPlan { suites, target: None, notice: Some(notice) })
        },
        Selection::One(suite) => {
            let mut suites: Vec<Suite> = Vec::new();
            suites.push(suite);
            assert(suites@ =~= seq![suite]);
            let target = match target {
                Some(name) => Some(name.to_owned()),
                None => None,
            };
            Ok(RunPlan { suites, target, notice: None })
        },
        Selection::Restricted(line) => {
            let suites: Vec<Suite> = Vec::new();
            assert(suites@ =~= Seq::empty());
            Ok(RunPlan { suites, target: None, notice: Some(line) })
        },
        Selection::Unknown(error) => Err(error),
    }
}

/// A private suite is never run, whatever the target: the run that is planned for it is empty.
pub proof fn law_private_suites_are_not_run(category: Seq<char>, target: Option<Seq<char>>)
    requires
        is_restricted(category),
    ensures
        plan_of(Some(category), target) matches Ok(plan) && plan.suites.len() == 0,
{
    reveal_strlit("fuzz");
    reveal_strlit("fuzzing");
    reveal_strlit("threat");
    reveal_strlit("all");
    reveal_strlit("unit");
    reveal_strlit("component");
    reveal_strlit("integration");
    reveal_strlit("benchmark");
    assert(category[0] == 'f' || category[0] == 't');
}

impl Suite {
    /// The title of the suite, in the model.
    pub open spec fn heading(self) -> Seq<char> {
        match self {
            Suite::Unit => "Inline Unit"@,
            Suite::Component => "Component (eBPF Defenses)"@,
            Suite::Integration => "Integration"@,
            Suite::Benchmark => "Benchmark"@,
        }
    }

    /// The category of the suite, which is also its directory, in the model.
    pub open spec fn category(self) -> Seq<char> {
        match self {
            Suite::Unit => "unit"@,
            Suite::Component => "component"@,
            Suite::Integration => "integration"@,
            Suite::Benchmark => "benchmark"@,
        }
    }

    /// The extension of the suite's files, in the model.
    pub open spec fn file_type(self) -> Seq<char> {
        match self {
            Suite::Component => "sh"@,
            _ => "rs"@,
        }
    }

    /// The title of the suite.
    pub fn title(self) -> (r: &'static str)
        ensures
            r@ == self.heading(),
    {
        match self {
            Suite::Unit => "Inline Unit",
            Suite::Component => "Component (eBPF Defenses)",
            Suite::Integration => "Integration",
            Suite::Benchmark => "Benchmark",
        }
    }

    /// The category of the suite, which is also its directory.
    pub fn dir_name(self) -> (r: &'static str)
        ensures
            r@ == self.category(),
    {
        match self {
            Suite::Unit => "unit",
            Suite::Component => "component",
            Suite::Integration => "integration",
            Suite::Benchmark => "benchmark",
        }
    }

    /// The extension of the suite's files.
    pub fn extension(self) -> (r: &'static str)
        ensures
            r@ == self.file_type(),
    {
        match self {
            Suite::Component => "sh",
            _ => "rs",
        }
    }

    /// The guest command for one test file, in the model.
    pub open spec fn command_text(self, stem: Seq<char>, full_name: Seq<char>) -> Seq<char> {
        match self {
            Suite::Component => "bash tests/component/"@ + full_name,
            Suite::Benchmark => "cargo test -q --release --test "@ + stem + " -- --nocapture"@,
            _ => "cargo test -q --release --test "@ + stem,
        }
    }

    /// The guest command for one test file.
    pub fn command(self, stem: &str, full_name: &str) -> (r: String)
        ensures
            r@ == self.command_text(stem@, full_name@),
    {
        match self {
            Suite::Component => {
                let mut out = "bash tests/component/".to_owned();
                out.append(full_name);
                out
            },
            Suite::Benchmark => {
                let mut out = "cargo test -q --release --test ".to_owned();
                out.append(stem);
                out.append(" -- --nocapture");
                out
            },
            _ => {
                let mut out = "cargo test -q --release --test ".to_owned();
                out.append(stem);
                out
            },
        }
    }

    /// What announces that the guest is restored for a test, in the model.
    pub open spec fn restore_text(self, name: Seq<char>) -> Seq<char> {
        match self {
            Suite::Unit => "\n[INFO] Executing Inline Unit Tests...\n[INFO] Reverting environment to clean state for Unit Tests..."@,
            _ => "\n[INFO] Reverting environment to clean state for "@ + name + "..."@,
        }
    }

    /// What announces that the guest is restored for a test.
    pub fn restore_notice(self, name: &str) -> (r: String)
        ensures
            r@ == self.restore_text(name@),
    {
        match self {
            Suite::Unit => "\n[INFO] Executing Inline Unit Tests...\n[INFO] Reverting environment to clean state for Unit Tests...".to_owned(),
            _ => {
                let mut out = "\n[INFO] Reverting environment to clean state for ".to_owned();
                out.append(name);
                out.append("...");
                out
            },
        }
    }

    /// What reports a failed test, in the model.
    pub open spec fn failure_text(self, name: Seq<char>) -> Seq<char> {
        match self {
            Suite::Unit => "\n[ERROR] Unit test suite failed."@,
            _ => "\n[ERROR] "@ + self.category() + " test failed: "@ + name,
        }
    }

    /// What reports a failed test.
    pub fn failure_notice(self, name: &str) -> (r: String)
        ensures
            r@ == self.failure_text(name@),
    {
        match self {
            Suite::Unit => "\n[ERROR] Unit test suite failed.".to_owned(),
            _ => {
                let mut out = "\n[ERROR] ".to_owned();
                out.append(self.dir_name());
                out.append(" test failed: ");
                out.append(name);
                out
            },
        }
    }

    /// The failure to list the suite's directory, in the model.
    pub open spec fn listing_failure_text(self, error: Seq<char>) -> Seq<char> {
        "IO Error reading "@ + self.category() + " dir: "@ + error
    }

    /// The failure to list the suite's directory.
    fn listing_failure(self, error: &str) -> (r: String)
        ensures
            r@ == self.listing_failure_text(error@),
    {
        let mut out = "IO Error reading ".to_owned();
        out.append(self.dir_name());
        out.append(" dir: ");
        out.append(error);
        out
    }
}

/// One test: how it is shown, and the guest command that runs it.
pub struct TestCase {
    /// How it is shown.
    pub name: String,
    /// The guest command.
    pub command: String,
}

/// The model of a test.
pub struct CaseView {
    /// How it is shown.
    pub name: Seq<char>,
    /// The guest command.
    pub command: Seq<char>,
}

impl View for TestCase {
    type V = CaseView;

    open spec fn view(&self) -> CaseView {
        CaseView { name: self.name@, command: self.command@ }
    }
}

/// The filter that a target sets on the unit tests: the empty one without a target.
pub open spec fn unit_filter(target: Option<Seq<char>>) -> Seq<char> {
    match target {
        Some(name) => name,
        None => ""@,
    }
}

/// The unit tests as one test, in the model.
pub open spec fn unit_case_of(target: Option<Seq<char>>) -> CaseView {
    let filter = unit_filter(target);
    CaseView {
        name: if filter.len() == 0 {
            "Workspace Unit Tests"@
        } else {
            "Unit Filter: "@ + filter
        },
        command: "cargo test -q --release --workspace --lib "@ + filter,
    }
}

/// The unit tests, which are run by one command for the whole workspace.
pub fn unit_case(target: Option<&str>) -> (r: TestCase)
    ensures
        r@ == unit_case_of(
            match target {
                Some(name) => Some(name@),
                None => None,
            },
        ),
{
    let filter = match target {
        Some(name) => name,
        None => "",
    };
    let mut command = "cargo test -q --release --workspace --lib ".to_owned();
    command.append(filter);
    let chars = chars_of(filter);
    let name = if chars.len() == 0 {
        "Workspace Unit Tests".to_owned()
    } else {
        let mut out = "Unit Filter: ".to_owned();
        out.append(filter);
        out
    };
    TestCase { name, command }
}

/// An entry of a suite's directory.
pub struct SuiteFile {
    /// Whether it is a file.
    pub is_file: bool,
    /// Its name.
    pub name: String,
}

/// The index of the last dot; -1 where there is none.
pub open spec fn last_dot(name: Seq<char>) -> int
    decreases name.len(),
{
    if name.len() == 0 {
        -1
    } else if name.last() == '.' {
        name.len() - 1
    } else {
        last_dot(name.drop_last())
    }
}

/// A file name without its extension. A dot at the very start does not begin an extension.
pub open spec fn stem_of(name: Seq<char>) -> Seq<char> {
    if last_dot(name) > 0 {
        name.take(last_dot(name))
    } else {
        name
    }
}

/// The extension of a file name: empty where there is none.
pub open spec fn extension_of(name: Seq<char>) -> Seq<char> {
    if last_dot(name) > 0 {
        name.skip(last_dot(name) + 1)
    } else {
        Seq::empty()
    }
}

proof fn lemma_last_dot_bound(name: Seq<char>)
    ensures
        -1 <= last_dot(name) < name.len(),
    decreases name.len(),
{
    if name.len() > 0 {
        lemma_last_dot_bound(name.drop_last());
    }
}

/// Splits a file name into its stem and its extension.
pub fn split_extension(name: &str) -> (r: (String, String))
    ensures
        r.0@ == stem_of(name@),
        r.1@ == extension_of(name@),
{
    let chars = chars_of(name);
    let n: usize = chars.len();
    let mut end: usize = n;
    assert(chars@.take(n as int) =~= name@);
    while end > 0 && chars[end - 1] != '.'
        invariant
            end <= n == chars@.len(),
            chars@ == name@,
            last_dot(name@.take(end as int)) == last_dot(name@),
        decreases end,
    {
        assert(name@.take(end as int).drop_last() =~= name@.take(end - 1));
        end = end - 1;
    }
    assert(last_dot(name@) == end - 1);
    if end > 1 {
        let stem = string_of(chars.as_slice(), 0, end - 1);
        let extension = string_of(chars.as_slice(), end, n);
        assert(stem@ =~= name@.take(end - 1));
        assert(extension@ =~= name@.skip(end as int));
        (stem, extension)
    } else {
        (name.to_owned(), String::new())
    }
}

/// Whether a target picks a file: by its name or by its stem.
pub open spec fn is_targeted(target: Option<Seq<char>>, name: Seq<char>) -> bool {
    match target {
        Some(wanted) => wanted == stem_of(name) || wanted == name,
        None => true,
    }
}

/// Whether a directory entry is a test of a suite that the target picks.
pub open spec fn is_chosen(suite: Suite, target: Option<Seq<char>>, file: SuiteFile) -> bool {
    &&& file.is_file
    &&& extension_of(file.name@) == suite.file_type()
    &&& is_targeted(target, file.name@)
}

/// The test that a file makes, in the model. Scripts are shown with their extension.
pub open spec fn case_of(suite: Suite, name: Seq<char>) -> CaseView {
    CaseView {
        name: if suite.file_type() == "sh"@ {
            name
        } else {
            stem_of(name)
        },
        command: suite.command_text(stem_of(name), name),
    }
}

/// The tests of a suite that the target picks, in the order of the directory.
pub open spec fn cases_of(suite: Suite, target: Option<Seq<char>>, files: Seq<SuiteFile>) -> Seq<
    CaseView,
>
    decreases files.len(),
{
    if files.len() == 0 {
        Seq::empty()
    } else {
        let before = cases_of(suite, target, files.drop_last());
        if is_chosen(suite, target, files.last()) {
            before.push(case_of(suite, files.last().name@))
        } else {
            before
        }
    }
}

/// The tests of a suite that the target picks; without a target, all of them.
pub fn plan_suite(suite: Suite, target: Option<&str>, files: &[SuiteFile]) -> (r: Vec<TestCase>)
    ensures
        r@.map_values(|case: TestCase| case@) == cases_of(
            suite,
            match target {
                Some(name) => Some(name@),
                None => None,
            },
            files@,
        ),
{
    let ghost wanted = match target {
        Some(name) => Some(name@),
        None => None,
    };
    let mut cases: Vec<TestCase> = Vec::new();
    let mut i: usize = 0;
    assert(files@.take(0) =~= Seq::empty());
    assert(cases@.map_values(|case: TestCase| case@) =~= Seq::empty());
    while i < files.len()
        invariant
            i <= files@.len(),
            wanted == (match target {
                Some(name) => Some(name@),
                None => None,
            }),
            cases@.map_values(|case: TestCase| case@) == cases_of(
                suite,
                wanted,
                files@.take(i as int),
            ),
        decreases files@.len() - i,
    {
        let file = &files[i];
        assert(files@.take(i + 1).drop_last() =~= files@.take(i as int));
        let full_name = file.name.as_str();
        let (stem, extension) = split_extension(full_name);
        let targeted = match target {
            Some(name) => same_text(name, stem.as_str()) || same_text(name, full_name),
            None => true,
        };
        if file.is_file && same_text(extension.as_str(), suite.extension()) && targeted {
            let command = suite.command(stem.as_str(), full_name);
            let name = if same_text(suite.extension(), "sh") {
                full_name.to_owned()
            } else {
                stem
            };
            let ghost before = cases@;
            let case = TestCase { name, command };
            assert(case@ == case_of(suite, full_name@));
            cases.push(case);
            assert(cases@.map_values(|case: TestCase| case@) =~= before.map_values(
                |case: TestCase| case@,
            ).push(case_of(suite, full_name@)));
        }
        i = i + 1;
    }
    assert(files@.take(i as int) =~= files@);
    cases
}

/// A test can be targeted by the name of its file and by its stem alike.
pub proof fn law_target_by_name_or_stem(suite: Suite, file: SuiteFile)
    requires
        is_chosen(suite, None, file),
    ensures
        is_chosen(suite, Some(file.name@), file),
        is_chosen(suite, Some(stem_of(file.name@)), file),
{
}

/// A target never adds tests, and no target leaves none out.
pub proof fn law_target_only_narrows(suite: Suite, target: Option<Seq<char>>, files: Seq<SuiteFile>)
    ensures
        cases_of(suite, target, files).len() <= cases_of(suite, None, files).len() <= files.len(),
        forall|i: int|
            0 <= i < cases_of(suite, target, files).len() ==> cases_of(suite, None, files).contains(
                #[trigger] cases_of(suite, target, files)[i],
            ),
    decreases files.len(),
{
    if files.len() > 0 {
        law_target_only_narrows(suite, target, files.drop_last());
        let narrow = cases_of(suite, target, files);
        let wide = cases_of(suite, None, files);
        let narrow_before = cases_of(suite, target, files.drop_last());
        let wide_before = cases_of(suite, None, files.drop_last());
        assert forall|i: int| 0 <= i < narrow.len() implies wide.contains(#[trigger] narrow[i]) by {
            if i < narrow_before.len() {
                assert(narrow_before[i] == narrow[i]);
                let j = wide_before.index_of(narrow[i]);
                assert(wide[j] == narrow[i]);
            } else {
                assert(wide[wide.len() - 1] == narrow[i]);
            }
        }
    }
}

/// The models of a list of tests.
pub open spec fn case_views(cases: Seq<TestCase>) -> Seq<CaseView> {
    cases.map_values(|case: TestCase| case@)
}

/// The longest time that restoring the guest can take in all, in nanoseconds: that of the longest
/// duration there is.
pub const MAX_RESTORE_NANOS: u128 = 18446744073709551615999999999;

/// What happened on a test run since its last action.
pub enum RunEvent {
    /// It began.
    Begin,
    /// The entries of the suite's directory; none where there is no such directory.
    Files(Option<Vec<SuiteFile>>),
    /// The suite's directory could not be listed; holds the error.
    ListFailed(String),
    /// The guest is back in its clean state.
    Restored {
        /// How long that took, in nanoseconds.
        nanos: u128,
    },
    /// The guest could not be brought back to its clean state; holds the error.
    RestoreFailed(String),
    /// A test was run.
    Executed {
        /// Whether it passed.
        passed: bool,
        /// How long it took, in seconds with two decimals.
        duration: String,
    },
    /// What a benchmark wrote was fetched, as far as there was anything.
    Fetched,
}

/// What to do next on a test run.
pub enum RunAction {
    /// List the directory of a suite.
    List(Suite),
    /// Return the guest to its clean state, for the test that is shown under this name.
    Restore(String),
    /// Run this command in the guest.
    Execute(String),
    /// Fetch what the benchmark wrote in the guest.
    FetchMetrics,
    /// Report.
    Finish,
    /// Fail with this error.
    Fail(String),
}

/// The model of an action.
pub enum RunActionView {
    /// List the directory of a suite.
    List(Suite),
    /// Return the guest to its clean state.
    Restore(Seq<char>),
    /// Run this command in the guest.
    Execute(Seq<char>),
    /// Fetch what the benchmark wrote in the guest.
    FetchMetrics,
    /// Report.
    Finish,
    /// Fail with this error.
    Fail(Seq<char>),
}

impl View for RunAction {
    type V = RunActionView;

    open spec fn view(&self) -> RunActionView {
        match self {
            RunAction::List(suite) => RunActionView::List(*suite),
            RunAction::Restore(name) => RunActionView::Restore(name@),
            RunAction::Execute(command) => RunActionView::Execute(command@),
            RunAction::FetchMetrics => RunActionView::FetchMetrics,
            RunAction::Finish => RunActionView::Finish,
            RunAction::Fail(error) => RunActionView::Fail(error@),
        }
    }
}

/// What a test run is busy with.
#[derive(Clone, Copy, PartialEq, Eq, Structural)]
pub enum Phase {
    /// It has not begun.
    Ready,
    /// The directory of a suite is being listed.
    Listing,
    /// The guest is being restored.
    Restoring,
    /// A test is being run.
    Executing,
    /// What a benchmark wrote is being fetched.
    Fetching,
    /// It is over.
    Over,
}

/// What a run is busy with once an action was given.
pub open spec fn phase_after(action: RunActionView) -> Phase {
    match action {
        RunActionView::List(_) => Phase::Listing,
        RunActionView::Restore(_) => Phase::Restoring,
        RunActionView::Execute(_) => Phase::Executing,
        RunActionView::FetchMetrics => Phase::Fetching,
        RunActionView::Finish | RunActionView::Fail(_) => Phase::Over,
    }
}

/// Whether an event is what an action leads to.
pub open spec fn answers(event: RunEvent, action: RunActionView) -> bool {
    match action {
        RunActionView::List(_) => event is Files || event is ListFailed,
        RunActionView::Restore(_) => event is Restored || event is RestoreFailed,
        RunActionView::Execute(_) => event is Executed,
        RunActionView::FetchMetrics => event is Fetched,
        RunActionView::Finish | RunActionView::Fail(_) => false,
    }
}

/// A test run.
pub struct TestRun {
    suites: Vec<Suite>,
    entered: usize,
    target: Option<String>,
    cases: Vec<TestCase>,
    done: usize,
    results: Vec<TestRecord>,
    restore_nanos: u128,
    phase: Phase,
}

/// The model of a test run.
#[verifier::ext_equal]
pub struct RunView {
    /// The suites to run.
    pub suites: Seq<Suite>,
    /// How many of them were entered.
    pub entered: nat,
    /// The test to run of each suite; none for all of them.
    pub target: Option<Seq<char>>,
    /// The tests of the suite that was entered last.
    pub cases: Seq<CaseView>,
    /// How many of them were run.
    pub done: nat,
    /// What came of all the tests that were run.
    pub results: Seq<RecordView>,
    /// How long restoring the guest took in all.
    pub restore_nanos: nat,
    /// What the run is busy with.
    pub phase: Phase,
}

impl RunView {
    /// A run that has not begun.
    pub open spec fn fresh(suites: Seq<Suite>, target: Option<Seq<char>>) -> RunView {
        RunView {
            suites,
            entered: 0,
            target,
            cases: Seq::empty(),
            done: 0,
            results: Seq::empty(),
            restore_nanos: 0,
            phase: Phase::Ready,
        }
    }

    /// No more suites are entered than there are, nor more tests run than there are; the guest is
    /// only restored, and a test only run, while one is left.
    pub open spec fn wf(self) -> bool {
        &&& self.entered <= self.suites.len()
        &&& self.done <= self.cases.len()
        &&& self.cases.len() > 0 ==> self.entered > 0
        &&& self.phase == Phase::Listing ==> self.done == self.cases.len() && self.entered
            < self.suites.len()
        &&& self.phase == Phase::Restoring || self.phase == Phase::Executing ==> self.done
            < self.cases.len()
    }

    /// Whether an event can occur: what the run is busy with, and time that still counts.
    pub open spec fn expects(self, event: RunEvent) -> bool {
        match event {
            RunEvent::Begin => self.phase == Phase::Ready,
            RunEvent::Files(_) | RunEvent::ListFailed(_) => self.phase == Phase::Listing,
            RunEvent::Restored { nanos } => self.phase == Phase::Restoring && self.restore_nanos
                + nanos <= MAX_RESTORE_NANOS,
            RunEvent::RestoreFailed(_) => self.phase == Phase::Restoring,
            RunEvent::Executed { .. } => self.phase == Phase::Executing,
            RunEvent::Fetched => self.phase == Phase::Fetching,
        }
    }

    /// The run with the next suite entered.
    pub open spec fn enter(self, cases: Seq<CaseView>) -> RunView {
        RunView { entered: self.entered + 1, cases, done: 0, ..self }
    }

    /// Whether the unit tests, which need no listing, are to be entered next.
    pub open spec fn unit_is_next(self) -> bool {
        &&& self.done == self.cases.len()
        &&& self.entered < self.suites.len()
        &&& self.suites[self.entered as int] == Suite::Unit
    }

    /// The run with the unit tests entered where they are next.
    pub open spec fn settle(self) -> RunView {
        if self.unit_is_next() {
            self.enter(seq![unit_case_of(self.target)])
        } else {
            self
        }
    }

    /// The suite that was entered last.
    pub open spec fn suite(self) -> Suite {
        self.suites[self.entered - 1]
    }

    /// Whether the test at hand leaves metrics behind: a benchmark does that passed.
    pub open spec fn leaves_metrics(self, passed: bool) -> bool {
        passed && self.suite() == Suite::Benchmark
    }

    /// The run with the outcome of the test at hand recorded.
    pub open spec fn record(self, passed: bool, duration: Seq<char>) -> RunView {
        RunView {
            done: self.done + 1,
            results: self.results.push(
                RecordView {
                    name: self.cases[self.done as int].name,
                    category: self.suite().category(),
                    duration,
                    passed,
                },
            ),
            ..self
        }
    }

    /// What an event changes, but for what the run is busy with.
    pub open spec fn progress(self, event: RunEvent) -> RunView {
        match event {
            RunEvent::Begin | RunEvent::Fetched => self.settle(),
            RunEvent::Files(Some(files)) => self.enter(
                cases_of(self.suites[self.entered as int], self.target, files@),
            ).settle(),
            RunEvent::Files(None) => self.enter(Seq::empty()).settle(),
            RunEvent::ListFailed(_) | RunEvent::RestoreFailed(_) => self,
            RunEvent::Restored { nanos } => RunView {
                restore_nanos: self.restore_nanos + nanos as nat,
                ..self
            },
            RunEvent::Executed { passed, duration } => if self.leaves_metrics(passed) {
                self.record(passed, duration@)
            } else {
                self.record(passed, duration@).settle()
            },
        }
    }

    /// The action that starts on the next test or the next suite, or ends the run.
    pub open spec fn proceed(self) -> RunActionView {
        if self.done < self.cases.len() {
            RunActionView::Restore(self.cases[self.done as int].name)
        } else if self.entered < self.suites.len() {
            RunActionView::List(self.suites[self.entered as int])
        } else {
            RunActionView::Finish
        }
    }

    /// The action that answers an event.
    pub open spec fn action(self, event: RunEvent) -> RunActionView {
        match event {
            RunEvent::Restored { .. } => RunActionView::Execute(
                self.cases[self.done as int].command,
            ),
            RunEvent::RestoreFailed(error) => RunActionView::Fail(error@),
            RunEvent::ListFailed(error) => RunActionView::Fail(
                self.suites[self.entered as int].listing_failure_text(error@),
            ),
            RunEvent::Executed { passed, .. } if self.leaves_metrics(passed) => {
                RunActionView::FetchMetrics
            },
            _ => self.progress(event).proceed(),
        }
    }

    /// The state after an event.
    pub open spec fn next(self, event: RunEvent) -> RunView {
        RunView { phase: phase_after(self.action(event)), ..self.progress(event) }
    }
}

/// An optional text, in the model.
pub open spec fn target_view(target: Option<String>) -> Option<Seq<char>> {
    match target {
        Some(name) => Some(name@),
        None => None,
    }
}

impl View for TestRun {
    type V = RunView;

    closed spec fn view(&self) -> RunView {
        RunView {
            suites: self.suites@,
            entered: self.entered as nat,
            target: target_view(self.target),
            cases: case_views(self.cases@),
            done: self.done as nat,
            results: record_views(self.results@),
            restore_nanos: self.restore_nanos as nat,
            phase: self.phase,
        }
    }
}

impl TestRun {
    /// A run of the given suites.
    pub fn new(suites: Vec<Suite>, target: Option<String>) -> (r: Self)
        ensures
            r@.wf(),
            r@ == RunView::fresh(suites@, target_view(target)),
    {
        let run = TestRun {
            suites,
            entered: 0,
            target,
            cases: Vec::new(),
            done: 0,
            results: Vec::new(),
            restore_nanos: 0,
            phase: Phase::Ready,
        };
        assert(run@.cases =~= Seq::empty());
        assert(run@.results =~= Seq::empty());
        run
    }

    /// What came of the tests that were run.
    pub fn results(&self) -> (r: &Vec<TestRecord>)
        ensures
            record_views(r@) == self@.results,
    {
        &self.results
    }

    /// How long restoring the guest took in all, in nanoseconds.
    pub fn restore_nanos(&self) -> (r: u128)
        ensures
            r == self@.restore_nanos,
    {
        self.restore_nanos
    }

    /// The suite that was entered last.
    pub fn current_suite(&self) -> (r: Option<Suite>)
        requires
            self@.wf(),
        ensures
            r == if self@.entered > 0 {
                Some(self@.suite())
            } else {
                None
            },
    {
        if self.entered > 0 {
            Some(self.suites[self.entered - 1])
        } else {
            None
        }
    }

    /// The target as a string slice.
    fn target_text(&self) -> (r: Option<&str>)
        ensures
            self@.target == match r {
                Some(name) => Some(name@),
                None => None,
            },
    {
        match &self.target {
            Some(name) => Some(name.as_str()),
            None => None,
        }
    }

    /// Enters the unit tests where they are next.
    fn settle(&mut self)
        requires
            old(self)@.entered <= old(self)@.suites.len(),
            old(self)@.done <= old(self)@.cases.len(),
            old(self)@.cases.len() > 0 ==> old(self)@.entered > 0,
        ensures
            final(self)@.entered <= final(self)@.suites.len(),
            final(self)@.done <= final(self)@.cases.len(),
            final(self)@.cases.len() > 0 ==> final(self)@.entered > 0,
            final(self)@ == old(self)@.settle(),
    {
        if self.done == self.cases.len() && self.entered < self.suites.len()
            && self.suites[self.entered] == Suite::Unit {
            let case = unit_case(self.target_text());
            let ghost expected = old(self)@.enter(seq![unit_case_of(old(self)@.target)]);
            let mut cases: Vec<TestCase> = Vec::new();
            cases.push(case);
            self.cases = cases;
            self.done = 0;
            self.entered = self.entered + 1;
            assert(self@.cases =~= expected.cases);
            assert(self@ =~= expected);
        }
    }

    /// Starts on the next test or the next suite, or ends the run.
    fn proceed(&mut self) -> (r: RunAction)
        requires
            old(self)@.entered <= old(self)@.suites.len(),
            old(self)@.done <= old(self)@.cases.len(),
            old(self)@.cases.len() > 0 ==> old(self)@.entered > 0,
        ensures
            final(self)@.wf(),
            r@ == old(self)@.proceed(),
            final(self)@ == (RunView { phase: phase_after(r@), ..old(self)@ }),
    {
        if self.done < self.cases.len() {
            self.phase = Phase::Restoring;
            RunAction::Restore(self.cases[self.done].name.as_str().to_owned())
        } else if self.entered < self.suites.len() {
            self.phase = Phase::Listing;
            RunAction::List(self.suites[self.entered])
        } else {
            self.phase = Phase::Over;
            RunAction::Finish
        }
    }

    /// Takes in what happened and tells what to do next.
    pub fn step(&mut self, event: RunEvent) -> (r: RunAction)
        requires
            old(self)@.wf(),
            old(self)@.expects(event),
        ensures
            final(self)@.wf(),
            final(self)@ == old(self)@.next(event),
            r@ == old(self)@.action(event),
    {
        let total: usize = self.suites.len();
        let planned: usize = self.cases.len();
        match event {
            RunEvent::Begin | RunEvent::Fetched => {
                self.settle();
                self.proceed()
            },
            RunEvent::Files(Some(files)) => {
                let suite = self.suites[self.entered];
                let cases = plan_suite(suite, self.target_text(), files.as_slice());
                let ghost expected = old(self)@.enter(
                    cases_of(suite, old(self)@.target, files@),
                );
                self.cases = cases;
                self.done = 0;
                self.entered = self.entered + 1;
                assert(self@ =~= expected);
                self.settle();
                self.proceed()
            },
            RunEvent::Files(None) => {
                self.cases = Vec::new();
                self.done = 0;
                self.entered = self.entered + 1;
                assert(self@.cases =~= Seq::empty());
                assert(self@ =~= old(self)@.enter(Seq::empty()));
                self.settle();
                self.proceed()
            },
            RunEvent::ListFailed(error) => {
                self.phase = Phase::Over;
                RunAction::Fail(self.suites[self.entered].listing_failure(error.as_str()))
            },
            RunEvent::Restored { nanos } => {
                self.restore_nanos = self.restore_nanos + nanos;
                self.phase = Phase::Executing;
                RunAction::Execute(self.cases[self.done].command.as_str().to_owned())
            },
            RunEvent::RestoreFailed(error) => {
                self.phase = Phase::Over;
                RunAction::Fail(error)
            },
            RunEvent::Executed { passed, duration } => {
                let suite = self.suites[self.entered - 1];
                let record = TestRecord {
                    name: self.cases[self.done].name.as_str().to_owned(),
                    category: suite.dir_name().to_owned(),
                    duration,
                    passed,
                };
                let ghost before = self.results@;
                self.results.push(record);
                self.done = self.done + 1;
                assert(record_views(self.results@) =~= record_views(before).push(record@));
                if passed && suite == Suite::Benchmark {
                    self.phase = Phase::Fetching;
                    return RunAction::FetchMetrics;
                }
                self.settle();
                self.proceed()
            },
        }
    }
}

/// Whether a sequence of events drives a run without ever coming unexpected.
pub open spec fn plays(run: RunView, events: Seq<RunEvent>) -> bool
    decreases events.len(),
{
    events.len() == 0 || {
        &&& plays(run, events.drop_last())
        &&& played(run, events.drop_last()).expects(events.last())
    }
}

/// The state after a sequence of events.
pub open spec fn played(run: RunView, events: Seq<RunEvent>) -> RunView
    decreases events.len(),
{
    if events.len() == 0 {
        run
    } else {
        played(run, events.drop_last()).next(events.last())
    }
}

/// The restorations and the tests among a sequence of events, in order.
pub open spec fn guest_log(events: Seq<RunEvent>) -> Seq<RunEvent> {
    events.filter(|event: RunEvent| event is Restored || event is Executed)
}

/// How long the restorations among a sequence of events took in all.
pub open spec fn restored_nanos(events: Seq<RunEvent>) -> nat
    decreases events.len(),
{
    if events.len() == 0 {
        0
    } else {
        restored_nanos(events.drop_last()) + match events.last() {
            RunEvent::Restored { nanos } => nanos as nat,
            _ => 0,
        }
    }
}

/// What an event answers: after any step, only an event can follow that the action leads to.
pub proof fn law_events_answer_actions(run: RunView, event: RunEvent, reply: RunEvent)
    requires
        run.expects(event),
    ensures
        run.next(event).expects(reply) ==> answers(reply, run.action(event)),
        answers(reply, run.action(event)) && !(reply is Restored) ==> run.next(event).expects(reply),
{
}

/// Every test starts from the clean state: a test is only run right after the guest was restored.
pub proof fn law_tests_start_clean(run: RunView, event: RunEvent)
    requires
        run.wf(),
        run.expects(event),
        run.action(event) is Execute,
    ensures
        event is Restored,
{
}

/// The guest is restored exactly once before the first test, and exactly once between any two
/// tests that follow one another.
pub proof fn law_one_restoration_for_each_test(
    suites: Seq<Suite>,
    target: Option<Seq<char>>,
    events: Seq<RunEvent>,
)
    requires
        plays(RunView::fresh(suites, target), events),
    ensures
        forall|i: int|
            0 <= i < guest_log(events).len() ==> ((#[trigger] guest_log(events)[i] is Restored)
                <==> i % 2 == 0),
        guest_log(events).len() % 2 == if played(RunView::fresh(suites, target), events).phase
            == Phase::Executing {
            1int
        } else {
            0int
        },
        played(RunView::fresh(suites, target), events).results.len() == guest_log(events).len() / 2,
    decreases events.len(),
{
    reveal(Seq::filter);
    if events.len() > 0 {
        law_one_restoration_for_each_test(suites, target, events.drop_last());
        let before = guest_log(events.drop_last());
        let log = guest_log(events);
        let last = events.last();
        if last is Restored || last is Executed {
            assert(log == before.push(last));
            assert forall|i: int| 0 <= i < log.len() implies ((#[trigger] log[i] is Restored)
                <==> i % 2 == 0) by {
                if i < before.len() {
                    assert(log[i] == before[i]);
                }
            }
        } else {
            assert(log == before);
        }
    }
}

/// The time that is reported for restoring the guest is what the restorations took in all.
pub proof fn law_restore_times_are_summed(
    suites: Seq<Suite>,
    target: Option<Seq<char>>,
    events: Seq<RunEvent>,
)
    requires
        plays(RunView::fresh(suites, target), events),
    ensures
        played(RunView::fresh(suites, target), events).restore_nanos == restored_nanos(events),
    decreases events.len(),
{
    if events.len() > 0 {
        law_restore_times_are_summed(suites, target, events.drop_last());
    }
}

/// A guest that cannot be restored ends the run: with that very error, without another test, and
/// with nothing to follow.
pub proof fn law_failed_restoration_ends_the_run(run: RunView, error: String, event: RunEvent)
    requires
        run.expects(RunEvent::RestoreFailed(error)),
    ensures
        run.action(RunEvent::RestoreFailed(error)) == RunActionView::Fail(error@),
        run.next(RunEvent::RestoreFailed(error)).results == run.results,
        !run.next(RunEvent::RestoreFailed(error)).expects(event),
{
}

/// A failed test does not keep the tests after it from being run.
pub proof fn law_failed_test_does_not_stop_the_run(
    run: RunView,
    passed: String,
    failed: String,
)
    requires
        run.wf(),
        run.phase == Phase::Executing,
    ensures
        ({
            let failure = RunEvent::Executed { passed: false, duration: failed };
            let success = RunEvent::Executed { passed: true, duration: passed };
            &&& run.suite() != Suite::Benchmark ==> run.action(failure) == run.action(success)
            &&& run.suite() == Suite::Benchmark ==> run.action(failure) == run.next(success).action(
                RunEvent::Fetched,
            )
        }),
{
    let failure = RunEvent::Executed { passed: false, duration: failed };
    let success = RunEvent::Executed { passed: true, duration: passed };
    assert(run.progress(failure).cases == run.next(success).progress(RunEvent::Fetched).cases);
}

/// Metrics are fetched after a benchmark that passed, and at no other time.
pub proof fn law_metrics_come_from_passed_benchmarks(run: RunView, event: RunEvent)
    requires
        run.wf(),
        run.expects(event),
    ensures
        run.action(event) is FetchMetrics <==> (event matches RunEvent::Executed { passed, .. }
            && passed && run.suite() == Suite::Benchmark),
{
}

/// A run only ends without an error when every suite was entered and every test of the last one was
/// run, no suite is entered before the tests of the one before it were run, and nothing that was
/// recorded is ever lost.
pub proof fn law_run_is_complete(run: RunView, event: RunEvent)
    requires
        run.wf(),
        run.expects(event),
    ensures
        run.next(event).wf(),
        run.next(event).suites == run.suites,
        run.results.is_prefix_of(run.next(event).results),
        run.action(event) is Finish ==> run.next(event).entered == run.suites.len() && run.next(
            event,
        ).done == run.next(event).cases.len(),
        run.next(event).entered > run.entered ==> run.done + (if event is Executed {
            1int
        } else {
            0int
        }) == run.cases.len(),
{
}

/// What a category asks for. Without one, or for all, every public suite is run, in their order and
/// whole; a public suite is run by its name, with the target; a private one is named and not run; any
/// other is an error that names it.
pub proof fn law_what_a_category_asks_for(category: Option<Seq<char>>, target: Option<Seq<char>>)
    ensures
        category is None || category == Some("all"@) ==> (plan_of(category, target) matches Ok(plan)
            && plan.target is None && plan.suites == seq![
            Suite::Unit,
            Suite::Component,
            Suite::Integration,
            Suite::Benchmark,
        ]),
        category == Some("unit"@) ==> (plan_of(category, target) matches Ok(plan) && plan.target
            == target && plan.suites == seq![Suite::Unit] && plan.notice is None),
        category == Some("component"@) ==> (plan_of(category, target) matches Ok(plan) && plan.target
            == target && plan.suites == seq![Suite::Component] && plan.notice is None),
        category == Some("integration"@) ==> (plan_of(category, target) matches Ok(plan)
            && plan.target == target && plan.suites == seq![Suite::Integration] && plan.notice
            is None),
        category == Some("benchmark"@) ==> (plan_of(category, target) matches Ok(plan) && plan.target
            == target && plan.suites == seq![Suite::Benchmark] && plan.notice is None),
        category matches Some(name) ==> {
            &&& name == "fuzz"@ || name == "fuzzing"@ || name == "threat"@ ==> (plan_of(
                category,
                target,
            ) matches Ok(plan) && plan.suites.len() == 0 && plan.notice is Some && contains(
                plan.notice->0,
                name,
            ))
            &&& plan_of(category, target) is Err <==> name != "all"@ && name != "unit"@ && name
                != "component"@ && name != "integration"@ && name != "benchmark"@ && name != "fuzz"@
                && name != "fuzzing"@ && name != "threat"@
            &&& plan_of(category, target) matches Err(error) ==> contains(error, name)
        },
{
    reveal_strlit("fuzz");
    reveal_strlit("fuzzing");
    reveal_strlit("threat");
    reveal_strlit("all");
    reveal_strlit("unit");
    reveal_strlit("component");
    reveal_strlit("integration");
    reveal_strlit("benchmark");
    assert("all"@[0] == 'a' && "unit"@[0] == 'u' && "component"@[0] == 'c');
    assert("integration"@[0] == 'i' && "benchmark"@[0] == 'b');
    assert("fuzz"@[0] == 'f' && "fuzzing"@[0] == 'f' && "threat"@[0] == 't');
    assert(PUBLIC_SUITES@ =~= seq![
        Suite::Unit,
        Suite::Component,
        Suite::Integration,
        Suite::Benchmark,
    ]);
    if let Some(name) = category {
        let head = "[WARN] The '"@;
        let tail = "' test suite requires strict network air-gapping and is restricted."@;
        law_contains_means_a_part(head + name + tail, name);
        let unknown = "Unknown test category: "@;
        assert(unknown + name =~= unknown + name + Seq::<char>::empty());
        law_contains_means_a_part(unknown + name, name);
    }
}

proof fn lemma_last_dot(stem: Seq<char>, extension: Seq<char>)
    requires
        !extension.contains('.'),
    ensures
        last_dot(stem + seq!['.'] + extension) == stem.len(),
    decreases extension.len(),
{
    let name = stem + seq!['.'] + extension;
    if extension.len() > 0 {
        let shorter = extension.drop_last();
        assert(extension.contains(extension.last()));
        assert forall|i: int| 0 <= i < shorter.len() implies #[trigger] shorter[i] != '.' by {
            assert(shorter[i] == extension[i]);
        }
        lemma_last_dot(stem, shorter);
        assert(name.drop_last() =~= stem + seq!['.'] + shorter);
    }
}

proof fn lemma_no_dot(name: Seq<char>)
    requires
        !name.contains('.'),
    ensures
        last_dot(name) == -1,
    decreases name.len(),
{
    if name.len() > 0 {
        let shorter = name.drop_last();
        assert(name.contains(name.last()));
        assert forall|i: int| 0 <= i < shorter.len() implies #[trigger] shorter[i] != '.' by {
            assert(shorter[i] == name[i]);
        }
        lemma_no_dot(shorter);
    }
}

/// A file name is split at its last dot, unless that is its first character; a name without a dot has
/// no extension.
pub proof fn law_names_are_split_at_the_last_dot(stem: Seq<char>, extension: Seq<char>)
    requires
        stem.len() > 0,
        !extension.contains('.'),
    ensures
        stem_of(stem + seq!['.'] + extension) == stem,
        extension_of(stem + seq!['.'] + extension) == extension,
        stem_of(seq!['.'] + extension) == seq!['.'] + extension,
        extension_of(seq!['.'] + extension).len() == 0,
        stem_of(extension) == extension,
        extension_of(extension).len() == 0,
{
    lemma_last_dot(stem, extension);
    let name = stem + seq!['.'] + extension;
    assert(name.take(stem.len() as int) =~= stem);
    assert(name.skip(stem.len() as int + 1) =~= extension);
    lemma_last_dot(Seq::empty(), extension);
    assert(Seq::<char>::empty() + seq!['.'] + extension =~= seq!['.'] + extension);
    lemma_no_dot(extension);
}

/// A directory entry is a test of its suite exactly if it is a file with the suite's extension and
/// the target, where there is one, is its name or its stem. Tests keep the order of the directory.
pub proof fn law_files_become_tests(
    suite: Suite,
    target: Option<Seq<char>>,
    files: Seq<SuiteFile>,
    file: SuiteFile,
    stem: Seq<char>,
    extension: Seq<char>,
)
    requires
        stem.len() > 0,
        !extension.contains('.'),
        file.name@ == stem + seq!['.'] + extension,
    ensures
        ({
            let before = cases_of(suite, target, files);
            let after = cases_of(suite, target, files.push(file));
            let wanted = {
                &&& file.is_file
                &&& extension == if suite == Suite::Component {
                    "sh"@
                } else {
                    "rs"@
                }
                &&& target is None || target == Some(stem) || target == Some(file.name@)
            };
            &&& !wanted ==> after == before
            &&& wanted ==> after.len() == before.len() + 1 && after.drop_last() == before
            &&& wanted && suite == Suite::Component ==> after.last() == (CaseView {
                name: file.name@,
                command: "bash tests/component/"@ + file.name@,
            })
            &&& wanted && suite == Suite::Benchmark ==> after.last() == (CaseView {
                name: stem,
                command: "cargo test -q --release --test "@ + stem + " -- --nocapture"@,
            })
            &&& wanted && suite == Suite::Integration ==> after.last() == (CaseView {
                name: stem,
                command: "cargo test -q --release --test "@ + stem,
            })
        }),
{
    reveal_strlit("sh");
    reveal_strlit("rs");
    assert("sh"@[0] == 's' && "rs"@[0] == 'r');
    law_names_are_split_at_the_last_dot(stem, extension);
    let grown = files.push(file);
    assert(grown.drop_last() =~= files);
    assert(grown.last() == file);
    let before = cases_of(suite, target, files);
    let after = cases_of(suite, target, grown);
    if is_chosen(suite, target, file) {
        assert(after.drop_last() =~= before);
    }
}

/// The unit tests are one test of the whole workspace, narrowed by the target where there is one that
/// is not empty.
pub proof fn law_unit_tests_are_one_test(target: Seq<char>)
    ensures
        unit_case_of(None) == (CaseView {
            name: "Workspace Unit Tests"@,
            command: "cargo test -q --release --workspace --lib "@,
        }),
        target.len() > 0 ==> unit_case_of(Some(target)) == (CaseView {
            name: "Unit Filter: "@ + target,
            command: "cargo test -q --release --workspace --lib "@ + target,
        }),
        target.len() == 0 ==> unit_case_of(Some(target)) == unit_case_of(None),
{
    reveal_strlit("");
    assert("cargo test -q --release --workspace --lib "@ + ""@
        =~= "cargo test -q --release --workspace --lib "@);
    if target.len() == 0 {
        assert(target =~= ""@);
    }
}

/// How a run goes on from its tests. A restored guest runs the command of the test at hand. What came
/// of a test is recorded last, under its name and the category of its suite. The next test of the
/// suite follows, then the next suite, and after the last one the run is over.
pub proof fn law_tests_are_taken_in_turn(run: RunView, event: RunEvent)
    requires
        run.wf(),
        run.expects(event),
        event is Restored || event is Executed,
    ensures
        event matches RunEvent::Restored { nanos } ==> {
            &&& run.action(event) == RunActionView::Execute(run.cases[run.done as int].command)
            &&& run.next(event).restore_nanos == run.restore_nanos + nanos
            &&& run.next(event).results == run.results
            &&& run.next(event).done == run.done
        },
        event matches RunEvent::Executed { passed, duration } ==> {
            let fetches = passed && run.suites[run.entered - 1] == Suite::Benchmark;
            &&& run.next(event).results.len() == run.results.len() + 1
            &&& run.next(event).results.drop_last() == run.results
            &&& run.next(event).results.last().name == run.cases[run.done as int].name
            &&& run.next(event).results.last().category == match run.suites[run.entered - 1] {
                Suite::Unit => "unit"@,
                Suite::Component => "component"@,
                Suite::Integration => "integration"@,
                Suite::Benchmark => "benchmark"@,
            }
            &&& run.next(event).results.last().duration == duration@
            &&& run.next(event).results.last().passed == passed
            &&& fetches ==> run.action(event) is FetchMetrics
            &&& !fetches && run.done + 1 < run.cases.len() ==> run.action(event)
                == RunActionView::Restore(run.cases[run.done as int + 1].name)
            &&& !fetches && run.done + 1 == run.cases.len() && run.entered == run.suites.len()
                ==> run.action(event) is Finish
            &&& !fetches && run.done + 1 == run.cases.len() && run.entered < run.suites.len()
                && run.suites[run.entered as int] != Suite::Unit ==> run.action(event)
                == RunActionView::List(run.suites[run.entered as int])
            &&& !fetches && run.done + 1 == run.cases.len() && run.entered < run.suites.len()
                && run.suites[run.entered as int] == Suite::Unit ==> run.action(event)
                == RunActionView::Restore(unit_case_of(run.target).name) && run.next(event).cases
                == seq![unit_case_of(run.target)]
        },
{
    if let RunEvent::Executed { passed, duration } = event {
        assert(run.next(event).results.drop_last() =~= run.results);
    }
}

/// How a run goes on from its suites. The first suite follows the start, the tests that its directory
/// holds follow the listing, and a suite without a test, or without a directory, is followed by the
/// next one. A directory that cannot be listed ends the run.
pub proof fn law_suites_are_taken_in_turn(run: RunView, event: RunEvent)
    requires
        run.wf(),
        run.expects(event),
        event is Begin || event is Files || event is ListFailed,
        event is Begin ==> run.entered == 0 && run.cases.len() == 0,
    ensures
        event is Begin ==> {
            &&& run.suites.len() == 0 ==> run.action(event) is Finish
            &&& run.suites.len() > 0 && run.suites[0] == Suite::Unit ==> run.action(event)
                == RunActionView::Restore(unit_case_of(run.target).name) && run.next(event).entered
                == 1
            &&& run.suites.len() > 0 && run.suites[0] != Suite::Unit ==> run.action(event)
                == RunActionView::List(run.suites[0]) && run.next(event).entered == 0
        },
        event is Files ==> {
            let tests = match event {
                RunEvent::Files(Some(files)) => cases_of(
                    run.suites[run.entered as int],
                    run.target,
                    files@,
                ),
                _ => Seq::empty(),
            };
            let left = run.entered + 1;
            &&& tests.len() > 0 ==> run.next(event).cases == tests && run.next(event).entered == left
                && run.action(event) == RunActionView::Restore(tests[0].name)
            &&& tests.len() == 0 && left == run.suites.len() ==> run.action(event) is Finish
            &&& tests.len() == 0 && left < run.suites.len() && run.suites[left as int] != Suite::Unit
                ==> run.action(event) == RunActionView::List(run.suites[left as int])
            &&& tests.len() == 0 && left < run.suites.len() && run.suites[left as int] == Suite::Unit
                ==> run.action(event) == RunActionView::Restore(unit_case_of(run.target).name)
            &&& run.next(event).results == run.results
        },
        event matches RunEvent::ListFailed(error) ==> (run.action(
            event,
        ) matches RunActionView::Fail(reason) && contains(reason, error@)),
{
    if let RunEvent::ListFailed(error) = event {
        let suite = run.suites[run.entered as int];
        let head = "IO Error reading "@ + suite.category() + " dir: "@;
        assert(head + error@ =~= head + error@ + Seq::<char>::empty());
        law_contains_means_a_part(head + error@, error@);
    }
}

/// What an operator is told of a test names it, but for the unit tests, which are told of as a whole.
pub proof fn law_tests_are_named(suite: Suite, name: Seq<char>)
    requires
        suite != Suite::Unit,
    ensures
        contains(suite.restore_text(name), name),
        contains(suite.failure_text(name), name),
        contains(suite.failure_text(name), suite.category()),
{
    law_contains_means_a_part(suite.restore_text(name), name);
    let failure = suite.failure_text(name);
    let head = "\n[ERROR] "@;
    assert(failure =~= (head + suite.category() + " test failed: "@) + name + Seq::<char>::empty());
    law_contains_means_a_part(failure, name);
    assert(failure =~= head + suite.category() + (" test failed: "@ + name));
    law_contains_means_a_part(failure, suite.category());
}

} // verus!
