//! The report on a test run, in Markdown.

use crate::text::{contains, law_contains_means_a_part};
use vstd::prelude::*;

verus! {

/// What came of one test.
pub struct TestRecord {
    /// The test.
    pub name: String,
    /// Its category.
    pub category: String,
    /// How long it took, in seconds with two decimals.
    pub duration: String,
    /// Whether it passed.
    pub passed: bool,
}

/// The model of what came of one test.
pub struct RecordView {
    /// The test.
    pub name: Seq<char>,
    /// Its category.
    pub category: Seq<char>,
    /// How long it took.
    pub duration: Seq<char>,
    /// Whether it passed.
    pub passed: bool,
}

impl View for TestRecord {
    type V = RecordView;

    open spec fn view(&self) -> RecordView {
        RecordView {
            name: self.name@,
            category: self.category@,
            duration: self.duration@,
            passed: self.passed,
        }
    }
}

/// The models of a list of records.
pub open spec fn record_views(results: Seq<TestRecord>) -> Seq<RecordView> {
    results.map_values(|record: TestRecord| record@)
}

/// The row of one test, in the model.
pub open spec fn row_text(record: TestRecord) -> Seq<char> {
    "| `"@ + record.name@ + "` | "@ + record.category@ + " | "@ + record.duration@ + "s | "@
        + if record.passed {
        "PASS"@
    } else {
        "FAIL"@
    } + " |\n"@
}

/// The heading and the rows, in the model.
pub open spec fn table_text(results: Seq<TestRecord>) -> Seq<char>
    decreases results.len(),
{
    if results.len() == 0 {
        "# Bouclier Bleu Test Results\n\n| Test Name | Category | Duration | Status |\n|-----------|----------|----------|--------|\n"@
    } else {
        table_text(results.drop_last()) + row_text(results.last())
    }
}

/// The whole report, in the model.
pub open spec fn report_text(
    results: Seq<TestRecord>,
    setup_time: Seq<char>,
    restore_time: Seq<char>,
    benchmarks: Option<Seq<char>>,
) -> Seq<char> {
    let metrics = table_text(results)
        + "\n## Pipeline Environment Metrics\n\n* **Initial VM Setup & Snapshot:** `"@ + setup_time
        + "s`\n* **Cumulative Snapshot Restorations:** `"@ + restore_time + "s`\n"@;
    match benchmarks {
        Some(text) => metrics + "\n"@ + text,
        None => metrics,
    }
}

/// The report on a test run; none where nothing was run. The times are in seconds with two
/// decimals, `benchmarks` is what the benchmarks wrote, if anything.
pub fn generate_markdown_report(
    results: &[TestRecord],
    setup_time: &str,
    restore_time: &str,
    benchmarks: Option<&str>,
) -> (r: Option<String>)
    ensures
        r is None <==> results@.len() == 0,
        r matches Some(report) ==> report@ == report_text(
            results@,
            setup_time@,
            restore_time@,
            match benchmarks {
                Some(text) => Some(text@),
                None => None,
            },
        ),
{
    if results.len() == 0 {
        return None;
    }
    let mut report =
        "# Bouclier Bleu Test Results\n\n| Test Name | Category | Duration | Status |\n|-----------|----------|----------|--------|\n".to_owned();
    let mut i: usize = 0;
    assert(results@.take(0) =~= Seq::empty());
    while i < results.len()
        invariant
            i <= results@.len(),
            report@ == table_text(results@.take(i as int)),
        decreases results@.len() - i,
    {
        let record = &results[i];
        let ghost before = report@;
        report.append("| `");
        report.append(record.name.as_str());
        report.append("` | ");
        report.append(record.category.as_str());
        report.append(" | ");
        report.append(record.duration.as_str());
        report.append("s | ");
        if record.passed {
            report.append("PASS");
        } else {
            report.append("FAIL");
        }
        report.append(" |\n");
        assert(report@ =~= before + row_text(*record));
        assert(results@.take(i + 1).drop_last() =~= results@.take(i as int));
        i = i + 1;
    }
    assert(results@.take(i as int) =~= results@);
    report.append("\n## Pipeline Environment Metrics\n\n* **Initial VM Setup & Snapshot:** `");
    report.append(setup_time);
    report.append("s`\n* **Cumulative Snapshot Restorations:** `");
    report.append(restore_time);
    report.append("s`\n");
    if let Some(text) = benchmarks {
        report.append("\n");
        report.append(text);
    }
    Some(report)
}

/// Whether every test passed.
pub open spec fn all_passed(results: Seq<TestRecord>) -> bool {
    forall|i: int| 0 <= i < results.len() ==> (#[trigger] results[i]).passed
}

/// The verdict on a test run: it fails with any of its tests.
pub fn verdict(results: &[TestRecord]) -> (r: Result<(), &'static str>)
    ensures
        r is Ok <==> all_passed(results@),
        r matches Err(error) ==> error@ == "One or more test suites failed validation."@,
{
    let mut i: usize = 0;
    while i < results.len()
        invariant
            i <= results@.len(),
            forall|j: int| 0 <= j < i ==> (#[trigger] results@[j]).passed,
        decreases results@.len() - i,
    {
        if !results[i].passed {
            return Err("One or more test suites failed validation.");
        }
        i = i + 1;
    }
    Ok(())
}

/// Each test gets one row, in the order in which it was run: its name, its category, its duration,
/// and whether it passed.
pub proof fn law_report_has_a_row_per_test(results: Seq<TestRecord>, record: TestRecord)
    ensures
        record.passed ==> table_text(results.push(record)) == table_text(results) + ("| `"@
            + record.name@ + "` | "@ + record.category@ + " | "@ + record.duration@ + "s | "@
            + "PASS"@ + " |\n"@),
        !record.passed ==> table_text(results.push(record)) == table_text(results) + ("| `"@
            + record.name@ + "` | "@ + record.category@ + " | "@ + record.duration@ + "s | "@
            + "FAIL"@ + " |\n"@),
{
    let grown = results.push(record);
    assert(grown.drop_last() =~= results);
    assert(grown.last() == record);
}

/// The report holds the table, then the two times, then what the benchmarks wrote, if anything.
pub proof fn law_report_holds_everything(
    results: Seq<TestRecord>,
    setup_time: Seq<char>,
    restore_time: Seq<char>,
    benchmarks: Seq<char>,
)
    ensures
        report_text(results, setup_time, restore_time, Some(benchmarks)) == report_text(
            results,
            setup_time,
            restore_time,
            None,
        ) + "\n"@ + benchmarks,
        table_text(results).is_prefix_of(report_text(results, setup_time, restore_time, None)),
        contains(
            report_text(results, setup_time, restore_time, None),
            "Snapshot:** `"@ + setup_time + "s`"@,
        ),
        contains(
            report_text(results, setup_time, restore_time, None),
            "Restorations:** `"@ + restore_time + "s`"@,
        ),
{
    reveal_strlit("\n## Pipeline Environment Metrics\n\n* **Initial VM Setup & Snapshot:** `");
    reveal_strlit("s`\n* **Cumulative Snapshot Restorations:** `");
    reveal_strlit("s`\n");
    reveal_strlit("s`");
    reveal_strlit("Snapshot:** `");
    reveal_strlit("Restorations:** `");
    let head = "\n## Pipeline Environment Metrics\n\n* **Initial VM Setup & Snapshot:** `"@;
    let middle = "s`\n* **Cumulative Snapshot Restorations:** `"@;
    let tail = "s`\n"@;
    let all = report_text(results, setup_time, restore_time, None);
    let table = table_text(results);
    assert(all =~= table + (head + setup_time + middle + restore_time + tail));
    let setup = "Snapshot:** `"@ + setup_time + "s`"@;
    let a = head.len() - 13;
    assert(head.skip(a) =~= "Snapshot:** `"@);
    assert(middle.take(2) =~= "s`"@);
    assert(all =~= (table + head.take(a)) + setup + (middle.skip(2) + restore_time + tail));
    law_contains_means_a_part(all, setup);
    let restore = "Restorations:** `"@ + restore_time + "s`"@;
    let b = middle.len() - 17;
    assert(middle.skip(b) =~= "Restorations:** `"@);
    assert(tail.take(2) =~= "s`"@);
    assert(all =~= (table + head + setup_time + middle.take(b)) + restore + tail.skip(2));
    law_contains_means_a_part(all, restore);
}

/// A run passes exactly if none of its tests failed.
pub proof fn law_one_failure_fails_the_run(results: Seq<TestRecord>, record: TestRecord)
    ensures
        all_passed(Seq::<TestRecord>::empty()),
        all_passed(results.push(record)) <==> all_passed(results) && record.passed,
{
    let grown = results.push(record);
    if all_passed(grown) {
        assert forall|i: int| 0 <= i < results.len() implies (#[trigger] results[i]).passed by {
            assert(grown[i] == results[i]);
        }
        assert(grown[results.len() as int].passed);
    }
}

} // verus!
