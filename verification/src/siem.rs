//! The SIEM stream: one flat JSON object per line, and the choice of the file that takes it.

use crate::catalog::{Alert, Heuristic};
use crate::fields::{
    field_views, number_view, push_number, push_text, text_view, Field, FieldView,
};
use crate::json::{
    distinct_keys, json_text, law_distinct_fields_are_kept, law_json_has_no_control_characters,
    object_of, to_json,
};
use crate::heuristics::rename_entropy::joined;
use crate::reader::{text_at, u32_at};
use vstd::prelude::*;

verus! {

/// The directory of the SIEM log.
pub const LOG_DIR: &'static str = "/var/log/bouclier-bleu";

/// The SIEM log.
pub const LOG_PATH: &'static str = "/var/log/bouclier-bleu/alerts.json";

/// The permissions of the SIEM log.
pub const LOG_MODE: u32 = 0o600;

/// The files that take the stream when the SIEM log cannot.
pub const FALLBACKS: [&'static str; 1] = ["/tmp/bouclier_fallback.log"];

/// The fields of a SIEM event, in the model: the envelope first, then those of the alert.
pub open spec fn enveloped(timestamp_ms: u64, slug: Seq<char>, payload: Seq<FieldView>) -> Seq<
    FieldView,
> {
    seq![number_view("@timestamp"@, timestamp_ms), text_view("event_source"@, slug)] + payload
}

/// The fields of a SIEM event: when it happened, which module raised it, and what the module has to
/// say, all on one level.
pub fn envelop(timestamp_ms: u64, module_slug: &str, payload: Vec<Field>) -> (r: Vec<Field>)
    ensures
        field_views(r@) == enveloped(timestamp_ms, module_slug@, field_views(payload@)),
{
    let mut out: Vec<Field> = Vec::new();
    push_number(&mut out, "@timestamp", timestamp_ms);
    push_text(&mut out, "event_source", module_slug);
    let ghost head = out@;
    let ghost tail = payload@;
    let mut rest = payload;
    out.append(&mut rest);
    assert(field_views(out@) =~= field_views(head) + field_views(tail));
    assert(field_views(head) =~= seq![
        number_view("@timestamp"@, timestamp_ms),
        text_view("event_source"@, module_slug@),
    ]);
    out
}

/// The fields of the SIEM event of an alert.
pub fn envelope(timestamp_ms: u64, module_slug: &str, alert: &Alert) -> (r: Vec<Field>)
    ensures
        field_views(r@) == enveloped(timestamp_ms, module_slug@, alert.payload()),
{
    envelop(timestamp_ms, module_slug, alert.fields())
}

/// A line of the SIEM stream, in the model.
pub open spec fn line_of(json: Seq<char>) -> Seq<char> {
    json + "\n"@
}

/// The line of the SIEM stream that holds a JSON text.
pub fn ndjson_line(json: &str) -> (r: String)
    ensures
        r@ == line_of(json@),
{
    let mut out = json.to_owned();
    out.append("\n");
    out
}

/// The line of the SIEM stream for an alert, in the model.
pub open spec fn event_line(timestamp_ms: u64, slug: Seq<char>, alert: Alert) -> Seq<char> {
    line_of(json_text(object_of(enveloped(timestamp_ms, slug, alert.payload()))))
}

/// The line of the SIEM stream for an alert. Every alert yields one.
pub fn emit_siem_event(timestamp_ms: u64, module_slug: &str, alert: &Alert) -> (r: String)
    ensures
        r@ == event_line(timestamp_ms, module_slug@, *alert),
{
    let fields = envelope(timestamp_ms, module_slug, alert);
    ndjson_line(to_json(&fields).as_str())
}

/// Whether a text is exactly one line: it ends in a line break and has no other.
pub open spec fn one_line(s: Seq<char>) -> bool {
    &&& s.len() > 0
    &&& s.last() == '\n'
    &&& forall|i: int| 0 <= i < s.len() - 1 ==> #[trigger] s[i] != '\n'
}

/// Whatever the strings of an alert hold, its event is exactly one line.
pub proof fn law_event_is_one_line(timestamp_ms: u64, slug: Seq<char>, alert: Alert)
    ensures
        one_line(event_line(timestamp_ms, slug, alert)),
{
    reveal_strlit("\n");
    law_json_has_no_control_characters(
        object_of(enveloped(timestamp_ms, slug, alert.payload())),
    );
}

proof fn lemma_keys()
    ensures
        "@timestamp"@.len() == 10 && "@timestamp"@[0] == '@',
        "event_source"@.len() == 12 && "event_source"@[0] == 'e',
        "pid"@.len() == 3 && "pid"@[0] == 'p',
        "tid"@.len() == 3 && "tid"@[0] == 't',
        "uid"@.len() == 3 && "uid"@[0] == 'u',
        "ppid"@.len() == 4 && "ppid"@[0] == 'p',
        "path"@.len() == 4 && "path"@[0] == 'p',
        "comm"@.len() == 4 && "comm"@[0] == 'c',
        "count"@.len() == 5,
        "target"@.len() == 6,
        "syscall"@.len() == 7 && "syscall"@[0] == 's',
        "fs_type"@.len() == 7 && "fs_type"@[0] == 'f',
        "dev_name"@.len() == 8,
        "full_path"@.len() == 9,
        "target_pid"@.len() == 10 && "target_pid"@[0] == 't',
        "action_type"@.len() == 11 && "action_type"@[0] == 'a',
        "mount_point"@.len() == 11 && "mount_point"@[0] == 'm',
        "target_comm"@.len() == 11 && "target_comm"@[0] == 't',
{
    reveal_strlit("@timestamp");
    reveal_strlit("event_source");
    reveal_strlit("pid");
    reveal_strlit("tid");
    reveal_strlit("uid");
    reveal_strlit("ppid");
    reveal_strlit("path");
    reveal_strlit("comm");
    reveal_strlit("count");
    reveal_strlit("target");
    reveal_strlit("syscall");
    reveal_strlit("fs_type");
    reveal_strlit("dev_name");
    reveal_strlit("full_path");
    reveal_strlit("target_pid");
    reveal_strlit("action_type");
    reveal_strlit("mount_point");
    reveal_strlit("target_comm");
}

/// A SIEM event is one flat object that loses nothing: no field of an alert shadows the envelope
/// or another field.
pub proof fn law_event_keeps_every_field(timestamp_ms: u64, slug: Seq<char>, alert: Alert)
    ensures
        distinct_keys(enveloped(timestamp_ms, slug, alert.payload())),
        object_of(enveloped(timestamp_ms, slug, alert.payload())) == enveloped(
            timestamp_ms,
            slug,
            alert.payload(),
        ),
{
    lemma_keys();
    let all = enveloped(timestamp_ms, slug, alert.payload());
    assert(all.len() <= 7);
    assert(distinct_keys(all));
    law_distinct_fields_are_kept(all);
}

/// The SIEM event of an alert names the process that the kernel recorded.
pub proof fn law_event_names_the_process(
    timestamp_ms: u64,
    slug: Seq<char>,
    heuristic: Heuristic,
    data: Seq<u8>,
    alert: Alert,
)
    requires
        alert.decodes(heuristic, data),
    ensures
        object_of(enveloped(timestamp_ms, slug, alert.payload())).contains(
            number_view("pid"@, u32_at(data, 0) as u64),
        ),
{
    law_event_keeps_every_field(timestamp_ms, slug, alert);
    let all = enveloped(timestamp_ms, slug, alert.payload());
    assert(all[2] == number_view("pid"@, u32_at(data, 0) as u64));
}

/// What came of the last step on the way to a SIEM sink.
#[derive(Clone, Copy, PartialEq, Eq, Structural)]
pub enum SinkEvent {
    /// Whether the log directory is secure.
    Directory(bool),
    /// Whether the SIEM log could be opened.
    Log(bool),
    /// Whether one of the fallbacks could be opened.
    Fallback(bool),
}

/// What to do next on the way to a SIEM sink.
#[derive(Clone, Copy, PartialEq, Eq, Structural)]
pub enum SinkStep {
    /// Open the SIEM log.
    OpenLog,
    /// Open the first fallback that can be opened.
    OpenFallback,
    /// Write to the file that was opened.
    Use,
    /// Drop the stream.
    Drop,
}

/// The next step, in the model: the log is only opened in a secure directory, a fallback is tried
/// before the stream is dropped.
pub open spec fn sink_after(event: SinkEvent) -> SinkStep {
    match event {
        SinkEvent::Directory(true) => SinkStep::OpenLog,
        SinkEvent::Directory(false) | SinkEvent::Log(false) => SinkStep::OpenFallback,
        SinkEvent::Log(true) | SinkEvent::Fallback(true) => SinkStep::Use,
        SinkEvent::Fallback(false) => SinkStep::Drop,
    }
}

/// The next step on the way to a SIEM sink.
pub fn next_sink_step(event: SinkEvent) -> (r: SinkStep)
    ensures
        r == sink_after(event),
{
    match event {
        SinkEvent::Directory(secure) => if secure {
            SinkStep::OpenLog
        } else {
            SinkStep::OpenFallback
        },
        SinkEvent::Log(opened) => if opened {
            SinkStep::Use
        } else {
            SinkStep::OpenFallback
        },
        SinkEvent::Fallback(opened) => if opened {
            SinkStep::Use
        } else {
            SinkStep::Drop
        },
    }
}

/// Every field of a record comes back in its event, and nothing else does: after the time and the
/// module stands, under the name of each field, the value at the offset of that field in the record.
pub proof fn law_event_holds_every_field_of_the_record(
    timestamp_ms: u64,
    slug: Seq<char>,
    heuristic: Heuristic,
    data: Seq<u8>,
    alert: Alert,
)
    requires
        alert.decodes(heuristic, data),
    ensures
        object_of(enveloped(timestamp_ms, slug, alert.payload())) == seq![
            number_view("@timestamp"@, timestamp_ms),
            text_view("event_source"@, slug),
        ] + match heuristic {
            Heuristic::ExecBlock => seq![
                number_view("pid"@, u32_at(data, 0) as u64),
                text_view("path"@, text_at(data, 4, 4096)),
            ],
            Heuristic::RenameEntropy => seq![
                number_view("pid"@, u32_at(data, 0) as u64),
                number_view("ppid"@, u32_at(data, 4) as u64),
                text_view(
                    "full_path"@,
                    joined(text_at(data, 8, 4096), text_at(data, 4104, 256)),
                ),
            ],
            Heuristic::Shield => seq![
                number_view("pid"@, u32_at(data, 0) as u64),
                number_view("action_type"@, u32_at(data, 4) as u64),
                text_view("target"@, text_at(data, 8, 4096)),
            ],
            Heuristic::MountSecure => seq![
                number_view("pid"@, u32_at(data, 0) as u64),
                text_view("dev_name"@, text_at(data, 4, 256)),
                text_view("fs_type"@, text_at(data, 260, 64)),
                text_view("mount_point"@, text_at(data, 324, 512)),
            ],
            Heuristic::StrictWx => seq![
                number_view("pid"@, u32_at(data, 0) as u64),
                text_view("syscall"@, text_at(data, 4, 16)),
            ],
            Heuristic::PtraceBlock => seq![
                number_view("pid"@, u32_at(data, 0) as u64),
                number_view("target_pid"@, u32_at(data, 4) as u64),
                number_view("action_type"@, u32_at(data, 8) as u64),
                text_view("target_comm"@, text_at(data, 12, 16)),
            ],
            Heuristic::DumpRestrict => seq![
                number_view("pid"@, u32_at(data, 0) as u64),
                number_view("uid"@, u32_at(data, 4) as u64),
                number_view("action_type"@, u32_at(data, 8) as u64),
                text_view("comm"@, text_at(data, 12, 16)),
            ],
            Heuristic::MadviseRatelimit => seq![
                number_view("pid"@, u32_at(data, 0) as u64),
                number_view("tid"@, u32_at(data, 4) as u64),
                number_view("count"@, u32_at(data, 8) as u64),
                number_view("action_type"@, u32_at(data, 12) as u64),
                text_view("comm"@, text_at(data, 16, 16)),
            ],
            Heuristic::UsernsRestrict => seq![
                number_view("pid"@, u32_at(data, 0) as u64),
                number_view("action_type"@, u32_at(data, 4) as u64),
                text_view("target"@, text_at(data, 8, 64)),
            ],
            Heuristic::IoRestrict => seq![
                number_view("pid"@, u32_at(data, 0) as u64),
                number_view("action_type"@, u32_at(data, 4) as u64),
                text_view("syscall"@, text_at(data, 8, 16)),
            ],
        },
{
    law_event_keeps_every_field(timestamp_ms, slug, alert);
    let all = enveloped(timestamp_ms, slug, alert.payload());
    match heuristic {
        Heuristic::ExecBlock => {
            assert(alert is ExecBlock);
            assert(alert.payload() =~= seq![
                number_view("pid"@, u32_at(data, 0) as u64),
                text_view("path"@, text_at(data, 4, 4096)),
            ]);
        },
        Heuristic::RenameEntropy => {
            assert(alert is RenameEntropy);
            assert(alert.payload() =~= seq![
                number_view("pid"@, u32_at(data, 0) as u64),
                number_view("ppid"@, u32_at(data, 4) as u64),
                text_view(
                    "full_path"@,
                    joined(text_at(data, 8, 4096), text_at(data, 4104, 256)),
                ),
            ]);
        },
        Heuristic::Shield => {
            assert(alert is Shield);
            assert(alert.payload() =~= seq![
                number_view("pid"@, u32_at(data, 0) as u64),
                number_view("action_type"@, u32_at(data, 4) as u64),
                text_view("target"@, text_at(data, 8, 4096)),
            ]);
        },
        Heuristic::MountSecure => {
            assert(alert is MountSecure);
            assert(alert.payload() =~= seq![
                number_view("pid"@, u32_at(data, 0) as u64),
                text_view("dev_name"@, text_at(data, 4, 256)),
                text_view("fs_type"@, text_at(data, 260, 64)),
                text_view("mount_point"@, text_at(data, 324, 512)),
            ]);
        },
        Heuristic::StrictWx => {
            assert(alert is StrictWx);
            assert(alert.payload() =~= seq![
                number_view("pid"@, u32_at(data, 0) as u64),
                text_view("syscall"@, text_at(data, 4, 16)),
            ]);
        },
        Heuristic::PtraceBlock => {
            assert(alert is PtraceBlock);
            assert(alert.payload() =~= seq![
                number_view("pid"@, u32_at(data, 0) as u64),
                number_view("target_pid"@, u32_at(data, 4) as u64),
                number_view("action_type"@, u32_at(data, 8) as u64),
                text_view("target_comm"@, text_at(data, 12, 16)),
            ]);
        },
        Heuristic::DumpRestrict => {
            assert(alert is DumpRestrict);
            assert(alert.payload() =~= seq![
                number_view("pid"@, u32_at(data, 0) as u64),
                number_view("uid"@, u32_at(data, 4) as u64),
                number_view("action_type"@, u32_at(data, 8) as u64),
                text_view("comm"@, text_at(data, 12, 16)),
            ]);
        },
        Heuristic::MadviseRatelimit => {
            assert(alert is MadviseRatelimit);
            assert(alert.payload() =~= seq![
                number_view("pid"@, u32_at(data, 0) as u64),
                number_view("tid"@, u32_at(data, 4) as u64),
                number_view("count"@, u32_at(data, 8) as u64),
                number_view("action_type"@, u32_at(data, 12) as u64),
                text_view("comm"@, text_at(data, 16, 16)),
            ]);
        },
        Heuristic::UsernsRestrict => {
            assert(alert is UsernsRestrict);
            assert(alert.payload() =~= seq![
                number_view("pid"@, u32_at(data, 0) as u64),
                number_view("action_type"@, u32_at(data, 4) as u64),
                text_view("target"@, text_at(data, 8, 64)),
            ]);
        },
        Heuristic::IoRestrict => {
            assert(alert is IoRestrict);
            assert(alert.payload() =~= seq![
                number_view("pid"@, u32_at(data, 0) as u64),
                number_view("action_type"@, u32_at(data, 4) as u64),
                text_view("syscall"@, text_at(data, 8, 16)),
            ]);
        },
    }
}

/// The line of an event is the JSON text of that object and a line break, for every alert.
pub proof fn law_event_line_holds_the_object(timestamp_ms: u64, slug: Seq<char>, alert: Alert)
    ensures
        event_line(timestamp_ms, slug, alert).len() > 0,
        event_line(timestamp_ms, slug, alert).last() == '\n',
        event_line(timestamp_ms, slug, alert).drop_last() == json_text(
            object_of(enveloped(timestamp_ms, slug, alert.payload())),
        ),
{
    reveal_strlit("\n");
    let line = event_line(timestamp_ms, slug, alert);
    assert(line.drop_last() =~= json_text(
        object_of(enveloped(timestamp_ms, slug, alert.payload())),
    ));
}

/// The stream is never written next to an insecure directory, never dropped before a fallback was
/// tried, and always written where a file could be opened.
pub proof fn law_a_fallback_comes_before_a_drop(event: SinkEvent)
    ensures
        sink_after(event) == SinkStep::OpenLog <==> event == SinkEvent::Directory(true),
        sink_after(event) == SinkStep::Drop <==> event == SinkEvent::Fallback(false),
        sink_after(event) == SinkStep::Use <==> (event == SinkEvent::Log(true) || event
            == SinkEvent::Fallback(true)),
        sink_after(event) == SinkStep::OpenFallback <==> (event == SinkEvent::Directory(false)
            || event == SinkEvent::Log(false)),
{
}

} // verus!
