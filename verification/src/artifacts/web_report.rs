//! The read-only per-case report page. The page lists the transcript
//! entries (HTML-escaped summaries) and links the case's clip files.
//! Reading the transcript log and listing the clips directory is the
//! caller's; this builds the page from them.

use vstd::prelude::*;
use crate::artifacts::transcript_index::TranscriptIndex;
use crate::proto::id::CaseId;
use crate::proto::transcript::{BreadcrumbKind, LogLevel, TranscriptEntry};
use crate::text::{owned, push_str, push_i64, dec_int, join_path, path_join};

verus! {

/// A minimal report renderer over a transcript store; clip sidecars live
/// under `root`.
pub struct StubWebReport {
    root: String,
    transcript: TranscriptIndex,
}

/// The text of a breadcrumb kind.
pub open spec fn kind_text(k: BreadcrumbKind) -> Seq<char> {
    match k {
        BreadcrumbKind::StepBegin => "step_begin"@,
        BreadcrumbKind::StepEnd => "step_end"@,
        BreadcrumbKind::Assertion => "assertion"@,
        BreadcrumbKind::Action => "action"@,
        BreadcrumbKind::Note => "note"@,
        BreadcrumbKind::Bug => "bug"@,
        BreadcrumbKind::Fix => "fix"@,
        BreadcrumbKind::Error => "error"@,
    }
}

/// The name of a log level (its variant name).
pub open spec fn level_text(l: LogLevel) -> Seq<char> {
    match l {
        LogLevel::Trace => "Trace"@,
        LogLevel::Debug => "Debug"@,
        LogLevel::Info => "Info"@,
        LogLevel::Warn => "Warn"@,
        LogLevel::Error => "Error"@,
    }
}

/// One line summarising a transcript entry.
pub open spec fn summary_text(e: TranscriptEntry) -> Seq<char> {
    match e {
        TranscriptEntry::Breadcrumb(b) => "["@ + kind_text(b.kind) + "] "@ + b.label@ + " (t="@
            + dec_int(b.timeline_ns as int) + "ns)"@,
        TranscriptEntry::ToolIo { summary, timeline_ns, .. } => "tool: "@ + summary@ + " (t="@
            + dec_int(timeline_ns as int) + "ns)"@,
        TranscriptEntry::Log { level, message, timeline_ns, .. } => level_text(level) + ": "@
            + message@ + " (t="@ + dec_int(timeline_ns as int) + "ns)"@,
    }
}

/// The HTML escape of one character.
pub open spec fn escape_char(c: char) -> Seq<char> {
    if c == '&' {
        "&amp;"@
    } else if c == '<' {
        "&lt;"@
    } else if c == '>' {
        "&gt;"@
    } else if c == '"' {
        "&quot;"@
    } else {
        seq![c]
    }
}

/// HTML escape of a text: `&`, `<`, `>` and `"` become entities.
pub open spec fn escaped(s: Seq<char>) -> Seq<char>
    decreases s.len(),
{
    if s.len() == 0 {
        s
    } else {
        escaped(s.drop_last()) + escape_char(s.last())
    }
}

/// The free text an entry carries: a breadcrumb's label, a tool call's
/// summary, a log line's message.
pub open spec fn carried_text(e: TranscriptEntry) -> Seq<char> {
    match e {
        TranscriptEntry::Breadcrumb(b) => b.label@,
        TranscriptEntry::ToolIo { summary, .. } => summary@,
        TranscriptEntry::Log { message, .. } => message@,
    }
}

/// When an entry happened.
pub open spec fn entry_time(e: TranscriptEntry) -> int {
    match e {
        TranscriptEntry::Breadcrumb(b) => b.timeline_ns as int,
        TranscriptEntry::ToolIo { timeline_ns, .. } => timeline_ns as int,
        TranscriptEntry::Log { timeline_ns, .. } => timeline_ns as int,
    }
}

/// `needle` occurs somewhere in `hay`.
pub open spec fn occurs_in(hay: Seq<char>, needle: Seq<char>) -> bool {
    exists|i: int|
        0 <= i && i + needle.len() <= hay.len() && #[trigger] hay.subrange(i, i + needle.len())
            == needle
}

/// Every report line shows what its entry says and when: the entry's own
/// text occurs in the line, and the line ends with its time in
/// nanoseconds. A tool call's line is `tool: ` followed at once by the
/// call's summary.
pub proof fn lemma_line_shows_entry(e: TranscriptEntry)
    ensures
        occurs_in(summary_text(e), carried_text(e)),
        ({
            let line = summary_text(e);
            let tail = " (t="@ + dec_int(entry_time(e)) + "ns)"@;
            tail.len() <= line.len() && line.subrange(line.len() - tail.len(), line.len() as int)
                == tail
        }),
        e is ToolIo ==> summary_text(e).subrange(0, 6) == "tool: "@ && summary_text(e).subrange(
            6,
            6 + carried_text(e).len() as int,
        ) == carried_text(e),
{
    reveal_strlit("tool: ");
    let line = summary_text(e);
    let text = carried_text(e);
    let tail = " (t="@ + dec_int(entry_time(e)) + "ns)"@;
    let head = match e {
        TranscriptEntry::Breadcrumb(b) => "["@ + kind_text(b.kind) + "] "@,
        TranscriptEntry::ToolIo { .. } => "tool: "@,
        TranscriptEntry::Log { level, .. } => level_text(level) + ": "@,
    };
    assert(line =~= head + text + tail);
    let i = head.len() as int;
    assert(line.subrange(i, i + text.len()) =~= text);
    assert(line.subrange(line.len() - tail.len(), line.len() as int) =~= tail);
    if e is ToolIo {
        assert(line.subrange(0, 6) =~= "tool: "@);
    }
}

/// Escaped text never holds a raw `<`, `>` or `"`: whatever the input, it
/// cannot open or close a tag or an attribute in the page.
pub proof fn lemma_escaped_has_no_markup(s: Seq<char>)
    ensures
        forall|i: int|
            0 <= i < escaped(s).len() ==> #[trigger] escaped(s)[i] != '<' && escaped(s)[i] != '>'
                && escaped(s)[i] != '"',
    decreases s.len(),
{
    reveal_strlit("&amp;");
    reveal_strlit("&lt;");
    reveal_strlit("&gt;");
    reveal_strlit("&quot;");
    if s.len() > 0 {
        lemma_escaped_has_no_markup(s.drop_last());
        let a = escaped(s.drop_last());
        let b = escape_char(s.last());
        assert forall|i: int| 0 <= i < escaped(s).len() implies #[trigger] escaped(s)[i] != '<'
            && escaped(s)[i] != '>' && escaped(s)[i] != '"' by {
            if i < a.len() {
                assert(escaped(s)[i] == a[i]);
            } else {
                assert(escaped(s)[i] == b[i - a.len()]);
            }
        }
    }
}

/// The transcript list items of the page.
pub open spec fn entry_items(s: Seq<TranscriptEntry>) -> Seq<char>
    decreases s.len(),
{
    if s.len() == 0 {
        Seq::empty()
    } else {
        entry_items(s.drop_last()) + "<li>"@ + escaped(summary_text(s.last())) + "</li>"@
    }
}

/// The clip list items of the page.
pub open spec fn clip_items(s: Seq<String>) -> Seq<char>
    decreases s.len(),
{
    if s.len() == 0 {
        Seq::empty()
    } else {
        clip_items(s.drop_last()) + "<li><a href=\"clips/"@ + s.last()@ + "\">"@ + s.last()@
            + "</a></li>"@
    }
}

/// The whole report page of a case.
pub open spec fn report_page(case: Seq<char>, entries: Seq<TranscriptEntry>, clips: Seq<String>) -> Seq<
    char,
> {
    "<!DOCTYPE html><html><head><meta charset=\"utf-8\">"@ + "<title>qwan report — case "@ + case
        + "</title></head><body>"@ + "<h1>Case "@ + case + "</h1>"@ + "<h2>Transcript</h2><ol>"@
        + entry_items(entries) + "</ol>"@ + "<h2>Clips</h2><ul>"@ + clip_items(clips)
        + "</ul></body></html>"@
}

/// The text of a breadcrumb kind.
pub fn kind_str(k: BreadcrumbKind) -> (r: &'static str)
    ensures
        r@ == kind_text(k),
{
    match k {
        BreadcrumbKind::StepBegin => "step_begin",
        BreadcrumbKind::StepEnd => "step_end",
        BreadcrumbKind::Assertion => "assertion",
        BreadcrumbKind::Action => "action",
        BreadcrumbKind::Note => "note",
        BreadcrumbKind::Bug => "bug",
        BreadcrumbKind::Fix => "fix",
        BreadcrumbKind::Error => "error",
    }
}

/// The name of a log level.
pub fn level_str(l: LogLevel) -> (r: &'static str)
    ensures
        r@ == level_text(l),
{
    match l {
        LogLevel::Trace => "Trace",
        LogLevel::Debug => "Debug",
        LogLevel::Info => "Info",
        LogLevel::Warn => "Warn",
        LogLevel::Error => "Error",
    }
}

/// One line summarising a transcript entry.
pub fn entry_summary(e: &TranscriptEntry) -> (r: String)
    ensures
        r@ == summary_text(*e),
{
    match e {
        TranscriptEntry::Breadcrumb(b) => {
            let mut s = owned("[");
            push_str(&mut s, kind_str(b.kind));
            push_str(&mut s, "] ");
            push_str(&mut s, b.label.as_str());
            push_str(&mut s, " (t=");
            push_i64(&mut s, b.timeline_ns);
            push_str(&mut s, "ns)");
            s
        },
        TranscriptEntry::ToolIo { summary, timeline_ns, .. } => {
            let mut s = owned("tool: ");
            push_str(&mut s, summary.as_str());
            push_str(&mut s, " (t=");
            push_i64(&mut s, *timeline_ns);
            push_str(&mut s, "ns)");
            s
        },
        TranscriptEntry::Log { level, message, timeline_ns, .. } => {
            let mut s = owned(level_str(*level));
            push_str(&mut s, ": ");
            push_str(&mut s, message.as_str());
            push_str(&mut s, " (t=");
            push_i64(&mut s, *timeline_ns);
            push_str(&mut s, "ns)");
            s
        },
    }
}

/// HTML-escape a text.
pub fn html_escape(s: &str) -> (r: String)
    ensures
        r@ == escaped(s@),
{
    let n = s.unicode_len();
    let mut out = String::new();
    let mut i: usize = 0;
    assert(s@.take(0) =~= Seq::<char>::empty());
    while i < n
        invariant
            n == s@.len(),
            i <= n,
            out@ == escaped(s@.take(i as int)),
        decreases n - i,
    {
        let c = s.get_char(i);
        let ghost t = s@.take(i + 1);
        assert(t.drop_last() =~= s@.take(i as int));
        assert(t.last() == c);
        if c == '&' {
            push_str(&mut out, "&amp;");
        } else if c == '<' {
            push_str(&mut out, "&lt;");
        } else if c == '>' {
            push_str(&mut out, "&gt;");
        } else if c == '"' {
            push_str(&mut out, "&quot;");
        } else {
            out.push(c);
        }
        i = i + 1;
    }
    assert(s@.take(n as int) =~= s@);
    out
}

/// Build the report page of a case from its transcript entries (in log
/// order) and the names of its clip files.
pub fn render_page(case_id: &CaseId, entries: &[TranscriptEntry], clip_names: &[String]) -> (r:
    String)
    ensures
        r@ == report_page(case_id.0@, entries@, clip_names@),
{
    let mut html = owned("<!DOCTYPE html><html><head><meta charset=\"utf-8\">");
    push_str(&mut html, "<title>qwan report — case ");
    push_str(&mut html, case_id.as_str());
    push_str(&mut html, "</title></head><body>");
    push_str(&mut html, "<h1>Case ");
    push_str(&mut html, case_id.as_str());
    push_str(&mut html, "</h1>");
    push_str(&mut html, "<h2>Transcript</h2><ol>");
    let ghost head = html@;
    let mut i: usize = 0;
    assert(entries@.take(0) =~= Seq::<TranscriptEntry>::empty());
    while i < entries.len()
        invariant
            i <= entries@.len(),
            html@ == head + entry_items(entries@.take(i as int)),
        decreases entries.len() - i,
    {
        let ghost t = entries@.take(i + 1);
        assert(t.drop_last() =~= entries@.take(i as int));
        assert(t.last() == entries@[i as int]);
        let summary = entry_summary(&entries[i]);
        push_str(&mut html, "<li>");
        let esc = html_escape(summary.as_str());
        push_str(&mut html, esc.as_str());
        push_str(&mut html, "</li>");
        i = i + 1;
    }
    assert(entries@.take(entries@.len() as int) =~= entries@);
    push_str(&mut html, "</ol>");
    push_str(&mut html, "<h2>Clips</h2><ul>");
    let ghost mid = html@;
    let mut k: usize = 0;
    assert(clip_names@.take(0) =~= Seq::<String>::empty());
    while k < clip_names.len()
        invariant
            k <= clip_names@.len(),
            html@ == mid + clip_items(clip_names@.take(k as int)),
        decreases clip_names.len() - k,
    {
        let ghost t = clip_names@.take(k + 1);
        assert(t.drop_last() =~= clip_names@.take(k as int));
        assert(t.last() == clip_names@[k as int]);
        let name = clip_names[k].as_str();
        push_str(&mut html, "<li><a href=\"clips/");
        push_str(&mut html, name);
        push_str(&mut html, "\">");
        push_str(&mut html, name);
        push_str(&mut html, "</a></li>");
        k = k + 1;
    }
    assert(clip_names@.take(clip_names@.len() as int) =~= clip_names@);
    push_str(&mut html, "</ul></body></html>");
    assert(html@ =~= report_page(case_id.0@, entries@, clip_names@));
    html
}

impl StubWebReport {
    /// The clip sidecar root.
    pub closed spec fn root(&self) -> Seq<char> {
        self.root@
    }

    /// The transcript store the report reads.
    pub closed spec fn store(&self) -> TranscriptIndex {
        self.transcript
    }

    /// A report renderer with clips under `root` and entries from `transcript`.
    pub fn new(root: &str, transcript: TranscriptIndex) -> (r: Self)
        ensures
            r.root() == root@,
            r.store() == transcript,
    {
        StubWebReport { root: owned(root), transcript }
    }

    /// The transcript store the report reads.
    pub fn transcript(&self) -> (r: &TranscriptIndex)
        ensures
            *r == self.store(),
    {
        &self.transcript
    }

    /// The case's clips directory: `<root>/cases/<case>/clips`.
    pub fn clip_dir(&self, case_id: &CaseId) -> (r: String)
        ensures
            r@ == path_join(path_join(path_join(self.root(), "cases"@), case_id.0@), "clips"@),
    {
        let a = join_path(self.root.as_str(), "cases");
        let b = join_path(a.as_str(), case_id.as_str());
        join_path(b.as_str(), "clips")
    }

    /// Keep the clip sidecar names (`*.json`) of a directory listing.
    pub fn clip_names(listing: &[String]) -> (r: Vec<String>)
        ensures
            r@ == json_names(listing@),
    {
        let mut out: Vec<String> = Vec::new();
        let mut i: usize = 0;
        assert(listing@.take(0) =~= Seq::<String>::empty());
        while i < listing.len()
            invariant
                i <= listing@.len(),
                out@ == json_names(listing@.take(i as int)),
            decreases listing.len() - i,
        {
            let ghost t = listing@.take(i + 1);
            assert(t.drop_last() =~= listing@.take(i as int));
            assert(t.last() == listing@[i as int]);
            if crate::text::str_ends_with(listing[i].as_str(), ".json") {
                out.push(listing[i].clone());
            }
            i = i + 1;
        }
        assert(listing@.take(listing@.len() as int) =~= listing@);
        out
    }
}

/// The names in a listing that end with `.json`, in order.
pub open spec fn json_names(s: Seq<String>) -> Seq<String>
    decreases s.len(),
{
    if s.len() == 0 {
        s
    } else {
        let rest = json_names(s.drop_last());
        if crate::text::bytes_end_with(
            vstd::utf8::encode_utf8(s.last()@),
            vstd::utf8::encode_utf8(".json"@),
        ) {
            rest.push(s.last())
        } else {
            rest
        }
    }
}

} // verus!
