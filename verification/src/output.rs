//! The text of the tool's tables and headers: truncation and padding of
//! cells, and the display style of a status.
use vstd::prelude::*;
use vstd::utf8::*;
use vstd::string::StringSliceAdditionalSpecFns;
use crate::models::{duration_text, Job, Pipeline};
use crate::text::{
    byte_len, decimal, lemma_encode_utf8_concat, pad_right, padded, same_text, u64_to_decimal,
    utf8_len,
};

verus! {

broadcast use vstd::utf8::encode_utf8_valid_utf8, vstd::utf8::encode_utf8_decode_utf8;

/// Whether `truncate(s, max_len)` is defined: either `s` fits in `max_len`
/// bytes, or `max_len` is at least three and its first `max_len - 3` bytes
/// end at a character boundary, where the text is cut.  On any other input
/// cutting the text is impossible (slicing there would panic), so `truncate`
/// requires this.
pub open spec fn truncate_defined(s: Seq<char>, max_len: nat) -> bool {
    ||| utf8_len(s) <= max_len
    ||| max_len >= 3 && is_char_boundary(encode_utf8(s), max_len - 3)
}

/// `s` itself if its UTF-8 encoding fits in `max_len` bytes; otherwise the
/// characters of its first `max_len - 3` bytes followed by `...`.
pub open spec fn truncated(s: Seq<char>, max_len: nat) -> Seq<char> {
    if utf8_len(s) <= max_len {
        s
    } else {
        decode_utf8(encode_utf8(s).take(max_len - 3)) + "..."@
    }
}

/// Law: a text that fits in `max_len` bytes is kept; a longer one (where
/// cutting is defined) becomes its first `max_len - 3` bytes followed by the
/// three bytes of `...`, which is exactly `max_len` bytes.
pub proof fn lemma_truncated_bytes(s: Seq<char>, max_len: nat)
    requires
        truncate_defined(s, max_len),
    ensures
        utf8_len(s) <= max_len ==> truncated(s, max_len) == s,
        utf8_len(s) > max_len ==> encode_utf8(truncated(s, max_len)) == encode_utf8(s).take(
            max_len - 3,
        ) + seq![46u8, 46u8, 46u8],
        utf8_len(s) > max_len ==> utf8_len(truncated(s, max_len)) == max_len,
{
    if utf8_len(s) > max_len {
        let b = encode_utf8(s);
        let k = max_len - 3;
        reveal_strlit("...");
        valid_utf8_split(b, k as int);
        let head = decode_utf8(b.take(k as int));
        assert(encode_utf8(head) == b.take(k as int)) by {
            assert(b.subrange(0, k as int) =~= b.take(k as int));
            decode_utf8_encode_utf8(b.take(k as int));
        }
        lemma_encode_utf8_concat(head, "..."@);
        assert(encode_utf8("..."@) =~= seq![46u8, 46u8, 46u8]) by {
            let d = "..."@;
            assert(d =~= seq!['.', '.', '.']);
            assert(is_ascii_chars(d));
            is_ascii_chars_encode_utf8(d);
            assert(d[0] as u8 == 46u8);
        }
    }
}

/// Tells whether `truncate(s, max_len)` is defined.
pub fn can_truncate(s: &str, max_len: usize) -> (b: bool)
    ensures
        b == truncate_defined(s@, max_len as nat),
        b == (s.spec_bytes().len() <= max_len || (max_len >= 3 && is_char_boundary(
            s.spec_bytes(),
            max_len - 3,
        ))),
{
    byte_len(s) <= max_len || (max_len >= 3 && s.is_char_boundary(max_len - 3))
}

/// Shortens `s` to at most `max_len` bytes, marking a cut with `...`.
pub fn truncate(s: &str, max_len: usize) -> (r: String)
    requires
        truncate_defined(s@, max_len as nat),
    ensures
        r@ == truncated(s@, max_len as nat),
        utf8_len(s@) <= max_len ==> r@ == s@,
        utf8_len(s@) > max_len ==> utf8_len(r@) == max_len,
{
    if byte_len(s) <= max_len {
        s.to_owned()
    } else {
        let (head, _) = s.split_at(max_len - 3);
        let mut r = head.to_owned();
        r.append("...");
        proof {
            let b = encode_utf8(s@);
            let k = max_len - 3;
            reveal_strlit("...");
            valid_utf8_split(b, k as int);
            assert(head.spec_bytes() =~= b.take(k as int));
            assert(head@ == decode_utf8(b.take(k as int)));
            lemma_encode_utf8_concat(head@, "..."@);
            assert(encode_utf8("..."@).len() == 3) by {
                reveal_with_fuel(encode_utf8, 4);
            }
        }
        r
    }
}

/// How a pipeline or job status is shown.
#[derive(Clone, Copy, Debug, PartialEq, Eq, Structural)]
pub enum StatusStyle {
    Green,
    Red,
    Blue,
    Yellow,
    Magenta,
    Dimmed,
    Normal,
}

/// The style of each status that GitLab reports; any other text is shown plainly.
pub open spec fn style_of(status: Seq<char>) -> StatusStyle {
    if status == "success"@ || status == "passed"@ {
        StatusStyle::Green
    } else if status == "failed"@ {
        StatusStyle::Red
    } else if status == "running"@ {
        StatusStyle::Blue
    } else if status == "pending"@ {
        StatusStyle::Yellow
    } else if status == "canceled"@ || status == "cancelled"@ {
        StatusStyle::Magenta
    } else if status == "skipped"@ {
        StatusStyle::Dimmed
    } else {
        StatusStyle::Normal
    }
}

/// The style in which `status` is shown.
pub fn status_style(status: &str) -> (st: StatusStyle)
    ensures
        st == style_of(status@),
{
    if same_text(status, "success") || same_text(status, "passed") {
        StatusStyle::Green
    } else if same_text(status, "failed") {
        StatusStyle::Red
    } else if same_text(status, "running") {
        StatusStyle::Blue
    } else if same_text(status, "pending") {
        StatusStyle::Yellow
    } else if same_text(status, "canceled") || same_text(status, "cancelled") {
        StatusStyle::Magenta
    } else if same_text(status, "skipped") {
        StatusStyle::Dimmed
    } else {
        StatusStyle::Normal
    }
}

/// A line of output with a status in it: the text before the status, the
/// status (padded as the line needs it), the style to show the status in, and
/// the text after it.
pub struct StyledLine {
    pub lead: String,
    pub status: String,
    pub style: StatusStyle,
    pub trail: String,
}

/// The header of the jobs table.
pub open spec fn jobs_header_text() -> Seq<char> {
    padded("JOB"@, 20) + " "@ + padded("ID"@, 8) + " "@ + padded("STATUS"@, 10) + " "@ + padded(
        "DURATION"@,
        10,
    ) + " STAGE"@
}

/// The header of the status table.
pub open spec fn status_header_text() -> Seq<char> {
    padded("STAGE"@, 12) + " "@ + padded("JOB"@, 20) + " "@ + padded("STATUS"@, 10)
        + " DURATION"@
}

/// The header of the jobs table: `JOB`, `ID`, `STATUS`, `DURATION`, `STAGE`.
pub fn jobs_table_header() -> (r: String)
    ensures
        r@ == jobs_header_text(),
{
    let mut r = pad_right("JOB", 20);
    r.append(" ");
    r.append(pad_right("ID", 8).as_str());
    r.append(" ");
    r.append(pad_right("STATUS", 10).as_str());
    r.append(" ");
    r.append(pad_right("DURATION", 10).as_str());
    r.append(" STAGE");
    r
}

/// The header of the status table: `STAGE`, `JOB`, `STATUS`, `DURATION`.
pub fn status_table_header() -> (r: String)
    ensures
        r@ == status_header_text(),
{
    let mut r = pad_right("STAGE", 12);
    r.append(" ");
    r.append(pad_right("JOB", 20).as_str());
    r.append(" ");
    r.append(pad_right("STATUS", 10).as_str());
    r.append(" DURATION");
    r
}

/// The row of the jobs table for `job`: name (cut to twenty bytes), id,
/// status, duration and stage, each but the last padded to its column.
pub fn jobs_table_row(job: &Job) -> (line: StyledLine)
    requires
        truncate_defined(job.name@, 20),
    ensures
        line.lead@ == padded(truncated(job.name@, 20), 20) + " "@ + padded(decimal(job.id as nat), 8)
            + " "@,
        line.status@ == padded(job.status@, 10),
        line.style == style_of(job.status@),
        line.trail@ == " "@ + padded(duration_text(job.duration), 10) + " "@ + job.stage@,
{
    let name = truncate(job.name.as_str(), 20);
    let mut lead = pad_right(name.as_str(), 20);
    lead.append(" ");
    let id = u64_to_decimal(job.id);
    lead.append(pad_right(id.as_str(), 8).as_str());
    lead.append(" ");
    let mut trail = String::from_str(" ");
    let duration = job.duration_str();
    trail.append(pad_right(duration.as_str(), 10).as_str());
    trail.append(" ");
    trail.append(job.stage.as_str());
    StyledLine {
        lead,
        status: pad_right(job.status.as_str(), 10),
        style: status_style(job.status.as_str()),
        trail,
    }
}

/// The row of the status table for `job`: stage, name (cut to twenty
/// bytes), status and duration, each but the last padded to its column.
pub fn status_table_row(job: &Job) -> (line: StyledLine)
    requires
        truncate_defined(job.name@, 20),
    ensures
        line.lead@ == padded(job.stage@, 12) + " "@ + padded(truncated(job.name@, 20), 20) + " "@,
        line.status@ == padded(job.status@, 10),
        line.style == style_of(job.status@),
        line.trail@ == " "@ + duration_text(job.duration),
{
    let mut lead = pad_right(job.stage.as_str(), 12);
    lead.append(" ");
    let name = truncate(job.name.as_str(), 20);
    lead.append(pad_right(name.as_str(), 20).as_str());
    lead.append(" ");
    let mut trail = String::from_str(" ");
    let duration = job.duration_str();
    trail.append(duration.as_str());
    StyledLine {
        lead,
        status: pad_right(job.status.as_str(), 10),
        style: status_style(job.status.as_str()),
        trail,
    }
}

/// The header line for a pipeline: `Pipeline #<id> (<ref>) - <status> [<duration>]`.
pub fn pipeline_header(pipeline: &Pipeline) -> (line: StyledLine)
    ensures
        line.lead@ == "Pipeline #"@ + decimal(pipeline.id as nat) + " ("@ + pipeline.git_ref@
            + ") - "@,
        line.status@ == pipeline.status@,
        line.style == style_of(pipeline.status@),
        line.trail@ == " ["@ + duration_text(pipeline.duration) + "]"@,
{
    let mut lead = String::from_str("Pipeline #");
    let id = u64_to_decimal(pipeline.id);
    lead.append(id.as_str());
    lead.append(" (");
    lead.append(pipeline.git_ref.as_str());
    lead.append(") - ");
    let mut trail = String::from_str(" [");
    let duration = pipeline.duration_str();
    trail.append(duration.as_str());
    trail.append("]");
    StyledLine {
        lead,
        status: pipeline.status.clone(),
        style: status_style(pipeline.status.as_str()),
        trail,
    }
}

} // verus!
