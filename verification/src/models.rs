//! Pipelines and jobs as GitLab reports them, and how long they took.
use vstd::prelude::*;
use crate::text::{
    decimal, digit_char, digits_value, lemma_decimal_reads_back, push_char, u64_to_decimal,
};

verus! {

/// A pipeline.  GitLab reports the duration in seconds with a fraction; it
/// is held here in whole seconds, the fraction dropped.
#[derive(Debug)]
pub struct Pipeline {
    pub id: u64,
    pub git_ref: String,
    pub status: String,
    pub duration: Option<u64>,
    pub created_at: String,
    pub web_url: String,
}

/// A job of a pipeline, its duration in whole seconds as for [`Pipeline`].
#[derive(Debug)]
pub struct Job {
    pub id: u64,
    pub name: String,
    pub status: String,
    pub stage: String,
    pub duration: Option<u64>,
    pub created_at: String,
    pub started_at: Option<String>,
    pub finished_at: Option<String>,
    pub web_url: String,
}

/// `n` in decimal with at least two digits (`format!("{:02}", n)`).
pub open spec fn two_digits(n: nat) -> Seq<char> {
    if n < 10 {
        seq!['0', digit_char(n)]
    } else {
        decimal(n)
    }
}

/// A duration of `secs` seconds as minutes and seconds: `2m 34s`, `0m 05s`.
pub open spec fn duration_of(secs: nat) -> Seq<char> {
    decimal(secs / 60) + "m "@ + two_digits(secs % 60) + "s"@
}

/// The duration as shown in tables, `-` when there is none.
pub open spec fn duration_text(d: Option<u64>) -> Seq<char> {
    match d {
        Some(s) => duration_of(s as nat),
        None => "-"@,
    }
}

/// Whether `c` is an ASCII decimal digit.
pub open spec fn is_digit(c: char) -> bool {
    48 <= c as u32 <= 57
}

/// The value of the ASCII digit `c`.
pub open spec fn digit_value(c: char) -> int {
    c as int - 48
}

/// Law: a duration reads as `<minutes>m <ss>s`, where `<minutes>` is made of
/// decimal digits that read back as the whole minutes, and `<ss>` is exactly
/// two digits that read back as the remaining seconds.
pub proof fn lemma_duration_layout(secs: nat)
    ensures
        ({
            let t = duration_of(secs);
            let n = t.len() as int;
            &&& n >= 6
            &&& t[n - 1] == 's'
            &&& t[n - 4] == ' '
            &&& t[n - 5] == 'm'
            &&& is_digit(t[n - 3])
            &&& is_digit(t[n - 2])
            &&& 10 * digit_value(t[n - 3]) + digit_value(t[n - 2]) == secs % 60
            &&& forall|i: int| 0 <= i < n - 5 ==> is_digit(#[trigger] t[i])
            &&& digits_value(t.take(n - 5)) == secs / 60
        }),
{
    reveal_strlit("m ");
    reveal_strlit("s");
    let m = decimal(secs / 60);
    lemma_decimal_reads_back(secs / 60);
    let r = secs % 60;
    let two = two_digits(r);
    if r < 10 {
        assert(two =~= seq!['0', digit_char(r)]);
        assert(digit_value(digit_char(r)) == r);
    } else {
        assert(r / 10 < 10);
        assert(decimal(r / 10) =~= seq![digit_char(r / 10)]);
        assert(two =~= seq![digit_char(r / 10), digit_char(r % 10)]);
        assert(digit_value(digit_char(r / 10)) == r / 10);
        assert(digit_value(digit_char(r % 10)) == r % 10);
        assert(10 * (r / 10) + r % 10 == r);
    }
    let t = duration_of(secs);
    assert(t =~= m + seq!['m', ' '] + two + seq!['s']);
    assert(t.take(t.len() - 5) =~= m);
    assert forall|i: int| 0 <= i < t.len() - 5 implies is_digit(#[trigger] t[i]) by {
        assert(t[i] == m[i]);
    }
}

/// Shows a duration of `total_secs` seconds as minutes and seconds.
pub fn format_duration(total_secs: u64) -> (r: String)
    ensures
        r@ == duration_of(total_secs as nat),
{
    let mins = total_secs / 60;
    let secs = total_secs % 60;
    let mut r = u64_to_decimal(mins);
    r.append("m ");
    if secs < 10 {
        push_char(&mut r, '0');
        let d = u64_to_decimal(secs);
        r.append(d.as_str());
    } else {
        let d = u64_to_decimal(secs);
        r.append(d.as_str());
    }
    r.append("s");
    r
}

fn duration_label(d: Option<u64>) -> (r: String)
    ensures
        r@ == duration_text(d),
{
    match d {
        Some(s) => format_duration(s),
        None => String::from_str("-"),
    }
}

impl Pipeline {
    /// How long the pipeline took, `-` when unknown.
    pub fn duration_str(&self) -> (r: String)
        ensures
            r@ == duration_text(self.duration),
    {
        duration_label(self.duration)
    }
}

impl Job {
    /// How long the job took, `-` when unknown.
    pub fn duration_str(&self) -> (r: String)
        ensures
            r@ == duration_text(self.duration),
    {
        duration_label(self.duration)
    }
}

} // verus!
