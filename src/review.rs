use vstd::prelude::*;

use crate::discovery::DiscoveryMode;
use crate::model::{
    adaptive_outcome, notice_view, select_model_adaptive, ModelRegistry, ModelRequest, SelectError,
    Selection,
};
use crate::normalize::ResponseError;
use crate::text::{copy_text, decimal, decimal_text, views};

verus! {

/// The instructions that every review request opens with.
pub const SYSTEM_PROMPT: &'static str = "You are a senior code and document review expert.

You receive a document and metadata, and must produce a structured review in Markdown format.

Use the following structure with these exact headings:

## Issues Found
- **Title**: Description (lines: X-Y)
- **Title**: Description

## Simplifications
- **Title**: Description

## Consider Later
- **Title**: Description

## Other Observations
- General note
- Another observation

**Rules**:
- Each item must be SHORT and FOCUSED (1-3 sentences max)
- Do NOT repeat the entire document
- Focus on actionable insights
- Output clean Markdown with proper headings
- Use - for bullet points, **bold** for titles
- Include line numbers for issues when relevant";

/// Why the review of one file failed.
#[derive(Debug)]
pub enum ReviewError {
    /// No model could be chosen.
    Select(SelectError),
    /// The file could not be read.
    ReadFile { path: String, detail: String },
    /// The backend could not be reached or did not answer in time.
    Transport(String),
    /// The backend's answer could not be used.
    Backend(ResponseError),
    /// Every run of a repeated review failed.
    AllRunsFailed,
}

pub open spec fn or_default(v: Option<&str>, d: Seq<char>) -> Seq<char> {
    match v {
        Some(s) => s@,
        None => d,
    }
}

/// The request text for one document: its metadata, then its content.
pub open spec fn user_prompt(
    document: Seq<char>,
    filename: Seq<char>,
    kind: Seq<char>,
    focus: Seq<char>,
) -> Seq<char> {
    "**File**: "@ + filename + "\n**Kind**: "@ + kind + "\n**Review Focus**: "@ + focus
        + "\n\n**Document Content**:\n"@ + document
        + "\n\nProvide your structured review in Markdown format with the specified headings."@
}

/// The system and user messages of a review request; the kind of document
/// defaults to `unknown` and the focus to `general`.
pub fn build_prompt(
    document: &str,
    filename: &str,
    kind: Option<&str>,
    review_focus: Option<&str>,
) -> (r: Result<(String, String), ReviewError>)
    ensures
        r matches Ok((system, user)) && system@ == SYSTEM_PROMPT@ && user@ == user_prompt(
            document@,
            filename@,
            or_default(kind, "unknown"@),
            or_default(review_focus, "general"@),
        ),
{
    let kind = match kind {
        Some(k) => k,
        None => "unknown",
    };
    let focus = match review_focus {
        Some(f) => f,
        None => "general",
    };
    let mut user = String::from_str("**File**: ");
    user.append(filename);
    user.append("\n**Kind**: ");
    user.append(kind);
    user.append("\n**Review Focus**: ");
    user.append(focus);
    user.append("\n\n**Document Content**:\n");
    user.append(document);
    user.append(
        "\n\nProvide your structured review in Markdown format with the specified headings.",
    );
    Ok((String::from_str(SYSTEM_PROMPT), user))
}

/// The report that a dry run gives in place of a review.
pub open spec fn dry_run_text(
    model: Seq<char>,
    filename: Seq<char>,
    document_bytes: nat,
    system_bytes: nat,
    user_bytes: nat,
) -> Seq<char> {
    "## Dry Run Information\n\n- Model: "@ + model + "\n- File: "@ + filename + " ("@ + decimal(
        document_bytes,
    ) + " bytes)\n- System prompt: "@ + decimal(system_bytes) + " chars\n- User prompt: "@
        + decimal(user_bytes) + " chars\n"@
}

/// Says what a review would send, without sending it: the model, the file
/// and its size, and the sizes of the two messages, in bytes.
pub fn dry_run_report(model: &str, filename: &str, document: &str, system: &str, user: &str) -> (r:
    String)
    ensures
        r@ == dry_run_text(
            model@,
            filename@,
            document.len() as nat,
            system.len() as nat,
            user.len() as nat,
        ),
{
    let mut out = String::from_str("## Dry Run Information\n\n- Model: ");
    out.append(model);
    out.append("\n- File: ");
    out.append(filename);
    out.append(" (");
    out.append(decimal_text(document.len() as u64).as_str());
    out.append(" bytes)\n- System prompt: ");
    out.append(decimal_text(system.len() as u64).as_str());
    out.append(" chars\n- User prompt: ");
    out.append(decimal_text(user.len() as u64).as_str());
    out.append(" chars\n");
    out
}

} // verus!

verus! {

/// How long a request to the backend may take when no limit is given.
pub const DEFAULT_TIMEOUT_SECS: u64 = 120;

/// The settings of a review that do not concern the choice of model.
pub struct ReviewSettings {
    pub kind: Option<String>,
    pub review_focus: Option<String>,
    pub dry_run: bool,
    pub timeout_secs: Option<u64>,
    pub runs: usize,
    pub validation_mode: bool,
    pub show_metrics: bool,
}

/// A request to the inference backend.
pub struct ChatRequest {
    pub model: String,
    pub system: String,
    pub user: String,
    pub timeout_secs: u64,
}

/// What reviewing one file takes once its model is chosen and its content
/// read: a report given at once, or a request to send.
pub enum ReviewStep {
    Report(String),
    Send(ChatRequest),
}

pub open spec fn kind_text(s: ReviewSettings) -> Seq<char> {
    match s.kind {
        Some(k) => k@,
        None => "unknown"@,
    }
}

pub open spec fn focus_text(s: ReviewSettings) -> Seq<char> {
    match s.review_focus {
        Some(f) => f@,
        None => "general"@,
    }
}

impl ReviewSettings {
    /// Whether each file is reviewed more than once.
    pub fn multi_run(&self) -> (r: bool)
        ensures
            r == (self.runs > 1),
    {
        self.runs > 1
    }

    /// The time limit of a request to the backend.
    pub fn timeout(&self) -> (r: u64)
        ensures
            r == match self.timeout_secs {
                Some(t) => t,
                None => DEFAULT_TIMEOUT_SECS,
            },
    {
        match self.timeout_secs {
            Some(t) => t,
            None => DEFAULT_TIMEOUT_SECS,
        }
    }

    /// Builds the prompts for a document and decides what reviewing it
    /// takes: in a dry run, a report of what would be sent; otherwise the
    /// request itself.
    pub fn plan_review(&self, model: &str, filename: &str, document: &str) -> (r: ReviewStep)
        ensures
            self.dry_run ==> (r matches ReviewStep::Report(t) && exists|s: &str, u: &str|
                s@ == SYSTEM_PROMPT@ && u@ == user_prompt(
                    document@,
                    filename@,
                    kind_text(*self),
                    focus_text(*self),
                ) && t@ == dry_run_text(
                    model@,
                    filename@,
                    document.len() as nat,
                    s.len() as nat,
                    u.len() as nat,
                )),
            !self.dry_run ==> (r matches ReviewStep::Send(q) && q.model@ == model@ && q.system@
                == SYSTEM_PROMPT@ && q.user@ == user_prompt(
                document@,
                filename@,
                kind_text(*self),
                focus_text(*self),
            ) && q.timeout_secs == match self.timeout_secs {
                Some(t) => t,
                None => DEFAULT_TIMEOUT_SECS,
            }),
    {
        let kind = match &self.kind {
            Some(k) => Some(k.as_str()),
            None => None,
        };
        let focus = match &self.review_focus {
            Some(f) => Some(f.as_str()),
            None => None,
        };
        let (system, user) = match build_prompt(document, filename, kind, focus) {
            Ok(p) => p,
            Err(_) => {
                proof {
                    assert(false);
                }
                (String::new(), String::new())
            },
        };
        if self.dry_run {
            let s = system.as_str();
            let u = user.as_str();
            let t = dry_run_report(model, filename, document, s, u);
            proof {
                assert(s@ == SYSTEM_PROMPT@ && u@ == user_prompt(
                    document@,
                    filename@,
                    kind_text(*self),
                    focus_text(*self),
                ) && t@ == dry_run_text(
                    model@,
                    filename@,
                    document.len() as nat,
                    s.len() as nat,
                    u.len() as nat,
                ));
            }
            ReviewStep::Report(t)
        } else {
            ReviewStep::Send(
                ChatRequest {
                    model: String::from_str(model),
                    system,
                    user,
                    timeout_secs: self.timeout(),
                },
            )
        }
    }
}

} // verus!

verus! {

/// One run of a repeated review: its result, if it succeeded, and how long
/// it took, in milliseconds.
pub struct RunRecord {
    pub markdown: Option<String>,
    pub duration_ms: u64,
}

/// The results of the runs that succeeded, in run order.
pub open spec fn ok_texts(rs: Seq<RunRecord>) -> Seq<Seq<char>>
    decreases rs.len(),
{
    if rs.len() == 0 {
        Seq::empty()
    } else {
        let p = ok_texts(rs.drop_last());
        match rs.last().markdown {
            Some(m) => p.push(m@),
            None => p,
        }
    }
}

/// The durations of the runs that succeeded, in run order.
pub open spec fn ok_durations(rs: Seq<RunRecord>) -> Seq<u64>
    decreases rs.len(),
{
    if rs.len() == 0 {
        Seq::empty()
    } else {
        let p = ok_durations(rs.drop_last());
        match rs.last().markdown {
            Some(_) => p.push(rs.last().duration_ms),
            None => p,
        }
    }
}

pub open spec fn run_heading(i: nat) -> Seq<char> {
    "## Run "@ + decimal(i) + "\n\n"@
}

/// The results of the runs one after another, each under its heading.
pub open spec fn runs_joined(texts: Seq<Seq<char>>) -> Seq<char>
    decreases texts.len(),
{
    if texts.len() == 0 {
        Seq::empty()
    } else if texts.len() == 1 {
        run_heading(1) + texts[0]
    } else {
        runs_joined(texts.drop_last()) + "\n---\n\n"@ + run_heading(texts.len()) + texts.last()
    }
}

pub open spec fn sum_ms(ds: Seq<u64>) -> nat
    decreases ds.len(),
{
    if ds.len() == 0 {
        0
    } else {
        sum_ms(ds.drop_last()) + ds.last() as nat
    }
}

/// Milliseconds in tenths of a second, halves rounded up.
pub open spec fn ms_tenths(ms: nat) -> nat {
    ms / 100 + if ms % 100 >= 50 {
        1nat
    } else {
        0nat
    }
}

/// The mean of `n` durations of `total` milliseconds, in tenths of a
/// second, halves rounded up; nothing is no time.
pub open spec fn mean_tenths(total: nat, n: nat) -> nat {
    if n == 0 {
        0
    } else {
        total / (100 * n) + if 2 * (total % (100 * n)) >= 100 * n {
            1nat
        } else {
            0nat
        }
    }
}

/// Tenths of a second written with one decimal.
pub open spec fn tenths_text(t: nat) -> Seq<char> {
    decimal(t / 10) + "."@ + decimal(t % 10)
}

pub open spec fn metric_rows(ds: Seq<u64>) -> Seq<char>
    decreases ds.len(),
{
    if ds.len() == 0 {
        Seq::empty()
    } else {
        metric_rows(ds.drop_last()) + "| "@ + decimal(ds.len()) + " | "@ + tenths_text(
            ms_tenths(ds.last() as nat),
        ) + "s | ✓ |\n"@
    }
}

pub open spec fn all_runs(texts: Seq<Seq<char>>) -> Seq<char>
    decreases texts.len(),
{
    if texts.len() == 0 {
        Seq::empty()
    } else {
        all_runs(texts.drop_last()) + "### Run "@ + decimal(texts.len()) + "\n\n"@ + texts.last()
            + "\n\n"@
    }
}

/// The consistency report of the runs that succeeded: how many there were,
/// their mean duration, optionally a table of each duration, then every
/// result.
pub open spec fn validation_text(texts: Seq<Seq<char>>, ds: Seq<u64>, show_metrics: bool) -> Seq<
    char,
> {
    "## Validation Report\n\n- **Total Runs**: "@ + decimal(texts.len())
        + "\n- **Average Duration**: "@ + tenths_text(mean_tenths(sum_ms(ds), ds.len()))
        + "s\n"@ + (if show_metrics {
        "\n## Run Metrics\n\n| Run | Duration | Status |\n|-----|----------|--------|\n"@
            + metric_rows(ds)
    } else {
        Seq::empty()
    }) + "\n## All Runs\n\n"@ + all_runs(texts)
}

fn tenths_string(t: u64) -> (r: String)
    ensures
        r@ == tenths_text(t as nat),
{
    let mut out = decimal_text(t / 10);
    out.append(".");
    out.append(decimal_text(t % 10).as_str());
    out
}

fn round_tenths(ms: u64) -> (r: u64)
    ensures
        r == ms_tenths(ms as nat),
{
    if ms % 100 >= 50 {
        ms / 100 + 1
    } else {
        ms / 100
    }
}

fn mean_duration_tenths(ds: &Vec<u64>) -> (r: u64)
    ensures
        r == mean_tenths(sum_ms(ds@), ds@.len()),
{
    let n = ds.len();
    let mut total: u128 = 0;
    let mut i: usize = 0;
    while i < n
        invariant
            n == ds@.len(),
            i <= n,
            total == sum_ms(ds@.subrange(0, i as int)),
            total <= i * 0xffff_ffff_ffff_ffffu128,
        decreases n - i,
    {
        assert(ds@.subrange(0, i + 1).drop_last() =~= ds@.subrange(0, i as int));
        total = total + ds[i] as u128;
        i = i + 1;
    }
    assert(ds@.subrange(0, n as int) =~= ds@);
    if n == 0 {
        return 0;
    }
    let d: u128 = 100 * (n as u128);
    let q = total / d;
    let rem = total % d;
    assert(q <= 0xffff_ffff_ffff_ffffu128 / 100) by (nonlinear_arith)
        requires
            q == total / d,
            d == 100 * n,
            n >= 1,
            total <= n * 0xffff_ffff_ffff_ffffu128,
    ;
    if 2 * rem >= d {
        (q + 1) as u64
    } else {
        q as u64
    }
}

/// The results of several runs, each under a heading of its own.
pub fn format_runs(texts: &Vec<String>) -> (r: String)
    ensures
        r@ == runs_joined(views(texts@)),
{
    let mut out = String::new();
    let mut i: usize = 0;
    while i < texts.len()
        invariant
            i <= texts@.len(),
            out@ == runs_joined(views(texts@.subrange(0, i as int))),
        decreases texts@.len() - i,
    {
        let ghost before = views(texts@.subrange(0, i as int));
        let ghost after = views(texts@.subrange(0, i + 1));
        assert(after.drop_last() =~= before);
        assert(after.last() == texts@[i as int]@);
        if i > 0 {
            out.append("\n---\n\n");
        } else {
            assert(after =~= seq![texts@[0]@]);
        }
        out.append("## Run ");
        out.append(decimal_text((i + 1) as u64).as_str());
        out.append("\n\n");
        out.append(texts[i].as_str());
        i = i + 1;
    }
    assert(texts@.subrange(0, texts@.len() as int) =~= texts@);
    out
}

/// The consistency report of several runs.
pub fn format_validation_report(texts: &Vec<String>, durations: &Vec<u64>, show_metrics: bool) -> (r:
    String)
    ensures
        r@ == validation_text(views(texts@), durations@, show_metrics),
{
    let mut out = String::from_str("## Validation Report\n\n- **Total Runs**: ");
    out.append(decimal_text(texts.len() as u64).as_str());
    out.append("\n- **Average Duration**: ");
    out.append(tenths_string(mean_duration_tenths(durations)).as_str());
    out.append("s\n");
    let ghost head = out@;
    if show_metrics {
        out.append("\n## Run Metrics\n\n| Run | Duration | Status |\n|-----|----------|--------|\n");
        let mut i: usize = 0;
        let ghost top = out@;
        while i < durations.len()
            invariant
                i <= durations@.len(),
                out@ == top + metric_rows(durations@.subrange(0, i as int)),
            decreases durations@.len() - i,
        {
            let ghost sub = durations@.subrange(0, i + 1);
            assert(sub.drop_last() =~= durations@.subrange(0, i as int));
            out.append("| ");
            out.append(decimal_text((i + 1) as u64).as_str());
            out.append(" | ");
            out.append(tenths_string(round_tenths(durations[i])).as_str());
            out.append("s | ✓ |\n");
            i = i + 1;
        }
        assert(durations@.subrange(0, durations@.len() as int) =~= durations@);
    }
    out.append("\n## All Runs\n\n");
    let ghost mid = out@;
    let mut j: usize = 0;
    while j < texts.len()
        invariant
            j <= texts@.len(),
            out@ == mid + all_runs(views(texts@.subrange(0, j as int))),
        decreases texts@.len() - j,
    {
        let ghost before = views(texts@.subrange(0, j as int));
        let ghost after = views(texts@.subrange(0, j + 1));
        assert(after.drop_last() =~= before);
        assert(after.last() == texts@[j as int]@);
        out.append("### Run ");
        out.append(decimal_text((j + 1) as u64).as_str());
        out.append("\n\n");
        out.append(texts[j].as_str());
        out.append("\n\n");
        j = j + 1;
    }
    assert(texts@.subrange(0, texts@.len() as int) =~= texts@);
    out
}

} // verus!

verus! {

/// The outcome of a repeated review: an error when no run succeeded, else
/// the consistency report (when asked for) or the results one after
/// another.
pub open spec fn runs_outcome(rs: Seq<RunRecord>, validation_mode: bool, show_metrics: bool) -> Option<
    Seq<char>,
> {
    if ok_texts(rs).len() == 0 {
        None
    } else if validation_mode {
        Some(validation_text(ok_texts(rs), ok_durations(rs), show_metrics))
    } else {
        Some(runs_joined(ok_texts(rs)))
    }
}

proof fn lemma_ok_lengths(rs: Seq<RunRecord>)
    ensures
        ok_texts(rs).len() == ok_durations(rs).len(),
    decreases rs.len(),
{
    if rs.len() > 0 {
        lemma_ok_lengths(rs.drop_last());
    }
}

/// Sums up the runs of one file; failed runs are left out, and a file
/// none of whose runs succeeded has failed.
pub fn summarize_runs(records: &Vec<RunRecord>, validation_mode: bool, show_metrics: bool) -> (r:
    Result<String, ReviewError>)
    ensures
        match runs_outcome(records@, validation_mode, show_metrics) {
            None => r matches Err(ReviewError::AllRunsFailed),
            Some(t) => r matches Ok(s) && s@ == t,
        },
{
    let mut texts: Vec<String> = Vec::new();
    let mut durations: Vec<u64> = Vec::new();
    let mut i: usize = 0;
    while i < records.len()
        invariant
            i <= records@.len(),
            views(texts@) == ok_texts(records@.subrange(0, i as int)),
            durations@ == ok_durations(records@.subrange(0, i as int)),
        decreases records@.len() - i,
    {
        let ghost sub = records@.subrange(0, i + 1);
        assert(sub.drop_last() =~= records@.subrange(0, i as int));
        assert(sub.last() == records@[i as int]);
        match &records[i].markdown {
            Some(m) => {
                let ghost before = texts@;
                texts.push(copy_text(m));
                durations.push(records[i].duration_ms);
                assert(views(texts@) =~= views(before).push(m@));
            },
            None => {},
        }
        i = i + 1;
    }
    assert(records@.subrange(0, records@.len() as int) =~= records@);
    if texts.len() == 0 {
        return Err(ReviewError::AllRunsFailed);
    }
    if validation_mode {
        Ok(format_validation_report(&texts, &durations, show_metrics))
    } else {
        Ok(format_runs(&texts))
    }
}

/// A reviewed file's section of the batch document.
pub open spec fn file_section(name: Seq<char>, markdown: Seq<char>) -> Seq<char> {
    "### "@ + name + "\n\n"@ + markdown
}

/// The sections one after another, each followed by a blank line.
pub open spec fn concat_sections(secs: Seq<Seq<char>>) -> Seq<char>
    decreases secs.len(),
{
    if secs.len() == 0 {
        Seq::empty()
    } else {
        concat_sections(secs.drop_last()) + secs.last() + "\n\n"@
    }
}

/// The document of a batch: its title and the sections of the files that
/// were reviewed, or a marker that no review came out of it.
pub open spec fn batch_document(title: Seq<char>, secs: Seq<Seq<char>>) -> Seq<char> {
    if secs.len() == 0 {
        "# No Reviews Generated\n\n"@
    } else {
        "# "@ + title + "\n\n"@ + concat_sections(secs)
    }
}

/// The sections of the files of a batch whose review succeeded, in the
/// order in which the files were taken.
pub struct BatchReport {
    pub sections: Vec<String>,
}

impl BatchReport {
    pub fn new() -> (r: BatchReport)
        ensures
            r.sections@.len() == 0,
    {
        BatchReport { sections: Vec::new() }
    }

    /// Adds the review of one file after those already there.
    pub fn add_review(&mut self, file_name: &str, markdown: &str)
        ensures
            views(final(self).sections@) == views(old(self).sections@).push(
                file_section(file_name@, markdown@),
            ),
    {
        let ghost before = self.sections@;
        let mut s = String::from_str("### ");
        s.append(file_name);
        s.append("\n\n");
        s.append(markdown);
        self.sections.push(s);
        assert(views(self.sections@) =~= views(before).push(
            file_section(file_name@, markdown@),
        ));
    }

    /// The document of the batch under the given title.
    pub fn render(&self, title: &str) -> (r: String)
        ensures
            r@ == batch_document(title@, views(self.sections@)),
    {
        if self.sections.len() == 0 {
            return String::from_str("# No Reviews Generated\n\n");
        }
        let mut out = String::from_str("# ");
        out.append(title);
        out.append("\n\n");
        let ghost top = out@;
        let mut i: usize = 0;
        while i < self.sections.len()
            invariant
                i <= self.sections@.len(),
                out@ == top + concat_sections(
                    views(self.sections@.subrange(0, i as int)),
                ),
            decreases self.sections@.len() - i,
        {
            let ghost before = views(self.sections@.subrange(0, i as int));
            let ghost after = views(self.sections@.subrange(0, i + 1));
            assert(after.drop_last() =~= before);
            assert(after.last() == self.sections@[i as int]@);
            out.append(self.sections[i].as_str());
            out.append("\n\n");
            i = i + 1;
        }
        assert(self.sections@.subrange(0, self.sections@.len() as int) =~= self.sections@);
        out
    }
}

proof fn lemma_concat_append(a: Seq<Seq<char>>, b: Seq<Seq<char>>)
    ensures
        concat_sections(a + b) == concat_sections(a) + concat_sections(b),
    decreases b.len(),
{
    if b.len() == 0 {
        assert(a + b =~= a);
        assert(concat_sections(a) + Seq::<char>::empty() =~= concat_sections(a));
    } else {
        assert((a + b).drop_last() =~= a + b.drop_last());
        lemma_concat_append(a, b.drop_last());
        assert((a + b).last() == b.last());
        assert(concat_sections(a + b) =~= concat_sections(a) + concat_sections(b));
    }
}

/// The document keeps the files in the order in which they were reviewed:
/// each section stands right after those of the files before it, so the
/// place where a section starts grows with its position in the batch.
pub proof fn lemma_sections_in_order(title: Seq<char>, secs: Seq<Seq<char>>, k: int)
    requires
        0 <= k < secs.len(),
    ensures
        batch_document(title, secs) == "# "@ + title + "\n\n"@ + concat_sections(
            secs.subrange(0, k),
        ) + secs[k] + "\n\n"@ + concat_sections(secs.subrange(k + 1, secs.len() as int)),
        k + 1 < secs.len() ==> concat_sections(secs.subrange(0, k + 1)).len() == concat_sections(
            secs.subrange(0, k),
        ).len() + secs[k].len() + 2,
{
    let pre = secs.subrange(0, k);
    let post = secs.subrange(k + 1, secs.len() as int);
    assert(secs =~= pre + seq![secs[k]] + post);
    lemma_concat_append(pre + seq![secs[k]], post);
    lemma_concat_append(pre, seq![secs[k]]);
    assert(seq![secs[k]].drop_last() =~= Seq::<Seq<char>>::empty());
    assert(concat_sections(Seq::<Seq<char>>::empty()) =~= Seq::<char>::empty());
    assert(seq![secs[k]].last() == secs[k]);
    assert(Seq::<char>::empty() + secs[k] =~= secs[k]);
    assert(concat_sections(seq![secs[k]]) =~= secs[k] + "\n\n"@);
    assert(secs.subrange(0, k + 1) =~= pre + seq![secs[k]]);
    reveal_strlit("\n\n");
    assert(batch_document(title, secs) =~= "# "@ + title + "\n\n"@ + concat_sections(pre)
        + secs[k] + "\n\n"@ + concat_sections(post));
}

} // verus!

verus! {

/// How a batch begins: with nothing to review, and a message that says so;
/// with a model that cannot be chosen, which ends the batch before any file
/// is read; or with the review of its files on the chosen model.
pub enum BatchStart {
    NothingFound(String),
    Fatal(SelectError),
    Review { count: usize, selection: Selection },
}

pub open spec fn nothing_found_text(mode: DiscoveryMode) -> Seq<char> {
    match mode {
        DiscoveryMode::GitDiff => "No changed files found"@,
        DiscoveryMode::Files(_) => "No files specified"@,
        DiscoveryMode::Dir { root, pattern } => "No files found matching pattern '"@ + pattern@
            + "' in "@ + root@,
    }
}

/// Decides how a batch begins. An empty batch ends at once with its own
/// message: no model is chosen and nothing is sent. Otherwise the model is
/// chosen once, for the size of the batch, and a failure to choose it is
/// fatal to the whole batch.
pub fn start_batch(
    mode: &DiscoveryMode,
    files: &Vec<String>,
    req: &ModelRequest,
    registry: &Result<ModelRegistry, String>,
) -> (r: BatchStart)
    ensures
        files@.len() == 0 ==> (r matches BatchStart::NothingFound(m) && m@ == nothing_found_text(
            *mode,
        )),
        files@.len() > 0 ==> match adaptive_outcome(*req, *registry, files@.len()) {
            Err(e) => r matches BatchStart::Fatal(x) && x@ == e,
            Ok((m, n)) => r matches BatchStart::Review { count, selection } && count
                == files@.len() && selection.model@ == m && notice_view(selection.notice) == n,
        },
{
    if files.len() > 0 {
        return match select_model_adaptive(req, registry, files.len()) {
            Ok(selection) => BatchStart::Review { count: files.len(), selection },
            Err(e) => BatchStart::Fatal(e),
        };
    }
    let m = match mode {
        DiscoveryMode::GitDiff => String::from_str("No changed files found"),
        DiscoveryMode::Files(_) => String::from_str("No files specified"),
        DiscoveryMode::Dir { root, pattern } => {
            let mut m = String::from_str("No files found matching pattern '");
            m.append(pattern.as_str());
            m.append("' in ");
            m.append(root.as_str());
            m
        },
    };
    BatchStart::NothingFound(m)
}

/// The line that announces the review of a batch of `n` files.
pub fn review_banner(mode: &DiscoveryMode, n: usize) -> (r: String)
    ensures
        mode is GitDiff ==> r@ == "Reviewing "@ + decimal(n as nat) + " changed file(s)..."@,
        !(mode is GitDiff) ==> r@ == "Reviewing "@ + decimal(n as nat) + " file(s)..."@,
{
    let mut out = String::from_str("Reviewing ");
    out.append(decimal_text(n as u64).as_str());
    match mode {
        DiscoveryMode::GitDiff => out.append(" changed file(s)..."),
        _ => out.append(" file(s)..."),
    }
    out
}

/// The sections of the files whose review succeeded, in the order of the
/// batch; a failed file is left out and the others go on.
pub open spec fn reviewed_sections(outs: Seq<(String, Result<String, ReviewError>)>) -> Seq<
    Seq<char>,
>
    decreases outs.len(),
{
    if outs.len() == 0 {
        Seq::empty()
    } else {
        let rest = reviewed_sections(outs.drop_last());
        match outs.last().1 {
            Ok(md) => rest.push(file_section(outs.last().0@, md@)),
            Err(_) => rest,
        }
    }
}

/// Builds the report of a batch from the outcome of each file, in the
/// order of the batch.
pub fn collect_reviews(outcomes: &Vec<(String, Result<String, ReviewError>)>) -> (r: BatchReport)
    ensures
        views(r.sections@) == reviewed_sections(outcomes@),
{
    let mut batch = BatchReport::new();
    let mut i: usize = 0;
    while i < outcomes.len()
        invariant
            i <= outcomes@.len(),
            views(batch.sections@) == reviewed_sections(outcomes@.subrange(0, i as int)),
        decreases outcomes@.len() - i,
    {
        let ghost sub = outcomes@.subrange(0, i + 1);
        assert(sub.drop_last() =~= outcomes@.subrange(0, i as int));
        assert(sub.last() == outcomes@[i as int]);
        match &outcomes[i].1 {
            Ok(md) => batch.add_review(outcomes[i].0.as_str(), md.as_str()),
            Err(_) => {},
        }
        i = i + 1;
    }
    assert(outcomes@.subrange(0, outcomes@.len() as int) =~= outcomes@);
    batch
}

proof fn lemma_reviewed_append(
    a: Seq<(String, Result<String, ReviewError>)>,
    b: Seq<(String, Result<String, ReviewError>)>,
)
    ensures
        reviewed_sections(a + b) == reviewed_sections(a) + reviewed_sections(b),
    decreases b.len(),
{
    if b.len() == 0 {
        assert(a + b =~= a);
        assert(reviewed_sections(a) + Seq::<Seq<char>>::empty() =~= reviewed_sections(a));
    } else {
        assert((a + b).drop_last() =~= a + b.drop_last());
        lemma_reviewed_append(a, b.drop_last());
        assert((a + b).last() == b.last());
        assert(reviewed_sections(a + b) =~= reviewed_sections(a) + reviewed_sections(b));
    }
}

/// The report keeps the order of the batch: the section of a file that was
/// reviewed stands after the sections of every file before it and before
/// the sections of every file after it.
pub proof fn lemma_reviews_keep_order(outs: Seq<(String, Result<String, ReviewError>)>, k: int)
    requires
        0 <= k < outs.len(),
        outs[k].1 is Ok,
    ensures
        reviewed_sections(outs) == reviewed_sections(outs.subrange(0, k)) + seq![
            file_section(outs[k].0@, outs[k].1->Ok_0@),
        ] + reviewed_sections(outs.subrange(k + 1, outs.len() as int)),
{
    let pre = outs.subrange(0, k);
    let post = outs.subrange(k + 1, outs.len() as int);
    let one = seq![outs[k]];
    assert(outs =~= pre + one + post);
    lemma_reviewed_append(pre + one, post);
    lemma_reviewed_append(pre, one);
    assert(one.drop_last() =~= Seq::<(String, Result<String, ReviewError>)>::empty());
    assert(reviewed_sections(Seq::<(String, Result<String, ReviewError>)>::empty()) =~= Seq::<
        Seq<char>,
    >::empty());
    assert(one.last() == outs[k]);
    assert(Seq::<Seq<char>>::empty().push(file_section(outs[k].0@, outs[k].1->Ok_0@)) =~= seq![
        file_section(outs[k].0@, outs[k].1->Ok_0@),
    ]);
    assert(reviewed_sections(one) =~= seq![file_section(outs[k].0@, outs[k].1->Ok_0@)]);
}

/// The title of a batch's document.
pub fn batch_title(mode: &DiscoveryMode) -> (r: String)
    ensures
        mode is GitDiff ==> r@ == "Git Diff Review"@,
        !(mode is GitDiff) ==> r@ == "Code Review"@,
{
    match mode {
        DiscoveryMode::GitDiff => String::from_str("Git Diff Review"),
        _ => String::from_str("Code Review"),
    }
}

} // verus!
