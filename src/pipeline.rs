//! The background job pipeline as a state machine: fetch the transcript
//! (unless stored), save it, optionally generate and save the report, then
//! complete. Each step says what work to do next and which progress messages
//! to send; the first failure ends the job.
use vstd::prelude::*;
use crate::text::push_str;

verus! {

/// A message from a background job to the main loop.
#[derive(Debug, Clone, PartialEq, Eq)]
pub enum ProgressMessage {
    /// Fraction done in thousandths; the receiver clamps it.
    Progress(i64),
    Status(String),
    Log(String),
    Complete,
    Failed(String),
}

/// A progress message tagged with the job that sent it.
#[derive(Debug, Clone, PartialEq, Eq)]
pub struct JobMessage {
    pub job_id: u64,
    pub message: ProgressMessage,
}

/// A progress message as mathematical values.
pub enum MessageView {
    Progress(i64),
    Status(Seq<char>),
    Log(Seq<char>),
    Complete,
    Failed(Seq<char>),
}

impl View for ProgressMessage {
    type V = MessageView;

    open spec fn view(&self) -> MessageView {
        match self {
            ProgressMessage::Progress(p) => MessageView::Progress(*p),
            ProgressMessage::Status(s) => MessageView::Status(s@),
            ProgressMessage::Log(s) => MessageView::Log(s@),
            ProgressMessage::Complete => MessageView::Complete,
            ProgressMessage::Failed(s) => MessageView::Failed(s@),
        }
    }
}

pub open spec fn msgs_view(v: Seq<ProgressMessage>) -> Seq<MessageView> {
    v.map_values(|m: ProgressMessage| m@)
}

/// What the job is waiting for.
#[derive(Debug, Clone, Copy, PartialEq, Eq, Structural)]
pub enum JobStage {
    Fetching,
    SavingTranscript,
    Generating,
    SavingReport,
    Finished,
}

/// The work the runner performs next.
#[derive(Debug, Clone, Copy, PartialEq, Eq, Structural)]
pub enum JobWork {
    FetchTranscript,
    SaveTranscript,
    GenerateReport,
    SaveReport,
    Nothing,
}

/// One job's progress through the pipeline.
#[derive(Debug, Clone, Copy, PartialEq, Eq)]
pub struct Job {
    pub stage: JobStage,
    /// A report is to be generated and saved.
    pub needs_report: bool,
}

pub open spec fn begin_msgs() -> Seq<MessageView> {
    seq![
        MessageView::Status("Starting processing..."@),
        MessageView::Progress(100),
        MessageView::Log("Extracting video ID..."@),
    ]
}

pub open spec fn fetch_msgs() -> Seq<MessageView> {
    seq![
        MessageView::Status("Downloading transcript..."@),
        MessageView::Progress(250),
        MessageView::Log("Fetching transcript..."@),
    ]
}

pub open spec fn generate_msgs() -> Seq<MessageView> {
    seq![
        MessageView::Status("Generating report..."@),
        MessageView::Progress(700),
        MessageView::Log("Generating report..."@),
    ]
}

pub open spec fn complete_msgs() -> Seq<MessageView> {
    seq![MessageView::Progress(1000), MessageView::Status("Completed"@), MessageView::Complete]
}

/// What a stage is doing, for error messages.
pub open spec fn stage_text(stage: JobStage) -> Seq<char> {
    match stage {
        JobStage::Fetching => "fetching transcript"@,
        JobStage::SavingTranscript => "saving transcript"@,
        JobStage::Generating => "generating report"@,
        JobStage::SavingReport => "saving report"@,
        JobStage::Finished => "finishing"@,
    }
}

pub open spec fn fail_msgs(stage: JobStage, e: Seq<char>) -> Seq<MessageView> {
    seq![
        MessageView::Log("Error "@ + stage_text(stage) + ": "@ + e),
        MessageView::Status("Error "@ + stage_text(stage)),
        MessageView::Failed(e),
    ]
}

/// How a job starts, given what is already stored and whether a report was
/// asked for: the first stage, the messages, and the first work.
pub open spec fn start_spec(transcript_exists: bool, report_exists: bool, want_report: bool) -> (
    Job,
    Seq<MessageView>,
    JobWork,
) {
    let needs = want_report && !report_exists;
    if !transcript_exists {
        (
            Job { stage: JobStage::Fetching, needs_report: needs },
            begin_msgs() + fetch_msgs(),
            JobWork::FetchTranscript,
        )
    } else if needs {
        (
            Job { stage: JobStage::Generating, needs_report: needs },
            begin_msgs() + seq![MessageView::Log("Transcript already saved. Skipping download."@)]
                + generate_msgs(),
            JobWork::GenerateReport,
        )
    } else {
        (
            Job { stage: JobStage::Finished, needs_report: needs },
            begin_msgs() + seq![
                MessageView::Log("Transcript already exists locally. Skipping processing."@),
            ] + complete_msgs(),
            JobWork::Nothing,
        )
    }
}

/// How a job moves on once the current work succeeded (`None`) or failed
/// with a message.
pub open spec fn advance_spec(job: Job, failure: Option<Seq<char>>) -> (JobStage, Seq<MessageView>, JobWork) {
    match failure {
        Some(e) => if job.stage == JobStage::Finished {
            (JobStage::Finished, Seq::empty(), JobWork::Nothing)
        } else {
            (JobStage::Finished, fail_msgs(job.stage, e), JobWork::Nothing)
        },
        None => match job.stage {
            JobStage::Fetching => (
                JobStage::SavingTranscript,
                seq![
                    MessageView::Progress(500),
                    MessageView::Log("Successfully fetched transcript!"@),
                    MessageView::Log("Saving transcript to file..."@),
                ],
                JobWork::SaveTranscript,
            ),
            JobStage::SavingTranscript => if job.needs_report {
                (
                    JobStage::Generating,
                    seq![
                        MessageView::Progress(600),
                        MessageView::Log("Transcript saved successfully!"@),
                    ] + generate_msgs(),
                    JobWork::GenerateReport,
                )
            } else {
                (
                    JobStage::Finished,
                    seq![
                        MessageView::Progress(600),
                        MessageView::Log("Transcript saved successfully!"@),
                    ] + complete_msgs(),
                    JobWork::Nothing,
                )
            },
            JobStage::Generating => (
                JobStage::SavingReport,
                seq![
                    MessageView::Progress(900),
                    MessageView::Log("Report generated successfully!"@),
                    MessageView::Log("Saving report to file..."@),
                ],
                JobWork::SaveReport,
            ),
            JobStage::SavingReport => (
                JobStage::Finished,
                seq![MessageView::Log("Report saved successfully!"@)] + complete_msgs(),
                JobWork::Nothing,
            ),
            JobStage::Finished => (JobStage::Finished, Seq::empty(), JobWork::Nothing),
        },
    }
}

fn status(s: &str) -> (r: ProgressMessage)
    ensures
        r@ == MessageView::Status(s@),
{
    ProgressMessage::Status(s.to_owned())
}

fn log(s: &str) -> (r: ProgressMessage)
    ensures
        r@ == MessageView::Log(s@),
{
    ProgressMessage::Log(s.to_owned())
}

fn push_msg(v: &mut Vec<ProgressMessage>, m: ProgressMessage)
    ensures
        msgs_view(final(v)@) == msgs_view(old(v)@).push(m@),
{
    v.push(m);
    assert(msgs_view(v@) =~= msgs_view(old(v)@).push(m@));
}

fn push_begin(v: &mut Vec<ProgressMessage>)
    ensures
        msgs_view(final(v)@) == msgs_view(old(v)@) + begin_msgs(),
{
    push_msg(v, status("Starting processing..."));
    push_msg(v, ProgressMessage::Progress(100));
    push_msg(v, log("Extracting video ID..."));
    assert(msgs_view(v@) =~= msgs_view(old(v)@) + begin_msgs());
}

fn push_fetch(v: &mut Vec<ProgressMessage>)
    ensures
        msgs_view(final(v)@) == msgs_view(old(v)@) + fetch_msgs(),
{
    push_msg(v, status("Downloading transcript..."));
    push_msg(v, ProgressMessage::Progress(250));
    push_msg(v, log("Fetching transcript..."));
    assert(msgs_view(v@) =~= msgs_view(old(v)@) + fetch_msgs());
}

fn push_generate(v: &mut Vec<ProgressMessage>)
    ensures
        msgs_view(final(v)@) == msgs_view(old(v)@) + generate_msgs(),
{
    push_msg(v, status("Generating report..."));
    push_msg(v, ProgressMessage::Progress(700));
    push_msg(v, log("Generating report..."));
    assert(msgs_view(v@) =~= msgs_view(old(v)@) + generate_msgs());
}

fn push_complete(v: &mut Vec<ProgressMessage>)
    ensures
        msgs_view(final(v)@) == msgs_view(old(v)@) + complete_msgs(),
{
    push_msg(v, ProgressMessage::Progress(1000));
    push_msg(v, status("Completed"));
    push_msg(v, ProgressMessage::Complete);
    assert(msgs_view(v@) =~= msgs_view(old(v)@) + complete_msgs());
}

fn stage_name(stage: JobStage) -> (r: &'static str)
    ensures
        r@ == stage_text(stage),
{
    match stage {
        JobStage::Fetching => "fetching transcript",
        JobStage::SavingTranscript => "saving transcript",
        JobStage::Generating => "generating report",
        JobStage::SavingReport => "saving report",
        JobStage::Finished => "finishing",
    }
}

impl Job {
    /// Starts a job; returns it with the messages to send and the first work.
    pub fn start(transcript_exists: bool, report_exists: bool, want_report: bool) -> (r: (
        Job,
        Vec<ProgressMessage>,
        JobWork,
    ))
        ensures
            (r.0, msgs_view(r.1@), r.2) == start_spec(transcript_exists, report_exists, want_report),
    {
        let needs = want_report && !report_exists;
        let mut v: Vec<ProgressMessage> = Vec::new();
        assert(msgs_view(v@) =~= Seq::<MessageView>::empty());
        push_begin(&mut v);
        if !transcript_exists {
            push_fetch(&mut v);
            (Job { stage: JobStage::Fetching, needs_report: needs }, v, JobWork::FetchTranscript)
        } else if needs {
            push_msg(&mut v, log("Transcript already saved. Skipping download."));
            push_generate(&mut v);
            (Job { stage: JobStage::Generating, needs_report: needs }, v, JobWork::GenerateReport)
        } else {
            push_msg(&mut v, log("Transcript already exists locally. Skipping processing."));
            push_complete(&mut v);
            (Job { stage: JobStage::Finished, needs_report: needs }, v, JobWork::Nothing)
        }
    }

    /// Moves the job on after its current work: `Ok` when the work succeeded,
    /// `Err` with the failure's description otherwise. Returns the messages to
    /// send and the next work.
    pub fn advance(&mut self, outcome: Result<(), String>) -> (r: (Vec<ProgressMessage>, JobWork))
        ensures
            final(self).needs_report == old(self).needs_report,
            (final(self).stage, msgs_view(r.0@), r.1) == advance_spec(
                *old(self),
                match outcome {
                    Ok(_) => None,
                    Err(e) => Some(e@),
                },
            ),
    {
        let mut v: Vec<ProgressMessage> = Vec::new();
        assert(msgs_view(v@) =~= Seq::<MessageView>::empty());
        match outcome {
            Err(e) => {
                if matches!(self.stage, JobStage::Finished) {
                    return (v, JobWork::Nothing);
                }
                let what = stage_name(self.stage);
                let mut l = String::new();
                push_str(&mut l, "Error ");
                push_str(&mut l, what);
                push_str(&mut l, ": ");
                push_str(&mut l, e.as_str());
                let mut st = String::new();
                push_str(&mut st, "Error ");
                push_str(&mut st, what);
                push_msg(&mut v, ProgressMessage::Log(l));
                push_msg(&mut v, ProgressMessage::Status(st));
                push_msg(&mut v, ProgressMessage::Failed(e));
                assert(msgs_view(v@) =~= fail_msgs(old(self).stage, e@));
                self.stage = JobStage::Finished;
                (v, JobWork::Nothing)
            },
            Ok(_) => match self.stage {
                JobStage::Fetching => {
                    push_msg(&mut v, ProgressMessage::Progress(500));
                    push_msg(&mut v, log("Successfully fetched transcript!"));
                    push_msg(&mut v, log("Saving transcript to file..."));
                    self.stage = JobStage::SavingTranscript;
                    (v, JobWork::SaveTranscript)
                },
                JobStage::SavingTranscript => {
                    push_msg(&mut v, ProgressMessage::Progress(600));
                    push_msg(&mut v, log("Transcript saved successfully!"));
                    if self.needs_report {
                        push_generate(&mut v);
                        self.stage = JobStage::Generating;
                        (v, JobWork::GenerateReport)
                    } else {
                        push_complete(&mut v);
                        self.stage = JobStage::Finished;
                        (v, JobWork::Nothing)
                    }
                },
                JobStage::Generating => {
                    push_msg(&mut v, ProgressMessage::Progress(900));
                    push_msg(&mut v, log("Report generated successfully!"));
                    push_msg(&mut v, log("Saving report to file..."));
                    self.stage = JobStage::SavingReport;
                    (v, JobWork::SaveReport)
                },
                JobStage::SavingReport => {
                    push_msg(&mut v, log("Report saved successfully!"));
                    push_complete(&mut v);
                    self.stage = JobStage::Finished;
                    (v, JobWork::Nothing)
                },
                JobStage::Finished => (v, JobWork::Nothing),
            },
        }
    }
}

} // verus!
