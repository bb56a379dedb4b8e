//! Progress of a turn, as channels show it.

use vstd::prelude::*;
use crate::json::{group_json, or_null, Json, JsonView};
use crate::number::{decimal, decimal_text};
use crate::text::{cat2, cat3, cat4, opt_view, text_eq, trim, trimmed};

verus! {

broadcast use group_json;

#[derive(Clone, Copy, Debug, PartialEq, Eq, Structural)]
pub enum TurnProgressPhase {
    Thinking,
    Working,
    Done,
    Failed,
}

#[derive(Clone, Copy, Debug, PartialEq, Eq, Structural)]
pub enum TurnProgressPlanItemStatus {
    Pending,
    InProgress,
    Completed,
}

#[derive(Clone, Copy, Debug, PartialEq, Eq, Structural)]
pub enum ProgressFeedbackFinalState {
    Done,
    Failed,
}

#[derive(Debug)]
pub struct TurnProgressPlanItem {
    pub step: String,
    pub status: TurnProgressPlanItemStatus,
}

#[derive(Debug)]
pub struct TurnProgressPlan {
    pub explanation: Option<String>,
    pub items: Vec<TurnProgressPlanItem>,
}

#[derive(Debug)]
pub struct TurnProgress {
    pub phase: TurnProgressPhase,
    pub model: String,
    pub activity: String,
    pub hint: Option<String>,
    pub plan: Option<TurnProgressPlan>,
    pub error: Option<String>,
}

#[derive(Debug)]
pub struct OutgoingProgressFeedback {
    pub channel_id: String,
    pub platform_chat_id: String,
    pub turn_id: String,
    pub progress: TurnProgress,
    pub final_state: Option<ProgressFeedbackFinalState>,
    pub important: bool,
}

// ---------------------------------------------------------------------------
// Text
// ---------------------------------------------------------------------------
/// A label and a text, where there is one that is not blank.
pub open spec fn labelled(label: Seq<char>, t: Option<Seq<char>>) -> Seq<char> {
    match t {
        Some(s) => if trimmed(s).len() > 0 {
            label + trimmed(s)
        } else {
            Seq::empty()
        },
        None => Seq::empty(),
    }
}

fn append_labelled(text: &mut String, label: &str, t: &Option<String>)
    ensures
        final(text)@ == old(text)@ + labelled(label@, opt_view(*t)),
{
    match t {
        Some(s) => {
            let s: &str = trim(s.as_str());
            if !s.is_empty() {
                text.append(label);
                text.append(s);
                assert(text@ =~= old(text)@ + (label@ + s@));
            } else {
                assert(text@ =~= old(text)@ + Seq::<char>::empty());
            }
        },
        None => {
            assert(text@ =~= old(text)@ + Seq::<char>::empty());
        },
    }
}

pub open spec fn status_marker(status: TurnProgressPlanItemStatus) -> Seq<char> {
    match status {
        TurnProgressPlanItemStatus::Pending => "☐"@,
        TurnProgressPlanItemStatus::InProgress => "◐"@,
        TurnProgressPlanItemStatus::Completed => "☑"@,
    }
}

fn plan_status_marker(status: TurnProgressPlanItemStatus) -> (r: &'static str)
    ensures
        r@ == status_marker(status),
{
    match status {
        TurnProgressPlanItemStatus::Pending => "☐",
        TurnProgressPlanItemStatus::InProgress => "◐",
        TurnProgressPlanItemStatus::Completed => "☑",
    }
}

pub open spec fn plan_line(item: TurnProgressPlanItem) -> Seq<char> {
    if trimmed(item.step@).len() == 0 {
        Seq::empty()
    } else {
        "\n"@ + status_marker(item.status) + " "@ + trimmed(item.step@)
    }
}

/// The lines of the first `n` steps; blank steps are left out.
pub open spec fn plan_lines(items: Seq<TurnProgressPlanItem>, n: int) -> Seq<char>
    decreases n,
{
    if n <= 0 || n > items.len() {
        Seq::empty()
    } else {
        plan_lines(items, n - 1) + plan_line(items[n - 1])
    }
}

/// The plan below the text, if it says anything.
pub open spec fn plan_text(plan: Option<TurnProgressPlan>) -> Seq<char> {
    match plan {
        None => Seq::empty(),
        Some(p) => if p.explanation is None && p.items@.len() == 0 {
            Seq::empty()
        } else {
            "\n\n计划"@ + labelled("\n"@, opt_view(p.explanation)) + plan_lines(
                p.items@,
                p.items@.len() as int,
            )
        },
    }
}

fn append_progress_plan(text: &mut String, plan: &Option<TurnProgressPlan>)
    ensures
        final(text)@ == old(text)@ + plan_text(*plan),
{
    let plan: &TurnProgressPlan = match plan {
        Some(p) => p,
        None => {
            assert(text@ =~= old(text)@ + Seq::<char>::empty());
            return;
        },
    };
    if plan.explanation.is_none() && plan.items.len() == 0 {
        assert(text@ =~= old(text)@ + Seq::<char>::empty());
        return;
    }
    let ghost head = "\n\n计划"@ + labelled("\n"@, opt_view(plan.explanation));
    text.append("\n\n计划");
    append_labelled(text, "\n", &plan.explanation);
    assert(text@ =~= old(text)@ + (head + plan_lines(plan.items@, 0)));
    let mut i: usize = 0;
    while i < plan.items.len()
        invariant
            i <= plan.items@.len(),
            text@ == old(text)@ + (head + plan_lines(plan.items@, i as int)),
        decreases plan.items@.len() - i,
    {
        let item: &TurnProgressPlanItem = &plan.items[i];
        let step: &str = trim(item.step.as_str());
        if !step.is_empty() {
            let line: String = cat4("\n", plan_status_marker(item.status), " ", step);
            text.append(line.as_str());
        }
        assert(text@ =~= old(text)@ + (head + plan_lines(plan.items@, i + 1)));
        i += 1;
    }
}

/// The head of a progress message.
pub open spec fn progress_head(p: TurnProgress) -> Seq<char> {
    match p.phase {
        TurnProgressPhase::Thinking => "⚙️ 正在执行\n🤖 模型："@ + p.model@ + "\n🧠 状态："@ + p.activity@,
        TurnProgressPhase::Working => "⚙️ 正在执行\n🤖 模型："@ + p.model@ + "\n📌 阶段："@ + p.activity@,
        TurnProgressPhase::Done => "✅ 已完成\n🤖 模型："@ + p.model@,
        TurnProgressPhase::Failed => "❌ 本轮失败\n🤖 模型："@ + p.model@ + labelled(
            "\n📌 "@,
            opt_view(p.error),
        ),
    }
}

/// The text of a progress message.
pub open spec fn progress_text(p: TurnProgress) -> Seq<char> {
    progress_head(p) + labelled("\n\n💡 "@, opt_view(p.hint)) + plan_text(p.plan)
}

pub fn telegram_progress_text(progress: &TurnProgress) -> (r: String)
    ensures
        r@ == progress_text(*progress),
{
    let mut text: String = match progress.phase {
        TurnProgressPhase::Thinking => cat4(
            "⚙️ 正在执行\n🤖 模型：",
            progress.model.as_str(),
            "\n🧠 状态：",
            progress.activity.as_str(),
        ),
        TurnProgressPhase::Working => cat4(
            "⚙️ 正在执行\n🤖 模型：",
            progress.model.as_str(),
            "\n📌 阶段：",
            progress.activity.as_str(),
        ),
        TurnProgressPhase::Done => cat2("✅ 已完成\n🤖 模型：", progress.model.as_str()),
        TurnProgressPhase::Failed => {
            let mut t: String = cat2("❌ 本轮失败\n🤖 模型：", progress.model.as_str());
            append_labelled(&mut t, "\n📌 ", &progress.error);
            t
        },
    };
    append_labelled(&mut text, "\n\n💡 ", &progress.hint);
    append_progress_plan(&mut text, &progress.plan);
    text
}

// ---------------------------------------------------------------------------
// Durations
// ---------------------------------------------------------------------------
pub open spec fn two_digits(n: nat) -> Seq<char> {
    if n < 10 {
        "0"@ + decimal(n)
    } else {
        decimal(n)
    }
}

/// A duration in minutes and seconds; in seconds alone below a minute.
pub open spec fn duration_text(secs: nat) -> Seq<char> {
    if secs >= 60 {
        decimal(secs / 60) + "m"@ + two_digits(secs % 60) + "s"@
    } else {
        decimal(secs) + "s"@
    }
}

pub fn format_duration(total_secs: u64) -> (r: String)
    ensures
        r@ == duration_text(total_secs as nat),
{
    let minutes: u64 = total_secs / 60;
    let seconds: u64 = total_secs % 60;
    let tail: String = decimal_text(seconds);
    if minutes > 0 {
        let head: String = decimal_text(minutes);
        if seconds < 10 {
            let padded: String = cat2("0", tail.as_str());
            cat4(head.as_str(), "m", padded.as_str(), "s")
        } else {
            cat4(head.as_str(), "m", tail.as_str(), "s")
        }
    } else {
        cat2(tail.as_str(), "s")
    }
}

// ---------------------------------------------------------------------------
// Progress messages
// ---------------------------------------------------------------------------
/// A progress message that is shown; times are in milliseconds.
#[derive(Debug)]
pub struct ProgressMessage {
    pub message_id: i64,
    pub last_text: String,
    pub last_update_ms: u64,
    pub started_ms: u64,
}

/// The least time between two edits of a progress message, unless one is important.
pub const MIN_PROGRESS_EDIT_INTERVAL_MS: u64 = 1000;

/// What is done about a progress message.
#[derive(Debug)]
pub enum ProgressStep {
    /// Nothing is shown.
    Skip,
    /// A message is sent; it is kept for edits unless it is the last one.
    Send { text: String, keep: bool },
    /// The message is edited; `last` says that it is forgotten afterwards.
    Edit { message_id: i64, text: String, last: bool },
    /// The turn is done: the message gets its summary, if there is one, and is forgotten.
    Finish { edit: Option<(i64, String)> },
}

pub enum StepView {
    Skip,
    Send { text: Seq<char>, keep: bool },
    Edit { message_id: i64, text: Seq<char>, last: bool },
    Finish { edit: Option<(i64, Seq<char>)> },
}

impl ProgressStep {
    pub open spec fn view(self) -> StepView {
        match self {
            ProgressStep::Skip => StepView::Skip,
            ProgressStep::Send { text, keep } => StepView::Send { text: text@, keep },
            ProgressStep::Edit { message_id, text, last } => StepView::Edit {
                message_id,
                text: text@,
                last,
            },
            ProgressStep::Finish { edit } => StepView::Finish {
                edit: match edit {
                    Some((id, t)) => Some((id, t@)),
                    None => None,
                },
            },
        }
    }
}

pub open spec fn since(now_ms: u64, then_ms: u64) -> nat {
    if now_ms >= then_ms {
        (now_ms - then_ms) as nat
    } else {
        0
    }
}

/// What is done about a progress message: a done turn is summed up; a first message is
/// sent; later ones are edited, unless nothing changed or the last edit was just now.
/// The last message of a turn and important ones are never held back.
pub open spec fn progress_step(
    f: OutgoingProgressFeedback,
    existing: Option<ProgressMessage>,
    now_ms: u64,
) -> StepView {
    let text = progress_text(f.progress);
    let last = f.final_state is Some;
    if f.final_state == Some(ProgressFeedbackFinalState::Done) {
        StepView::Finish {
            edit: match existing {
                Some(e) => Some(
                    (
                        e.message_id,
                        text + "\n⏱️ 用时："@ + duration_text(since(now_ms, e.started_ms) / 1000),
                    ),
                ),
                None => None,
            },
        }
    } else {
        match existing {
            None => StepView::Send { text, keep: !last },
            Some(e) => if !last && (e.last_text@ == text || (!f.important && since(
                now_ms,
                e.last_update_ms,
            ) < MIN_PROGRESS_EDIT_INTERVAL_MS)) {
                StepView::Skip
            } else {
                StepView::Edit { message_id: e.message_id, text, last }
            },
        }
    }
}

fn elapsed(now_ms: u64, then_ms: u64) -> (r: u64)
    ensures
        r == since(now_ms, then_ms),
{
    if now_ms >= then_ms {
        now_ms - then_ms
    } else {
        0
    }
}

pub fn update_progress_feedback(
    feedback: &OutgoingProgressFeedback,
    existing: Option<&ProgressMessage>,
    now_ms: u64,
) -> (r: ProgressStep)
    ensures
        r@ == progress_step(
            *feedback,
            match existing {
                Some(e) => Some(*e),
                None => None,
            },
            now_ms,
        ),
{
    let text: String = telegram_progress_text(&feedback.progress);
    match feedback.final_state {
        Some(ProgressFeedbackFinalState::Done) => match existing {
            Some(e) => {
                let took: String = format_duration(elapsed(now_ms, e.started_ms) / 1000);
                let summary: String = cat3(text.as_str(), "\n⏱️ 用时：", took.as_str());
                ProgressStep::Finish { edit: Some((e.message_id, summary)) }
            },
            None => ProgressStep::Finish { edit: None },
        },
        _ => {
            let last: bool = feedback.final_state.is_some();
            match existing {
                None => ProgressStep::Send { text, keep: !last },
                Some(e) => {
                    if !last && (text_eq(e.last_text.as_str(), text.as_str()) || (
                    !feedback.important && elapsed(now_ms, e.last_update_ms)
                        < MIN_PROGRESS_EDIT_INTERVAL_MS)) {
                        ProgressStep::Skip
                    } else {
                        ProgressStep::Edit { message_id: e.message_id, text, last }
                    }
                },
            }
        },
    }
}

/// What is kept of a progress message once it was edited, or the edit failed: nothing
/// of the last one; after a failure what was kept before.
pub fn progress_after_edit(
    existing: ProgressMessage,
    text: String,
    last: bool,
    edited: bool,
    now_ms: u64,
) -> (r: Option<ProgressMessage>)
    ensures
        match r {
            None => last,
            Some(m) => !last && (if edited {
                m == (ProgressMessage { last_text: text, last_update_ms: now_ms, ..existing })
            } else {
                m == existing
            }),
        },
{
    if last {
        None
    } else if edited {
        Some(
            ProgressMessage {
                message_id: existing.message_id,
                last_text: text,
                last_update_ms: now_ms,
                started_ms: existing.started_ms,
            },
        )
    } else {
        Some(existing)
    }
}

/// The key under which the progress message of a turn is kept.
pub fn progress_message_key(platform_chat_id: &str, turn_id: &str) -> (r: String)
    ensures
        r@ == platform_chat_id@ + ":"@ + turn_id@,
{
    cat3(platform_chat_id, ":", turn_id)
}

/// The last message of a turn is always shown, and so is an important one that says
/// something new.
pub proof fn final_progress_is_never_skipped(
    f: OutgoingProgressFeedback,
    existing: Option<ProgressMessage>,
    now_ms: u64,
)
    ensures
        f.final_state is Some ==> !(progress_step(f, existing, now_ms) is Skip),
        f.important && (existing matches Some(e) ==> e.last_text@ != progress_text(f.progress))
            ==> !(progress_step(f, existing, now_ms) is Skip),
{
}

// ---------------------------------------------------------------------------
// Payloads
// ---------------------------------------------------------------------------
pub open spec fn phase_name(phase: TurnProgressPhase) -> Seq<char> {
    match phase {
        TurnProgressPhase::Thinking => "thinking"@,
        TurnProgressPhase::Working => "working"@,
        TurnProgressPhase::Done => "done"@,
        TurnProgressPhase::Failed => "failed"@,
    }
}

fn phase_label(phase: TurnProgressPhase) -> (r: &'static str)
    ensures
        r@ == phase_name(phase),
{
    match phase {
        TurnProgressPhase::Thinking => "thinking",
        TurnProgressPhase::Working => "working",
        TurnProgressPhase::Done => "done",
        TurnProgressPhase::Failed => "failed",
    }
}

pub open spec fn status_name(status: TurnProgressPlanItemStatus) -> Seq<char> {
    match status {
        TurnProgressPlanItemStatus::Pending => "pending"@,
        TurnProgressPlanItemStatus::InProgress => "in_progress"@,
        TurnProgressPlanItemStatus::Completed => "completed"@,
    }
}

fn status_label(status: TurnProgressPlanItemStatus) -> (r: &'static str)
    ensures
        r@ == status_name(status),
{
    match status {
        TurnProgressPlanItemStatus::Pending => "pending",
        TurnProgressPlanItemStatus::InProgress => "in_progress",
        TurnProgressPlanItemStatus::Completed => "completed",
    }
}

pub open spec fn final_state_name(state: Option<ProgressFeedbackFinalState>) -> Option<Seq<char>> {
    match state {
        Some(ProgressFeedbackFinalState::Done) => Some("done"@),
        Some(ProgressFeedbackFinalState::Failed) => Some("failed"@),
        None => None,
    }
}

pub open spec fn plan_item_json(item: TurnProgressPlanItem) -> JsonView {
    JsonView::empty_object().with("step"@, JsonView::Text(item.step@)).with(
        "status"@,
        JsonView::Text(status_name(item.status)),
    )
}

pub open spec fn plan_json(plan: Option<TurnProgressPlan>) -> JsonView {
    match plan {
        None => JsonView::Null,
        Some(p) => JsonView::empty_object().with("explanation"@, or_null(opt_view(p.explanation))).with(
            "items"@,
            JsonView::Array(p.items@.map_values(|i: TurnProgressPlanItem| plan_item_json(i))),
        ),
    }
}

fn plan_value(plan: &Option<TurnProgressPlan>) -> (r: Json)
    ensures
        r@ == plan_json(*plan),
{
    match plan {
        None => Json::Null,
        Some(p) => {
            let mut items: Vec<Json> = Vec::new();
            let ghost all = p.items@.map_values(|i: TurnProgressPlanItem| plan_item_json(i));
            let mut i: usize = 0;
            while i < p.items.len()
                invariant
                    i <= p.items@.len(),
                    all == p.items@.map_values(|i: TurnProgressPlanItem| plan_item_json(i)),
                    crate::json::array_view(items@) =~= all.take(i as int),
                decreases p.items@.len() - i,
            {
                let mut o: Json = Json::object();
                o.put("step", Json::text(p.items[i].step.as_str()));
                o.put("status", Json::text(status_label(p.items[i].status)));
                items.push(o);
                i += 1;
            }
            assert(all.take(all.len() as int) =~= all);
            let mut r: Json = Json::object();
            r.put("explanation", Json::opt_string(&p.explanation));
            r.put("items", Json::Array(items));
            r
        },
    }
}

pub open spec fn turn_progress_json(p: TurnProgress) -> JsonView {
    JsonView::empty_object().with("phase"@, JsonView::Text(phase_name(p.phase))).with(
        "model"@,
        JsonView::Text(p.model@),
    ).with("activity"@, JsonView::Text(p.activity@)).with("hint"@, or_null(opt_view(p.hint))).with(
        "plan"@,
        plan_json(p.plan),
    ).with("error"@, or_null(opt_view(p.error)))
}

/// The event that tells of progress.
pub open spec fn progress_event(f: OutgoingProgressFeedback) -> JsonView {
    let p = f.progress;
    JsonView::empty_object().with("type"@, JsonView::Text("turn_progress"@)).with(
        "turn_id"@,
        JsonView::Text(f.turn_id@),
    ).with("phase"@, JsonView::Text(phase_name(p.phase))).with(
        "model"@,
        JsonView::Text(p.model@),
    ).with("activity"@, JsonView::Text(p.activity@)).with("hint"@, or_null(opt_view(p.hint))).with(
        "plan"@,
        plan_json(p.plan),
    ).with("error"@, or_null(opt_view(p.error))).with("progress"@, turn_progress_json(p)).with(
        "final_state"@,
        or_null(final_state_name(f.final_state)),
    ).with("important"@, JsonView::Bool(f.important))
}

pub fn turn_progress_payload(feedback: &OutgoingProgressFeedback) -> (r: Json)
    ensures
        r@ == progress_event(*feedback),
{
    let p: &TurnProgress = &feedback.progress;
    let mut inner: Json = Json::object();
    inner.put("phase", Json::text(phase_label(p.phase)));
    inner.put("model", Json::text(p.model.as_str()));
    inner.put("activity", Json::text(p.activity.as_str()));
    inner.put("hint", Json::opt_string(&p.hint));
    inner.put("plan", plan_value(&p.plan));
    inner.put("error", Json::opt_string(&p.error));
    let final_state: Json = match feedback.final_state {
        Some(ProgressFeedbackFinalState::Done) => Json::text("done"),
        Some(ProgressFeedbackFinalState::Failed) => Json::text("failed"),
        None => Json::Null,
    };
    let mut r: Json = Json::object();
    r.put("type", Json::text("turn_progress"));
    r.put("turn_id", Json::text(feedback.turn_id.as_str()));
    r.put("phase", Json::text(phase_label(p.phase)));
    r.put("model", Json::text(p.model.as_str()));
    r.put("activity", Json::text(p.activity.as_str()));
    r.put("hint", Json::opt_string(&p.hint));
    r.put("plan", plan_value(&p.plan));
    r.put("error", Json::opt_string(&p.error));
    r.put("progress", inner);
    r.put("final_state", final_state);
    r.put("important", Json::Bool(feedback.important));
    r
}

} // verus!
