//! Laws of progress: what is shown of a turn, and when.

use vstd::prelude::*;
use crate::json::JsonView;
use crate::number::decimal;
use crate::progress::{
    duration_text, plan_json, plan_line, plan_lines, plan_text, progress_event, progress_step,
    progress_text, OutgoingProgressFeedback, ProgressFeedbackFinalState, ProgressMessage, StepView,
    TurnProgress, TurnProgressPhase, TurnProgressPlanItem, TurnProgressPlanItemStatus,
};
use crate::text::{is_space, mark, opt_view, trimmed, trimming_drops_the_space_around};
use crate::words::join_seq;

verus! {

/// Whether a text has no white space at its ends.
pub open spec fn is_tight(t: Seq<char>) -> bool {
    t.len() > 0 && !is_space(t[0]) && !is_space(t.last())
}

proof fn lemma_tight(t: Seq<char>)
    requires
        is_tight(t),
    ensures
        trimmed(t) == t,
{
    let e = Seq::<char>::empty();
    trimming_drops_the_space_around(e, t, e);
    assert(e + t + e =~= t);
}

/// A duration is shown in minutes and seconds, the seconds in two digits; one of less than a
/// minute in seconds alone.
pub proof fn duration_is_minutes_and_seconds(minutes: nat, seconds: nat)
    requires
        seconds < 60,
    ensures
        minutes == 0 ==> duration_text(minutes * 60 + seconds) == decimal(seconds) + "s"@,
        minutes > 0 && seconds >= 10 ==> duration_text(minutes * 60 + seconds) == decimal(minutes)
            + "m"@ + decimal(seconds) + "s"@,
        minutes > 0 && seconds < 10 ==> duration_text(minutes * 60 + seconds) == decimal(minutes)
            + "m"@ + ("0"@ + decimal(seconds)) + "s"@,
{
    let n = minutes * 60 + seconds;
    assert(n / 60 == minutes && n % 60 == seconds) by (nonlinear_arith)
        requires
            n == minutes * 60 + seconds,
            0 <= seconds < 60,
            0 <= minutes,
    ;
}

/// The line of a step: a box that tells how far it is, and the step.
pub open spec fn step_line(status: TurnProgressPlanItemStatus, step: Seq<char>) -> Seq<char> {
    (match status {
        TurnProgressPlanItemStatus::Pending => "☐ "@,
        TurnProgressPlanItemStatus::InProgress => "◐ "@,
        TurnProgressPlanItemStatus::Completed => "☑ "@,
    }) + step
}

proof fn lemma_marks()
    ensures
        "☐"@ + " "@ == "☐ "@,
        "◐"@ + " "@ == "◐ "@,
        "☑"@ + " "@ == "☑ "@,
{
    reveal_strlit(" ");
    reveal_strlit("☐");
    reveal_strlit("◐");
    reveal_strlit("☑");
    reveal_strlit("☐ ");
    reveal_strlit("◐ ");
    reveal_strlit("☑ ");
    assert("☐"@ + " "@ =~= "☐ "@);
    assert("◐"@ + " "@ =~= "◐ "@);
    assert("☑"@ + " "@ =~= "☑ "@);
}

/// The steps of a plan are shown in order, each on a line of its own behind a box that tells
/// how far it is.
pub proof fn plan_shows_every_step(items: Seq<TurnProgressPlanItem>, n: int)
    requires
        0 < n <= items.len(),
        forall|i: int| 0 <= i < items.len() ==> is_tight((#[trigger] items[i]).step@),
    ensures
        plan_lines(items, n) == "\n"@ + join_seq(
            Seq::new(n as nat, |i: int| step_line(items[i].status, items[i].step@)),
            "\n"@,
        ),
    decreases n,
{
    let f = |i: int| step_line(items[i].status, items[i].step@);
    let lines = Seq::new(n as nat, f);
    let item = items[n - 1];
    assert(is_tight(items[n - 1].step@));
    lemma_tight(item.step@);
    lemma_marks();
    let line = f(n - 1);
    assert(plan_line(item) =~= "\n"@ + line);
    if n == 1 {
        assert(plan_lines(items, 0) =~= Seq::empty());
        assert(lines =~= seq![line]);
        assert(plan_lines(items, 1) =~= "\n"@ + line);
    } else {
        plan_shows_every_step(items, n - 1);
        let before = Seq::new((n - 1) as nat, f);
        assert(lines =~= before.push(line));
        lemma_join_push(before, line, "\n"@);
        assert(plan_lines(items, n) =~= "\n"@ + join_seq(lines, "\n"@));
    }
}

proof fn lemma_join_push(parts: Seq<Seq<char>>, last: Seq<char>, sep: Seq<char>)
    requires
        parts.len() > 0,
    ensures
        join_seq(parts.push(last), sep) == join_seq(parts, sep) + sep + last,
    decreases parts.len(),
{
    let all = parts.push(last);
    if parts.len() == 1 {
        assert(all.drop_first() =~= seq![last]);
        assert(join_seq(seq![last], sep) == last);
        assert(join_seq(all, sep) =~= join_seq(parts, sep) + sep + last);
    } else {
        assert(all.drop_first() =~= parts.drop_first().push(last));
        lemma_join_push(parts.drop_first(), last, sep);
        assert(join_seq(all, sep) =~= join_seq(parts, sep) + sep + last);
    }
}

/// The text of a turn tells how far it is, which model works, and what it does or why it
/// failed; then a hint, where there is one, and the plan.
pub proof fn progress_tells_model_and_activity(p: TurnProgress)
    requires
        p.hint is None,
        p.plan is None,
    ensures
        p.phase is Thinking ==> progress_text(p) == "⚙️ 正在执行\n🤖 模型："@ + p.model@
            + "\n🧠 状态："@ + p.activity@,
        p.phase is Working ==> progress_text(p) == "⚙️ 正在执行\n🤖 模型："@ + p.model@
            + "\n📌 阶段："@ + p.activity@,
        p.phase is Done ==> progress_text(p) == "✅ 已完成\n🤖 模型："@ + p.model@,
        p.phase is Failed && p.error is None ==> progress_text(p) == "❌ 本轮失败\n🤖 模型："@
            + p.model@,
        p.phase is Failed && p.error is Some && is_tight(p.error->0@) ==> progress_text(p)
            == "❌ 本轮失败\n🤖 模型："@ + p.model@ + ("\n📌 "@ + p.error->0@),
{
    let e = Seq::<char>::empty();
    if p.error is Some && is_tight(p.error->0@) {
        lemma_tight(p.error->0@);
    }
    let head = crate::progress::progress_head(p);
    assert(progress_text(p) =~= head);
    if p.phase is Failed && p.error is None {
        assert(head =~= "❌ 本轮失败\n🤖 模型："@ + p.model@);
    }
}

/// A hint and a plan come behind the rest, in this order.
pub proof fn hint_and_plan_come_behind(p: TurnProgress, bare: TurnProgress, hint: Seq<char>)
    requires
        p.hint matches Some(h) && h@ == hint,
        is_tight(hint),
        bare.hint is None && bare.plan is None,
        bare.phase == p.phase && bare.model@ == p.model@ && bare.activity@ == p.activity@
            && opt_view(bare.error) == opt_view(p.error),
    ensures
        progress_text(p) == progress_text(bare) + ("\n\n💡 "@ + hint) + plan_text(p.plan),
        p.plan matches Some(plan) && plan.explanation is None && plan.items@.len() > 0
            ==> plan_text(p.plan) == "\n\n计划"@ + plan_lines(
            p.plan->0.items@,
            p.plan->0.items@.len() as int,
        ),
        p.plan is None ==> plan_text(p.plan).len() == 0,
{
    lemma_tight(hint);
    let head = crate::progress::progress_head(p);
    assert(crate::progress::progress_head(bare) == head);
    assert(progress_text(bare) =~= head);
    if let Some(plan) = p.plan {
        if plan.explanation is None && plan.items@.len() > 0 {
            assert(plan_text(p.plan) =~= "\n\n计划"@ + plan_lines(
                plan.items@,
                plan.items@.len() as int,
            ));
        }
    }
}

/// Progress is shown once a text is new, and at most once in the interval unless it is
/// important; the first text is sent, later ones change that message, and the last one shows
/// how long the turn took.
pub proof fn progress_changes_its_message(
    f: OutgoingProgressFeedback,
    e: ProgressMessage,
    now_ms: u64,
)
    requires
        now_ms >= e.last_update_ms,
        now_ms >= e.started_ms,
    ensures
        ({
            let text = progress_text(f.progress);
            let step = progress_step(f, Some(e), now_ms);
            let first = progress_step(f, None, now_ms);
            &&& f.final_state is None ==> first == (StepView::Send { text, keep: true })
            &&& f.final_state == Some(ProgressFeedbackFinalState::Failed) ==> first == (
            StepView::Send { text, keep: false }) && step == (StepView::Edit {
                message_id: e.message_id,
                text,
                last: true,
            })
            &&& f.final_state == Some(ProgressFeedbackFinalState::Done) ==> first == (
            StepView::Finish { edit: None }) && step == (StepView::Finish {
                edit: Some(
                    (
                        e.message_id,
                        text + "\n⏱️ 用时："@ + duration_text(
                            ((now_ms - e.started_ms) / 1000) as nat,
                        ),
                    ),
                ),
            })
            &&& f.final_state is None && e.last_text@ == text ==> step is Skip
            &&& f.final_state is None && e.last_text@ != text && (f.important || now_ms
                - e.last_update_ms >= 1000) ==> step == (StepView::Edit {
                message_id: e.message_id,
                text,
                last: false,
            })
            &&& f.final_state is None && !f.important && now_ms - e.last_update_ms < 1000
                ==> step is Skip
        }),
{
}

proof fn lemma_keys()
    ensures
        mark("type"@) == 118275332,
        mark("turn_id"@) == 116169991,
        mark("phase"@) == 102546437,
        mark("model"@) == 105749317,
        mark("activity"@) == 124729416,
        mark("hint"@) == 116300292,
        mark("plan"@) == 102620164,
        mark("error"@) == 120478021,
        mark("progress"@) == 120486920,
        mark("final_state"@) == 100448651,
        mark("important"@) == 120494665,
{
    reveal_strlit("type");
    reveal_strlit("turn_id");
    reveal_strlit("phase");
    reveal_strlit("model");
    reveal_strlit("activity");
    reveal_strlit("hint");
    reveal_strlit("plan");
    reveal_strlit("error");
    reveal_strlit("progress");
    reveal_strlit("final_state");
    reveal_strlit("important");
}

/// The event of a turn carries all that is known of it.
pub proof fn progress_event_carries_the_turn(f: OutgoingProgressFeedback)
    ensures
        ({
            let v = progress_event(f);
            let p = f.progress;
            &&& v.text_field("type"@) == Some("turn_progress"@)
            &&& v.text_field("turn_id"@) == Some(f.turn_id@)
            &&& v.text_field("phase"@) == Some(
                match p.phase {
                    TurnProgressPhase::Thinking => "thinking"@,
                    TurnProgressPhase::Working => "working"@,
                    TurnProgressPhase::Done => "done"@,
                    TurnProgressPhase::Failed => "failed"@,
                },
            )
            &&& v.text_field("model"@) == Some(p.model@)
            &&& v.text_field("activity"@) == Some(p.activity@)
            &&& v.text_field("hint"@) == opt_view(p.hint)
            &&& v.text_field("error"@) == opt_view(p.error)
            &&& v.field("plan"@) == Some(plan_json(p.plan))
            &&& v.bool_field("important"@) == Some(f.important)
            &&& v.text_field("final_state"@) == (match f.final_state {
                Some(ProgressFeedbackFinalState::Done) => Some("done"@),
                Some(ProgressFeedbackFinalState::Failed) => Some("failed"@),
                None => None,
            })
            &&& v.field("progress"@) matches Some(inner) && {
                &&& inner.text_field("phase"@) == v.text_field("phase"@)
                &&& inner.text_field("model"@) == Some(p.model@)
                &&& inner.text_field("activity"@) == Some(p.activity@)
                &&& inner.text_field("hint"@) == opt_view(p.hint)
                &&& inner.text_field("error"@) == opt_view(p.error)
                &&& inner.field("plan"@) == Some(plan_json(p.plan))
            }
        }),
{
    lemma_keys();
}

/// A plan is told with its explanation and all its steps, in order, each with its state.
pub proof fn plan_is_told_whole(p: crate::progress::TurnProgressPlan, i: int)
    requires
        0 <= i < p.items@.len(),
    ensures
        ({
            let v = plan_json(Some(p));
            &&& v.text_field("explanation"@) == opt_view(p.explanation)
            &&& v.field("items"@) matches Some(JsonView::Array(items)) && items.len()
                == p.items@.len() && items[i].text_field("step"@) == Some(p.items@[i].step@)
                && items[i].text_field("status"@) == Some(
                match p.items@[i].status {
                    TurnProgressPlanItemStatus::Pending => "pending"@,
                    TurnProgressPlanItemStatus::InProgress => "in_progress"@,
                    TurnProgressPlanItemStatus::Completed => "completed"@,
                },
            )
        }),
        plan_json(None) == JsonView::Null,
{
    reveal_strlit("explanation");
    reveal_strlit("items");
    reveal_strlit("step");
    reveal_strlit("status");
    assert("explanation"@.len() != "items"@.len());
    assert("step"@.len() != "status"@.len());
}

} // verus!
