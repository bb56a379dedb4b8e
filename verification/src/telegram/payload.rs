//! Requests to the bot interface, and what a delivery sends.

use vstd::prelude::*;
use crate::channels::{OutgoingOption, OutgoingOptions};
use crate::json::{array_view, group_json, Json, JsonView};
use crate::number::{decimal, decimal_text};
use crate::text::{cat3, cat4, cat5, is_blank, opt_str_view, opt_view, trimmed};
use super::render::{entities_view, TelegramMessageEntity, TelegramRenderedText};
use super::render_model::{EntityView, Rendered};

verus! {

broadcast use group_json;

/// The most characters of a message, as Telegram counts them.
pub const MAX_MESSAGE_CHARS: usize = 4096;

/// The most characters of a caption, as Telegram counts them.
pub const MAX_CAPTION_CHARS: usize = 1024;

pub open spec fn option_json(o: OutgoingOption) -> JsonView {
    JsonView::empty_object().with("text"@, JsonView::Text(o.label@)).with(
        "callback_data"@,
        JsonView::Text(o.value@),
    )
}

/// The rows of a keyboard: two buttons each, the last row may have one.
pub open spec fn keyboard_rows(options: Seq<OutgoingOption>) -> Seq<JsonView>
    decreases options.len(),
{
    if options.len() == 0 {
        Seq::empty()
    } else if options.len() == 1 {
        seq![JsonView::Array(seq![option_json(options[0])])]
    } else {
        seq![JsonView::Array(seq![option_json(options[0]), option_json(options[1])])]
            + keyboard_rows(options.skip(2))
    }
}

pub open spec fn keyboard(options: Seq<OutgoingOption>) -> JsonView {
    JsonView::empty_object().with("inline_keyboard"@, JsonView::Array(keyboard_rows(options)))
}

fn button(option: &OutgoingOption) -> (r: Json)
    ensures
        r@ == option_json(*option),
{
    let mut o: Json = Json::object();
    o.put("text", Json::text(option.label.as_str()));
    o.put("callback_data", Json::text(option.value.as_str()));
    o
}

pub fn build_inline_keyboard_markup(options: &OutgoingOptions) -> (r: Json)
    ensures
        r@ == keyboard(options.options@),
{
    let list: &Vec<OutgoingOption> = &options.options;
    let n: usize = list.len();
    let ghost all = keyboard_rows(list@);
    let mut rows: Vec<Json> = Vec::new();
    let mut i: usize = 0;
    proof {
        assert(list@.skip(0) =~= list@);
        assert(array_view(rows@) + all =~= all);
    }
    while i < n
        invariant
            i <= n,
            n == list@.len(),
            all == keyboard_rows(list@),
            array_view(rows@) + keyboard_rows(list@.skip(i as int)) == all,
        decreases n - i,
    {
        let ghost rest = list@.skip(i as int);
        let ghost done = array_view(rows@);
        let mut row: Vec<Json> = Vec::new();
        row.push(button(&list[i]));
        if i + 1 < n {
            row.push(button(&list[i + 1]));
            assert(array_view(row@) =~= seq![option_json(rest[0]), option_json(rest[1])]);
            rows.push(Json::Array(row));
            assert(rest.skip(2) =~= list@.skip(i + 2));
            assert(array_view(rows@) + keyboard_rows(list@.skip(i + 2)) =~= done + keyboard_rows(
                rest,
            ));
            i += 2;
        } else {
            assert(array_view(row@) =~= seq![option_json(rest[0])]);
            rows.push(Json::Array(row));
            i += 1;
            assert(list@.skip(i as int) =~= Seq::empty());
            assert(array_view(rows@) + keyboard_rows(list@.skip(i as int)) =~= done
                + keyboard_rows(rest));
        }
    }
    assert(list@.skip(i as int) =~= Seq::empty());
    assert(array_view(rows@) =~= all);
    let mut r: Json = Json::object();
    r.put("inline_keyboard", Json::Array(rows));
    r
}

pub open spec fn with_some(v: JsonView, key: Seq<char>, t: Option<Seq<char>>) -> JsonView {
    match t {
        Some(s) => v.with(key, JsonView::Text(s)),
        None => v,
    }
}

/// An entity as the bot interface takes it; address and language only where there are.
pub open spec fn entity_json(e: EntityView) -> JsonView {
    with_some(
        with_some(
            JsonView::empty_object().with("type"@, JsonView::Text(e.kind)).with(
                "offset"@,
                JsonView::number(e.offset),
            ).with("length"@, JsonView::number(e.length)),
            "url"@,
            e.url,
        ),
        "language"@,
        e.language,
    )
}

pub open spec fn entities_json(s: Seq<EntityView>) -> JsonView {
    JsonView::Array(s.map_values(|e: EntityView| entity_json(e)))
}

fn entity_value(e: &TelegramMessageEntity) -> (r: Json)
    ensures
        r@ == entity_json(e@),
{
    let mut o: Json = Json::object();
    o.put("type", Json::text(e.kind.as_str()));
    o.put("offset", Json::count(e.offset));
    o.put("length", Json::count(e.length));
    match &e.url {
        Some(url) => {
            o.put("url", Json::text(url.as_str()));
        },
        None => {},
    }
    match &e.language {
        Some(language) => {
            o.put("language", Json::text(language.as_str()));
        },
        None => {},
    }
    o
}

pub fn entities_value(entities: &Vec<TelegramMessageEntity>) -> (r: Json)
    ensures
        r@ == entities_json(entities_view(entities@)),
{
    let mut list: Vec<Json> = Vec::new();
    let ghost all = entities_view(entities@).map_values(|e: EntityView| entity_json(e));
    let mut i: usize = 0;
    while i < entities.len()
        invariant
            i <= entities@.len(),
            all == entities_view(entities@).map_values(|e: EntityView| entity_json(e)),
            array_view(list@) =~= all.take(i as int),
        decreases entities@.len() - i,
    {
        list.push(entity_value(&entities[i]));
        i += 1;
    }
    assert(all.take(all.len() as int) =~= all);
    Json::Array(list)
}

pub open spec fn with_entities(v: JsonView, r: Rendered) -> JsonView {
    if r.entities.len() > 0 {
        v.with("entities"@, entities_json(r.entities))
    } else {
        v
    }
}

/// The request that sends a text.
pub open spec fn send_text_request(
    chat_id: Seq<char>,
    r: Rendered,
    options: Option<OutgoingOptions>,
) -> JsonView {
    let base = with_entities(
        JsonView::empty_object().with("chat_id"@, JsonView::Text(chat_id)).with(
            "text"@,
            JsonView::Text(r.text),
        ).with("disable_web_page_preview"@, JsonView::Bool(true)),
        r,
    );
    match options {
        Some(o) => if o.options@.len() > 0 {
            base.with("reply_markup"@, keyboard(o.options@))
        } else {
            base
        },
        None => base,
    }
}

pub fn build_send_text_payload(
    chat_id: &str,
    rendered: &TelegramRenderedText,
    options: Option<&OutgoingOptions>,
) -> (r: Json)
    ensures
        r@ == send_text_request(
            chat_id@,
            rendered@,
            match options {
                Some(o) => Some(*o),
                None => None,
            },
        ),
{
    let mut payload: Json = Json::object();
    payload.put("chat_id", Json::text(chat_id));
    payload.put("text", Json::text(rendered.text.as_str()));
    payload.put("disable_web_page_preview", Json::Bool(true));
    if rendered.entities.len() > 0 {
        payload.put("entities", entities_value(&rendered.entities));
    }
    match options {
        Some(o) => {
            if o.options.len() > 0 {
                payload.put("reply_markup", build_inline_keyboard_markup(o));
            }
        },
        None => {},
    }
    payload
}

/// The request that edits a text.
pub open spec fn edit_text_request(chat_id: Seq<char>, message_id: i64, r: Rendered) -> JsonView {
    with_entities(
        JsonView::empty_object().with("chat_id"@, JsonView::Text(chat_id)).with(
            "message_id"@,
            JsonView::signed(message_id),
        ).with("text"@, JsonView::Text(r.text)).with(
            "disable_web_page_preview"@,
            JsonView::Bool(true),
        ),
        r,
    )
}

pub fn build_edit_text_payload(chat_id: &str, message_id: i64, rendered: &TelegramRenderedText) -> (r:
    Json)
    ensures
        r@ == edit_text_request(chat_id@, message_id, rendered@),
{
    let mut payload: Json = Json::object();
    payload.put("chat_id", Json::text(chat_id));
    payload.put("message_id", Json::signed(message_id));
    payload.put("text", Json::text(rendered.text.as_str()));
    payload.put("disable_web_page_preview", Json::Bool(true));
    if rendered.entities.len() > 0 {
        payload.put("entities", entities_value(&rendered.entities));
    }
    payload
}

// ---------------------------------------------------------------------------
// Deliveries
// ---------------------------------------------------------------------------
/// The text of a delivery: its own, else that of its message, else the prompt of its
/// options. Blank text does not count.
pub open spec fn delivery_text(
    own: Seq<char>,
    message: Option<Seq<char>>,
    prompt: Option<Seq<char>>,
) -> Seq<char> {
    if trimmed(own).len() > 0 {
        own
    } else if message matches Some(m) && trimmed(m).len() > 0 {
        message->0
    } else {
        match prompt {
            Some(p) => p,
            None => ""@,
        }
    }
}

/// Whether the text of a delivery is sent as a message of its own.
pub open spec fn sends_text(text: Seq<char>, has_prompt: bool, attachment_count: nat) -> bool {
    trimmed(text).len() > 0 && (attachment_count == 0 || has_prompt)
}

/// Whether the text of a delivery is the caption of its first attachment.
pub open spec fn captions(text: Seq<char>, has_prompt: bool) -> bool {
    trimmed(text).len() > 0 && !has_prompt
}

/// How a delivery is sent: its text, whether the text is a message of its own, and
/// whether it is the caption of the first attachment.
#[derive(Debug)]
pub struct DeliveryPlan {
    pub text: String,
    pub send_text: bool,
    pub caption_first: bool,
}

pub fn plan_delivery(
    own: &str,
    message: Option<&str>,
    prompt: Option<&str>,
    attachment_count: usize,
) -> (r: DeliveryPlan)
    ensures
        r.text@ == delivery_text(own@, opt_str_view(message), opt_str_view(prompt)),
        r.send_text == sends_text(r.text@, prompt is Some, attachment_count as nat),
        r.caption_first == captions(r.text@, prompt is Some),
{
    let message_counts: bool = match message {
        Some(m) => !is_blank(m),
        None => false,
    };
    let text: &str = if !is_blank(own) {
        own
    } else if message_counts {
        match message {
            Some(m) => m,
            None => "",
        }
    } else {
        match prompt {
            Some(p) => p,
            None => "",
        }
    };
    let filled: bool = !is_blank(text);
    DeliveryPlan {
        text: text.to_owned(),
        send_text: filled && (attachment_count == 0 || prompt.is_some()),
        caption_first: filled && prompt.is_none(),
    }
}

/// A text that is not blank is shown exactly once, with its attachments or without: as a
/// message, or as the caption of the first attachment.
pub proof fn delivery_text_is_shown_once(text: Seq<char>, has_prompt: bool, attachment_count: nat)
    requires
        trimmed(text).len() > 0,
    ensures
        sends_text(text, has_prompt, attachment_count) != (captions(text, has_prompt)
            && attachment_count > 0),
{
}

/// The text that tells of an error, with what can be done about it.
pub fn error_text(message: &str, suggested_action: &Option<String>) -> (r: String)
    ensures
        r@ == match opt_view(*suggested_action) {
            Some(a) => if trimmed(a).len() > 0 {
                message@ + "\n"@ + a
            } else {
                message@
            },
            None => message@,
        },
{
    match suggested_action {
        Some(a) => {
            if !is_blank(a.as_str()) {
                return cat3(message, "\n", a.as_str());
            }
        },
        None => {},
    }
    message.to_owned()
}

// ---------------------------------------------------------------------------
// Status
// ---------------------------------------------------------------------------
/// Tokens by kind.
#[derive(Clone, Copy, Debug, PartialEq, Eq)]
pub struct UsageCounts {
    pub cache_read: u64,
    pub cache_write: u64,
    pub uncache_input: u64,
    pub output: u64,
}

pub open spec fn capped(a: u64, b: u64) -> u64 {
    if a + b <= u64::MAX {
        (a + b) as u64
    } else {
        u64::MAX
    }
}

impl UsageCounts {
    pub open spec fn zero() -> Self {
        UsageCounts { cache_read: 0, cache_write: 0, uncache_input: 0, output: 0 }
    }

    pub open spec fn plus(self, other: Self) -> Self {
        UsageCounts {
            cache_read: capped(self.cache_read, other.cache_read),
            cache_write: capped(self.cache_write, other.cache_write),
            uncache_input: capped(self.uncache_input, other.uncache_input),
            output: capped(self.output, other.output),
        }
    }

    pub fn add_usage(&self, other: &Self) -> (r: Self)
        ensures
            r == self.plus(*other),
    {
        UsageCounts {
            cache_read: capped_sum(self.cache_read, other.cache_read),
            cache_write: capped_sum(self.cache_write, other.cache_write),
            uncache_input: capped_sum(self.uncache_input, other.uncache_input),
            output: capped_sum(self.output, other.output),
        }
    }
}

pub fn capped_sum(a: u64, b: u64) -> (r: u64)
    ensures
        r == capped(a, b),
{
    match a.checked_add(b) {
        Some(s) => s,
        None => u64::MAX,
    }
}

/// Adding usage does not depend on the order.
pub proof fn usage_adds_in_any_order(a: UsageCounts, b: UsageCounts, c: UsageCounts)
    ensures
        a.plus(b) == b.plus(a),
        a.plus(b).plus(c) == a.plus(b.plus(c)),
        UsageCounts::zero().plus(a) == a,
{
}

/// The costs of usage as they are shown.
#[derive(Debug)]
pub struct CostTexts {
    pub cache_read: String,
    pub cache_write: String,
    pub uncache_input: String,
    pub output: String,
    pub total: String,
}

pub open spec fn usage_line(label: Seq<char>, n: UsageCounts, c: CostTexts) -> Seq<char> {
    "- "@ + label + ": read "@ + decimal(n.cache_read as nat) + " ($"@ + c.cache_read@
        + "), write "@ + decimal(n.cache_write as nat) + " ($"@ + c.cache_write@ + "), input "@
        + decimal(n.uncache_input as nat) + " ($"@ + c.uncache_input@ + "), output "@ + decimal(
        n.output as nat,
    ) + " ($"@ + c.output@ + "), total $"@ + c.total@
}

pub fn render_usage_line(label: &str, counts: &UsageCounts, costs: &CostTexts) -> (r: String)
    ensures
        r@ == usage_line(label@, *counts, *costs),
{
    let read: String = decimal_text(counts.cache_read);
    let write: String = decimal_text(counts.cache_write);
    let input: String = decimal_text(counts.uncache_input);
    let output: String = decimal_text(counts.output);
    let mut r: String = cat5("- ", label, ": read ", read.as_str(), " ($");
    r.append(costs.cache_read.as_str());
    r.append("), write ");
    r.append(write.as_str());
    r.append(" ($");
    r.append(costs.cache_write.as_str());
    r.append("), input ");
    r.append(input.as_str());
    r.append(" ($");
    r.append(costs.uncache_input.as_str());
    r.append("), output ");
    r.append(output.as_str());
    r.append(" ($");
    r.append(costs.output.as_str());
    r.append("), total $");
    r.append(costs.total.as_str());
    r
}

/// The usage of the parts of a conversation.
#[derive(Debug)]
pub struct UsageSummary {
    pub foreground: UsageCounts,
    pub background: UsageCounts,
    pub subagents: UsageCounts,
    pub media_tools: UsageCounts,
}

/// The costs of the parts, and of all of them.
#[derive(Debug)]
pub struct UsageCosts {
    pub total: CostTexts,
    pub foreground: CostTexts,
    pub background: CostTexts,
    pub subagents: CostTexts,
    pub media_tools: CostTexts,
}

pub open spec fn usage_total(s: UsageSummary) -> UsageCounts {
    UsageCounts::zero().plus(s.foreground).plus(s.background).plus(s.subagents).plus(s.media_tools)
}

pub open spec fn usage_text(s: UsageSummary, c: UsageCosts) -> Seq<char> {
    "token usage\n"@ + usage_line("total"@, usage_total(s), c.total) + "\n"@ + usage_line(
        "foreground"@,
        s.foreground,
        c.foreground,
    ) + "\n"@ + usage_line("background"@, s.background, c.background) + "\n"@ + usage_line(
        "subagents"@,
        s.subagents,
        c.subagents,
    ) + "\n"@ + usage_line("media tools"@, s.media_tools, c.media_tools)
}

pub fn render_usage_summary(summary: &UsageSummary, costs: &UsageCosts) -> (r: String)
    ensures
        r@ == usage_text(*summary, *costs),
{
    let zero = UsageCounts { cache_read: 0, cache_write: 0, uncache_input: 0, output: 0 };
    let total: UsageCounts = zero.add_usage(&summary.foreground).add_usage(
        &summary.background,
    ).add_usage(&summary.subagents).add_usage(&summary.media_tools);
    let l0: String = render_usage_line("total", &total, &costs.total);
    let l1: String = render_usage_line("foreground", &summary.foreground, &costs.foreground);
    let l2: String = render_usage_line("background", &summary.background, &costs.background);
    let l3: String = render_usage_line("subagents", &summary.subagents, &costs.subagents);
    let l4: String = render_usage_line("media tools", &summary.media_tools, &costs.media_tools);
    let mut r: String = cat5("token usage\n", l0.as_str(), "\n", l1.as_str(), "\n");
    r.append(l2.as_str());
    r.append("\n");
    r.append(l3.as_str());
    r.append("\n");
    r.append(l4.as_str());
    r
}

/// The state of a conversation as it is reported.
#[derive(Debug)]
pub struct OutgoingStatus {
    pub conversation_id: String,
    pub model: String,
    pub reasoning: String,
    pub sandbox: String,
    pub sandbox_source: String,
    pub remote: String,
    pub workspace: String,
    pub running_background: u64,
    pub total_background: u64,
    pub running_subagents: u64,
    pub total_subagents: u64,
}

pub open spec fn status_text(s: OutgoingStatus, usage: Seq<char>) -> Seq<char> {
    "当前状态\nconversation: `"@ + s.conversation_id@ + "`\nmodel: `"@ + s.model@
        + "`\nreasoning: `"@ + s.reasoning@ + "`\nsandbox: `"@ + s.sandbox@ + "` ("@
        + s.sandbox_source@ + ")\nremote: "@ + s.remote@ + "\nworkspace: `"@ + s.workspace@
        + "`\nbackground: "@ + decimal(s.running_background as nat) + " running / "@ + decimal(
        s.total_background as nat,
    ) + " total\nsubagents: "@ + decimal(s.running_subagents as nat) + " running / "@ + decimal(
        s.total_subagents as nat,
    ) + " total\n\n"@ + usage
}

pub fn render_status_text(status: &OutgoingStatus, usage: &str) -> (r: String)
    ensures
        r@ == status_text(*status, usage@),
{
    let running_background: String = decimal_text(status.running_background);
    let total_background: String = decimal_text(status.total_background);
    let running_subagents: String = decimal_text(status.running_subagents);
    let total_subagents: String = decimal_text(status.total_subagents);
    let mut r: String = cat4(
        "当前状态\nconversation: `",
        status.conversation_id.as_str(),
        "`\nmodel: `",
        status.model.as_str(),
    );
    r.append("`\nreasoning: `");
    r.append(status.reasoning.as_str());
    r.append("`\nsandbox: `");
    r.append(status.sandbox.as_str());
    r.append("` (");
    r.append(status.sandbox_source.as_str());
    r.append(")\nremote: ");
    r.append(status.remote.as_str());
    r.append("\nworkspace: `");
    r.append(status.workspace.as_str());
    r.append("`\nbackground: ");
    r.append(running_background.as_str());
    r.append(" running / ");
    r.append(total_background.as_str());
    r.append(" total\nsubagents: ");
    r.append(running_subagents.as_str());
    r.append(" running / ");
    r.append(total_subagents.as_str());
    r.append(" total\n\n");
    r.append(usage);
    r
}

} // verus!
