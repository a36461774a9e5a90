//! Decides when to compact provider-visible context and builds a stable fallback summary.
use vstd::prelude::*;

use crate::model::{
    context_tokens, estimate_context_tokens, messages_view, CanonicalMessage, MessageV,
    PreparedRun, ProjectedMessage,
};
use crate::text::{chars_of, decimal, has_prefix, string_from_chars, u64_to_decimal};

verus! {

/// The number of trailing characters a fallback summary keeps.
pub const FALLBACK_CHARS: usize = 12000;

/// The tokens kept free below the model's context window.
pub const RESERVE_TOKENS: u64 = 10000;

/// The output tokens a compaction request may use.
pub const OUTPUT_TOKENS: u64 = 4096;

/// The instructions of a compaction request.
pub const INSTRUCTIONS: &'static str = "Summarize the conversation for the next model turn. Preserve goals, constraints, decisions, files, commands, errors, results, and unfinished work. Do not call tools. Return only the concise durable summary.";

/// The prefix that marks a request-context message.
pub const REQUEST_CONTEXT_PREFIX: &'static str = "request-context:";

/// The input budget of a run: its context window less the reserve, floored at
/// zero; none when the window is unknown.
pub open spec fn budget_of(prepared: PreparedRun) -> Option<u64> {
    match prepared.model.context_window_tokens {
        Some(window) => Some(
            if window >= RESERVE_TOKENS {
                (window - RESERVE_TOKENS) as u64
            } else {
                0
            },
        ),
        None => None,
    }
}

pub fn input_budget(prepared: &PreparedRun) -> (r: Option<u64>)
    ensures
        r == budget_of(*prepared),
{
    match prepared.model.context_window_tokens {
        Some(window) => Some(window.saturating_sub(RESERVE_TOKENS)),
        None => None,
    }
}

pub fn estimated_tokens(prepared: &PreparedRun, projected_messages: &[ProjectedMessage]) -> (r: u64)
    ensures
        r == context_tokens(prepared.prompt, projected_messages@),
{
    estimate_context_tokens(&prepared.prompt, projected_messages)
}

/// Whether compaction is due: the window is known and the estimated context
/// exceeds the budget.
pub open spec fn compaction_due(prepared: PreparedRun, projected_messages: Seq<ProjectedMessage>) -> bool {
    budget_of(prepared) matches Some(budget) && context_tokens(prepared.prompt, projected_messages)
        > budget
}

/// Compaction is due exactly when the window is known and the estimated
/// context exceeds the budget.
pub fn should_compact(prepared: &PreparedRun, projected_messages: &[ProjectedMessage]) -> (r: bool)
    ensures
        r == compaction_due(*prepared, projected_messages@),
{
    let budget = match input_budget(prepared) {
        Some(budget) => budget,
        None => return false,
    };
    estimated_tokens(prepared, projected_messages) > budget
}

/// The error text for a compacted context that still exceeds its budget.
pub open spec fn overflow_message(estimated: u64, budget: u64) -> Seq<char> {
    "context overflow after compaction: estimated input "@ + decimal(estimated as nat)
        + " tokens exceeds budget "@ + decimal(budget as nat) + " tokens"@
}

/// The outcome of checking a compacted context: its estimate when it fits
/// its budget (or has none), otherwise the overflow message.
pub open spec fn compacted_check(prepared: PreparedRun, projected_messages: Seq<ProjectedMessage>) -> Result<u64, Seq<char>> {
    let estimated = context_tokens(prepared.prompt, projected_messages);
    match budget_of(prepared) {
        Some(budget) => if estimated > budget {
            Err(overflow_message(estimated, budget))
        } else {
            Ok(estimated)
        },
        None => Ok(estimated),
    }
}

/// Accepts a compacted context that fits its budget (or has no budget),
/// returning its estimate; otherwise reports the overflow.
pub fn validate_compacted(prepared: &PreparedRun, projected_messages: &[ProjectedMessage]) -> (r:
    Result<u64, String>)
    ensures
        match compacted_check(*prepared, projected_messages@) {
            Ok(estimated) => r == Ok::<u64, String>(estimated),
            Err(message) => r matches Err(e) && e@ == message,
        },
{
    let estimated = estimated_tokens(prepared, projected_messages);
    let budget = match input_budget(prepared) {
        Some(budget) => budget,
        None => return Ok(estimated),
    };
    if estimated <= budget {
        return Ok(estimated);
    }
    let mut message = String::from_str("context overflow after compaction: estimated input ");
    message.append(u64_to_decimal(estimated).as_str());
    message.append(" tokens exceeds budget ");
    message.append(u64_to_decimal(budget).as_str());
    message.append(" tokens");
    Err(message)
}

/// A compacted context is refused exactly when compaction would be due for
/// it: the check after compaction uses the same budget as the trigger.
pub proof fn law_compacted_check_uses_the_trigger_budget(
    prepared: PreparedRun,
    projected_messages: Seq<ProjectedMessage>,
)
    ensures
        compacted_check(prepared, projected_messages) is Err <==> compaction_due(prepared, projected_messages),
{
}

/// Whether compaction is due depends on the model's window, the prompt and
/// the messages alone, not on what the run was asked to do: every action
/// keeps the same fixed reserve.
pub proof fn law_compaction_ignores_the_action(
    a: PreparedRun,
    b: PreparedRun,
    projected_messages: Seq<ProjectedMessage>,
)
    requires
        a.model.context_window_tokens == b.model.context_window_tokens,
        a.prompt == b.prompt,
    ensures
        compaction_due(a, projected_messages) == compaction_due(b, projected_messages),
        compacted_check(a, projected_messages) == compacted_check(b, projected_messages),
{
}

/// Whether a message id marks a request-context message.
pub open spec fn is_request_context(id: Seq<char>) -> bool {
    id.len() >= REQUEST_CONTEXT_PREFIX@.len() && id.take(REQUEST_CONTEXT_PREFIX@.len() as int)
        == REQUEST_CONTEXT_PREFIX@
}

/// The index of the last request-context message, if any.
pub open spec fn latest_request_context(messages: Seq<MessageV>) -> Option<int>
    decreases messages.len(),
{
    if messages.len() == 0 {
        None
    } else if is_request_context(messages.last().message_id) {
        Some(messages.len() - 1)
    } else {
        latest_request_context(messages.drop_last())
    }
}

/// The messages that compaction summarizes: every message except the latest
/// request context and those of the current turn.
pub open spec fn compactable_of(
    messages: Seq<MessageV>,
    current_ids: Seq<Seq<char>>,
    latest: Option<int>,
) -> Seq<MessageV>
    decreases messages.len(),
{
    if messages.len() == 0 {
        Seq::empty()
    } else {
        let rest = compactable_of(messages.drop_last(), current_ids, latest);
        if latest != Some(messages.len() - 1) && !current_ids.contains(messages.last().message_id) {
            rest.push(messages.last())
        } else {
            rest
        }
    }
}

/// The latest request context survives compaction unless it belongs to the
/// current turn.
pub open spec fn retained_of(messages: Seq<MessageV>, current_ids: Seq<Seq<char>>) -> Option<
    MessageV,
> {
    match latest_request_context(messages) {
        Some(i) => if current_ids.contains(messages[i].message_id) {
            None
        } else {
            Some(messages[i])
        },
        None => None,
    }
}

proof fn lemma_latest_bounds(messages: Seq<MessageV>)
    ensures
        latest_request_context(messages) matches Some(i) ==> 0 <= i < messages.len()
            && is_request_context(messages[i].message_id),
    decreases messages.len(),
{
    if messages.len() > 0 {
        lemma_latest_bounds(messages.drop_last());
    }
}

proof fn lemma_latest_take(messages: Seq<MessageV>, k: int)
    requires
        0 <= k <= messages.len(),
        forall|j: int| k <= j < messages.len() ==> !is_request_context(#[trigger] messages[j].message_id),
    ensures
        latest_request_context(messages) == latest_request_context(messages.take(k)),
    decreases messages.len() - k,
{
    if k < messages.len() {
        lemma_latest_take(messages.drop_last(), k);
        assert(messages.drop_last().take(k) == messages.take(k));
    } else {
        assert(messages.take(k) == messages);
    }
}

/// Whether a message stays out of compaction because it belongs to the
/// current turn.
pub open spec fn outside_turn(current_ids: Seq<Seq<char>>) -> spec_fn(MessageV) -> bool {
    |m: MessageV| !current_ids.contains(m.message_id)
}

proof fn lemma_compactable_without_latest(messages: Seq<MessageV>, current_ids: Seq<Seq<char>>, latest: Option<int>)
    requires
        latest matches Some(l) ==> !(0 <= l < messages.len()),
    ensures
        compactable_of(messages, current_ids, latest) == messages.filter(outside_turn(current_ids)),
    decreases messages.len(),
{
    reveal(Seq::filter);
    if messages.len() > 0 {
        lemma_compactable_without_latest(messages.drop_last(), current_ids, latest);
    }
}

proof fn lemma_compactable_with_latest(messages: Seq<MessageV>, current_ids: Seq<Seq<char>>, l: int)
    requires
        0 <= l < messages.len(),
    ensures
        compactable_of(messages, current_ids, Some(l)) == messages.remove(l).filter(outside_turn(current_ids)),
    decreases messages.len(),
{
    reveal(Seq::filter);
    let init = messages.drop_last();
    if l == messages.len() - 1 {
        lemma_compactable_without_latest(init, current_ids, Some(l));
        assert(messages.remove(l) =~= init);
    } else {
        lemma_compactable_with_latest(init, current_ids, l);
        let removed = messages.remove(l);
        assert(removed.drop_last() =~= init.remove(l));
        assert(removed.last() == messages.last());
    }
}

/// Compaction summarizes exactly the messages outside the current turn, in
/// order, except the latest request context; only that message can be kept
/// apart, and it is kept exactly when it is outside the current turn, so no
/// message is both summarized and kept.
pub proof fn law_partition_splits_the_history(messages: Seq<MessageV>, current_ids: Seq<Seq<char>>)
    ensures
        latest_request_context(messages) is None ==> compactable_of(
            messages,
            current_ids,
            latest_request_context(messages),
        ) == messages.filter(outside_turn(current_ids)) && retained_of(messages, current_ids) is None,
        latest_request_context(messages) matches Some(l) ==> 0 <= l < messages.len()
            && is_request_context(messages[l].message_id) && compactable_of(
            messages,
            current_ids,
            Some(l),
        ) == messages.remove(l).filter(outside_turn(current_ids)) && retained_of(messages, current_ids)
            == (if current_ids.contains(messages[l].message_id) {
            None
        } else {
            Some(messages[l])
        }),
{
    lemma_latest_bounds(messages);
    match latest_request_context(messages) {
        Some(l) => lemma_compactable_with_latest(messages, current_ids, l),
        None => lemma_compactable_without_latest(messages, current_ids, None),
    }
}

fn contains_id(ids: &[String], id: &String) -> (r: bool)
    ensures
        r == ids@.map_values(|s: String| s@).contains(id@),
{
    let mut i: usize = 0;
    while i < ids.len()
        invariant
            i <= ids.len(),
            forall|j: int| 0 <= j < i ==> ids@[j]@ != id@,
        decreases ids.len() - i,
    {
        if ids[i] == *id {
            assert(ids@.map_values(|s: String| s@)[i as int] == id@);
            return true;
        }
        i += 1;
    }
    false
}

/// Splits history into the messages to summarize and the request context to
/// keep: the latest request-context message is kept unless it belongs to the
/// current turn; messages of the current turn are neither summarized nor kept.
pub fn partition(messages: &[CanonicalMessage], current_ids: &[String]) -> (r: (
    Vec<CanonicalMessage>,
    Option<CanonicalMessage>,
))
    ensures
        ({
            let ms = messages_view(messages@);
            let ids = current_ids@.map_values(|s: String| s@);
            &&& messages_view(r.0@) == compactable_of(ms, ids, latest_request_context(ms))
            &&& match (r.1, retained_of(ms, ids)) {
                (Some(m), Some(v)) => m@ == v,
                (None, None) => true,
                _ => false,
            }
        }),
{
    let ghost ms = messages_view(messages@);
    let ghost ids = current_ids@.map_values(|s: String| s@);
    let mut latest: Option<usize> = None;
    let mut k: usize = messages.len();
    while k > 0 && latest.is_none()
        invariant
            k <= messages.len(),
            ms == messages_view(messages@),
            latest matches Some(l) ==> l == k && k < messages.len() && is_request_context(
                ms[l as int].message_id,
            ),
            forall|j: int| k < j < messages.len() ==> !is_request_context(#[trigger] ms[j].message_id),
            latest is None ==> (k < messages.len() ==> !is_request_context(ms[k as int].message_id)),
        decreases k,
    {
        if has_prefix(messages[k - 1].message_id.as_str(), REQUEST_CONTEXT_PREFIX) {
            latest = Some(k - 1);
        }
        k -= 1;
    }
    proof {
        match latest {
            Some(i) => {
                lemma_latest_take(ms, i + 1);
                assert(ms.take(i + 1).drop_last() =~= ms.take(i as int));
                assert(ms.take(i + 1).last() == ms[i as int]);
            },
            None => {
                assert(forall|j: int| 0 <= j < messages.len() ==> !is_request_context(#[trigger] ms[j].message_id));
                lemma_latest_take(ms, 0);
            },
        }
    }
    let ghost latest_spec = latest_request_context(ms);
    assert(latest_spec == match latest {
        Some(i) => Some(i as int),
        None => None::<int>,
    });
    let mut compactable: Vec<CanonicalMessage> = Vec::new();
    let mut i: usize = 0;
    while i < messages.len()
        invariant
            i <= messages.len(),
            ms == messages_view(messages@),
            ids == current_ids@.map_values(|s: String| s@),
            latest_spec == match latest {
                Some(i) => Some(i as int),
                None => None::<int>,
            },
            messages_view(compactable@) == compactable_of(ms.take(i as int), ids, latest_spec),
        decreases messages.len() - i,
    {
        let keep_index = match latest {
            Some(l) => l != i,
            None => true,
        };
        let ghost prev = compactable@;
        assert(ms.take(i + 1).drop_last() == ms.take(i as int));
        assert(ms.take(i + 1).last() == messages@[i as int]@);
        if keep_index && !contains_id(current_ids, &messages[i].message_id) {
            compactable.push(messages[i].clone_message());
            assert(messages_view(compactable@) =~= messages_view(prev).push(messages@[i as int]@));
        }
        i += 1;
    }
    assert(ms.take(messages.len() as int) == ms);
    let retained = match latest {
        Some(l) => {
            if contains_id(current_ids, &messages[l].message_id) {
                None
            } else {
                Some(messages[l].clone_message())
            }
        },
        None => None,
    };
    (compactable, retained)
}

/// The text of a fallback summary: a fixed heading followed by the last
/// `FALLBACK_CHARS` characters of the serialized history.
pub open spec fn fallback_text(serialized: Seq<char>) -> Seq<char> {
    let start = if serialized.len() > FALLBACK_CHARS {
        serialized.len() - FALLBACK_CHARS
    } else {
        0
    };
    "Durable recent conversation state:\n"@ + serialized.skip(start)
}

/// Builds the fallback summary from the serialized history.
pub fn fallback_summary(serialized: &str) -> (r: String)
    ensures
        r@ == fallback_text(serialized@),
{
    let chars = chars_of(serialized);
    let start = if chars.len() > FALLBACK_CHARS {
        chars.len() - FALLBACK_CHARS
    } else {
        0
    };
    let mut tail: Vec<char> = Vec::new();
    let mut i: usize = start;
    while i < chars.len()
        invariant
            start <= i <= chars.len(),
            tail@ == chars@.subrange(start as int, i as int),
        decreases chars.len() - i,
    {
        tail.push(chars[i]);
        i += 1;
        assert(tail@ =~= chars@.subrange(start as int, i as int));
    }
    assert(tail@ =~= serialized@.skip(start as int));
    let mut summary = String::from_str("Durable recent conversation state:\n");
    summary.append(string_from_chars(&tail).as_str());
    summary
}

} // verus!
