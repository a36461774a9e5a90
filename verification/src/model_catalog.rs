//! Builds the catalog entries that publish configured models to Cursor.
use vstd::prelude::*;

use crate::error::Error;
use crate::text::{lemma_decimal_digits, concat2, concat3, str_eq, u64_to_decimal, decimal};
use crate::token_count::{format_token_count, parse_token_count, token_count_of, token_count_text};

verus! {

/// The API family of a configured model.
#[derive(Clone, Copy, Debug, PartialEq, Eq, Structural)]
pub enum ModelType {
    OpenAi,
    Anthropic,
}

/// A model the user configured.
#[derive(Debug)]
pub struct ModelConfig {
    pub model_hash: String,
    pub display_name: String,
    pub tooltip_data: String,
    pub context_window_tokens: Option<u64>,
    pub model_type: ModelType,
}

#[derive(Debug)]
pub struct TooltipData {
    pub markdown_content: Option<String>,
}

#[derive(Debug)]
pub struct ModelParameterDefinition {
    pub id: String,
    pub name: String,
    pub markdown_tooltip: Option<String>,
    pub parameter_type: Option<ModelParameterType>,
    pub is_cycleable_by_hotkey: Option<bool>,
}

#[derive(Debug)]
pub struct ModelParameterType {
    pub boolean_parameter: Option<BooleanParameter>,
    pub enum_parameter: Option<EnumParameter>,
}

#[derive(Debug)]
pub struct BooleanParameter {
    pub values: Vec<BooleanParameterValue>,
}

#[derive(Debug)]
pub struct BooleanParameterValue {
    pub value: String,
    pub display_name: Option<String>,
    pub increases_model_cost: Option<bool>,
}

#[derive(Debug)]
pub struct EnumParameter {
    pub values: Vec<EnumParameterValue>,
}

#[derive(Debug)]
pub struct EnumParameterValue {
    pub value: String,
    pub display_name: Option<String>,
}

#[derive(Debug)]
pub struct ModelVariant {
    pub parameter_values: Vec<ModelParameterValue>,
    pub display_name: String,
    pub is_max_mode: bool,
    pub is_default_max_config: Option<bool>,
    pub is_default_non_max_config: Option<bool>,
    pub tooltip_data: Option<TooltipData>,
    pub display_name_outside_picker: Option<String>,
    pub variant_string_representation: Option<String>,
    pub legacy_slug: Option<String>,
}

#[derive(Debug)]
pub struct ModelParameterValue {
    pub id: String,
    pub value: String,
}

#[derive(Debug)]
pub struct ModelPickerBadge {
    pub label: String,
    pub variant: i32,
    pub dismiss_on_selection: bool,
}

#[derive(Debug)]
pub struct AvailableModelVendor {
    pub id: i32,
    pub display_name: String,
}

/// One model of Cursor's `AvailableModels` catalog.
#[derive(Debug)]
pub struct AvailableModel {
    pub name: String,
    pub default_on: bool,
    pub supports_agent: Option<bool>,
    pub degradation_status: Option<i32>,
    pub tooltip_data: Option<TooltipData>,
    pub supports_thinking: Option<bool>,
    pub supports_images: Option<bool>,
    pub supports_max_mode: Option<bool>,
    pub client_display_name: Option<String>,
    pub server_model_name: Option<String>,
    pub supports_non_max_mode: Option<bool>,
    pub tooltip_data_for_max_mode: Option<TooltipData>,
    pub is_recommended_for_background_composer: Option<bool>,
    pub supports_plan_mode: Option<bool>,
    pub inputbox_short_model_name: Option<String>,
    pub supports_sandboxing: Option<bool>,
    pub supports_cmd_k: Option<bool>,
    pub parameter_definitions: Vec<ModelParameterDefinition>,
    pub variants: Vec<ModelVariant>,
    pub legacy_slugs: Vec<String>,
    pub named_model_section_index: Option<i32>,
    pub vendor_name: Option<String>,
    pub vendor: Option<AvailableModelVendor>,
    pub model_picker_badges: Vec<ModelPickerBadge>,
}

/// One model of Cursor's `GetUsableModels` catalog.
#[derive(Debug)]
pub struct ModelDetails {
    pub model_id: String,
    pub display_model_id: String,
    pub display_name: String,
    pub display_name_short: String,
    pub thinking_details: Option<ThinkingDetails>,
}

#[derive(Debug)]
pub struct ThinkingDetails {}

/// The context sizes every model offers, as (value, display name).
pub open spec fn builtin_contexts() -> Seq<(Seq<char>, Seq<char>)> {
    seq![("200k"@, "200K"@), ("356k"@, "356K"@), ("800k"@, "800K"@), ("1m"@, "1M"@)]
}

/// The reasoning efforts every model offers, as (value, display name).
pub open spec fn efforts() -> Seq<(Seq<char>, Seq<char>)> {
    seq![("low"@, "Low"@), ("medium"@, "Medium"@), ("high"@, "High"@), ("xhigh"@, "Extra High"@), ("max"@, "Max"@)]
}

/// The context offered by default.
pub open spec fn default_context() -> Seq<char> {
    "200k"@
}

pub open spec fn pairs_view(v: Seq<(String, String)>) -> Seq<(Seq<char>, Seq<char>)> {
    v.map_values(|p: (String, String)| (p.0@, p.1@))
}

/// The context options of a model: the built-in sizes, then the model's own
/// window when no built-in size already denotes it.
pub open spec fn context_options_of(model: ModelConfig) -> Seq<(Seq<char>, Seq<char>)> {
    match model.context_window_tokens {
        Some(tokens) => if exists|i: int|
            0 <= i < 4 && token_count_of(#[trigger] builtin_contexts()[i].0) == Some(tokens) {
            builtin_contexts()
        } else {
            builtin_contexts().push((decimal(tokens as nat), token_count_text(tokens) + " (Custom)"@))
        },
        None => builtin_contexts(),
    }
}

fn pair(a: &str, b: &str) -> (r: (String, String))
    ensures
        r.0@ == a@,
        r.1@ == b@,
{
    (a.to_owned(), b.to_owned())
}

fn builtin_context_list() -> (r: Vec<(String, String)>)
    ensures
        pairs_view(r@) == builtin_contexts(),
{
    let mut v: Vec<(String, String)> = Vec::new();
    v.push(pair("200k", "200K"));
    v.push(pair("356k", "356K"));
    v.push(pair("800k", "800K"));
    v.push(pair("1m", "1M"));
    assert(pairs_view(v@) =~= builtin_contexts());
    v
}

fn effort_list() -> (r: Vec<(String, String)>)
    ensures
        pairs_view(r@) == efforts(),
{
    let mut v: Vec<(String, String)> = Vec::new();
    v.push(pair("low", "Low"));
    v.push(pair("medium", "Medium"));
    v.push(pair("high", "High"));
    v.push(pair("xhigh", "Extra High"));
    v.push(pair("max", "Max"));
    assert(pairs_view(v@) =~= efforts());
    v
}

/// The context options of a model.
pub fn context_options(model: &ModelConfig) -> (r: Vec<(String, String)>)
    ensures
        pairs_view(r@) == context_options_of(*model),
{
    let mut contexts = builtin_context_list();
    if let Some(tokens) = model.context_window_tokens {
        let mut duplicate = false;
        let mut i: usize = 0;
        while i < contexts.len()
            invariant
                pairs_view(contexts@) == builtin_contexts(),
                i <= contexts.len(),
                duplicate == exists|j: int|
                    0 <= j < i && token_count_of(#[trigger] builtin_contexts()[j].0) == Some(tokens),
            decreases contexts.len() - i,
        {
            assert(contexts@[i as int].0@ == builtin_contexts()[i as int].0);
            if parse_token_count(contexts[i].0.as_str()) == Some(tokens) {
                duplicate = true;
            }
            i += 1;
        }
        if !duplicate {
            let value = u64_to_decimal(tokens);
            let name = concat2(format_token_count(tokens).as_str(), " (Custom)");
            let ghost before = contexts@;
            contexts.push((value, name));
            assert(pairs_view(contexts@) =~= pairs_view(before).push((value@, name@)));
        }
    }
    contexts
}

proof fn lemma_token_count_k(s: Seq<char>, digits: Seq<char>, suffix: char, value: nat, tokens: u64)
    requires
        s == digits.push(suffix),
        digits.len() > 0,
        crate::text::is_digit(digits[0]),
        !crate::text::is_space(s[0]),
        !crate::text::is_space(suffix),
        suffix == 'k' || suffix == 'm',
        crate::text::all_digits(digits),
        crate::text::digits_value(digits) == value,
        tokens == value * (if suffix == 'k' { 1000nat } else { 1000000nat }),
    ensures
        token_count_of(s) == Some(tokens),
{
    assert(crate::text::trim_start(s) == s);
    assert(crate::text::trim_end(s) == s);
    let v = crate::text::lower(s);
    assert(v =~= s);
    assert(v.drop_last() =~= digits);
    assert(crate::text::parse_u64(digits) == Some(value as u64));
}

/// The built-in context values denote 200 000, 356 000, 800 000 and 1 000 000 tokens.
pub proof fn lemma_builtin_context_tokens()
    ensures
        token_count_of(builtin_contexts()[0].0) == Some(200000u64),
        token_count_of(builtin_contexts()[1].0) == Some(356000u64),
        token_count_of(builtin_contexts()[2].0) == Some(800000u64),
        token_count_of(builtin_contexts()[3].0) == Some(1000000u64),
{
    reveal_strlit("200k");
    reveal_strlit("356k");
    reveal_strlit("800k");
    reveal_strlit("1m");
    reveal_with_fuel(crate::text::digits_value, 4);
    let d200 = seq!['2', '0', '0'];
    let d356 = seq!['3', '5', '6'];
    let d800 = seq!['8', '0', '0'];
    let d1 = seq!['1'];
    assert(d200.drop_last() =~= seq!['2', '0']);
    assert(seq!['2', '0'].drop_last() =~= seq!['2']);
    assert(seq!['2'].drop_last() =~= Seq::<char>::empty());
    assert(d356.drop_last() =~= seq!['3', '5']);
    assert(seq!['3', '5'].drop_last() =~= seq!['3']);
    assert(seq!['3'].drop_last() =~= Seq::<char>::empty());
    assert(d800.drop_last() =~= seq!['8', '0']);
    assert(seq!['8', '0'].drop_last() =~= seq!['8']);
    assert(seq!['8'].drop_last() =~= Seq::<char>::empty());
    assert(d1.drop_last() =~= Seq::<char>::empty());
    assert("200k"@ =~= d200.push('k'));
    assert("356k"@ =~= d356.push('k'));
    assert("800k"@ =~= d800.push('k'));
    assert("1m"@ =~= d1.push('m'));
    lemma_token_count_k("200k"@, d200, 'k', 200, 200000);
    lemma_token_count_k("356k"@, d356, 'k', 356, 356000);
    lemma_token_count_k("800k"@, d800, 'k', 800, 800000);
    lemma_token_count_k("1m"@, d1, 'm', 1, 1000000);
}

/// A model's own context window adds one custom option, after the built-in
/// ones, exactly when it is none of the built-in sizes (200K, 356K, 800K and
/// 1M tokens); otherwise the options are the built-in ones alone.
pub proof fn law_custom_context_option(model: ModelConfig, tokens: u64)
    requires
        model.context_window_tokens == Some(tokens),
    ensures
        (context_options_of(model).len() == 5) <==> !(tokens == 200000 || tokens == 356000 || tokens
            == 800000 || tokens == 1000000),
        context_options_of(model).len() == 5 ==> context_options_of(model)[4] == (
            decimal(tokens as nat),
            token_count_text(tokens) + " (Custom)"@,
        ),
        context_options_of(model).len() != 5 ==> context_options_of(model) == builtin_contexts(),
{
    lemma_builtin_context_tokens();
    if tokens == 200000 || tokens == 356000 || tokens == 800000 || tokens == 1000000 {
        if tokens == 200000 {
            assert(token_count_of(builtin_contexts()[0].0) == Some(tokens));
        } else if tokens == 356000 {
            assert(token_count_of(builtin_contexts()[1].0) == Some(tokens));
        } else if tokens == 800000 {
            assert(token_count_of(builtin_contexts()[2].0) == Some(tokens));
        } else {
            assert(token_count_of(builtin_contexts()[3].0) == Some(tokens));
        }
    } else {
        assert forall|i: int| 0 <= i < 4 implies token_count_of(#[trigger] builtin_contexts()[i].0)
            != Some(tokens) by {
            if i == 0 {
            } else if i == 1 {
            } else if i == 2 {
            } else {
            }
        }
    }
}

/// Whether a tooltip carries exactly the model's tooltip text.
pub open spec fn is_model_tooltip(t: TooltipData, model: ModelConfig) -> bool {
    t.markdown_content matches Some(m) && m@ == model.tooltip_data@
}

/// The tooltip of a model.
pub fn model_tooltip(model: &ModelConfig) -> (r: TooltipData)
    ensures
        is_model_tooltip(r, *model),
{
    TooltipData { markdown_content: Some(model.tooltip_data.clone()) }
}

pub open spec fn bool_text(b: bool) -> Seq<char> {
    if b {
        "true"@
    } else {
        "false"@
    }
}

/// The variant's label after the model name: the context (unless it is the
/// default), the effort, and `Fast` when fast, separated by spaces.
pub open spec fn variant_suffix(
    context: Seq<char>,
    context_name: Seq<char>,
    effort_name: Seq<char>,
    fast: bool,
) -> Seq<char> {
    (if context != default_context() {
        context_name + " "@
    } else {
        Seq::empty()
    }) + effort_name + (if fast {
        " Fast"@
    } else {
        Seq::empty()
    })
}

pub open spec fn variant_display_name(model: ModelConfig, suffix: Seq<char>) -> Seq<char> {
    model.display_name@ + " <span style=\"color: var(--cursor-text-tertiary);\">"@ + suffix
        + "</span>"@
}

/// Whether a variant is the model's variant for the given context, effort and
/// speed. The default variant is the default context at high effort, not fast.
pub open spec fn is_variant_of(
    v: ModelVariant,
    model: ModelConfig,
    context: Seq<char>,
    context_name: Seq<char>,
    effort: Seq<char>,
    effort_name: Seq<char>,
    fast: bool,
) -> bool {
    let display = variant_display_name(model, variant_suffix(context, context_name, effort_name, fast));
    let is_default = context == default_context() && effort == "high"@ && !fast;
    &&& v.parameter_values@.len() == 3
    &&& v.parameter_values@[0].id@ == "context"@ && v.parameter_values@[0].value@ == context
    &&& v.parameter_values@[1].id@ == "reasoning"@ && v.parameter_values@[1].value@ == effort
    &&& v.parameter_values@[2].id@ == "fast"@ && v.parameter_values@[2].value@ == bool_text(fast)
    &&& v.display_name@ == display
    &&& !v.is_max_mode
    &&& v.is_default_max_config == (if is_default { Some(true) } else { None })
    &&& v.is_default_non_max_config == (if is_default { Some(true) } else { None })
    &&& (v.tooltip_data matches Some(t) && is_model_tooltip(t, model))
    &&& (v.display_name_outside_picker matches Some(d) && d@ == display)
    &&& (v.variant_string_representation matches Some(s) && s@ == model.model_hash@ + "[context="@
        + context + ",reasoning="@ + effort + ",fast="@ + bool_text(fast) + "]"@)
    &&& (v.legacy_slug matches Some(s) && s@ == model.model_hash@ + "-"@ + context + "-"@ + effort
        + (if fast {
        "-fast"@
    } else {
        Seq::empty()
    }))
}

fn bool_string(b: bool) -> (r: &'static str)
    ensures
        r@ == bool_text(b),
{
    if b {
        "true"
    } else {
        "false"
    }
}

fn parameter_value(id: &str, value: &str) -> (r: ModelParameterValue)
    ensures
        r.id@ == id@,
        r.value@ == value@,
{
    ModelParameterValue { id: id.to_owned(), value: value.to_owned() }
}

/// One variant of a model.
pub fn model_variant(
    model: &ModelConfig,
    context: &str,
    context_name: &str,
    effort: &str,
    effort_name: &str,
    fast: bool,
) -> (r: ModelVariant)
    ensures
        is_variant_of(r, *model, context@, context_name@, effort@, effort_name@, fast),
{
    let is_default_context = str_eq(context, "200k");
    let mut suffix = String::new();
    if !is_default_context {
        suffix.append(context_name);
        suffix.append(" ");
    }
    suffix.append(effort_name);
    if fast {
        suffix.append(" Fast");
    }
    proof {
        assert(Seq::<char>::empty() + effort_name@ =~= effort_name@);
        assert(effort_name@ + Seq::<char>::empty() =~= effort_name@);
        assert(suffix@ =~= variant_suffix(context@, context_name@, effort_name@, fast));
    }
    let mut display_name = model.display_name.clone();
    display_name.append(" <span style=\"color: var(--cursor-text-tertiary);\">");
    display_name.append(suffix.as_str());
    display_name.append("</span>");
    let is_default = is_default_context && str_eq(effort, "high") && !fast;
    let mut parameter_values: Vec<ModelParameterValue> = Vec::new();
    parameter_values.push(parameter_value("context", context));
    parameter_values.push(parameter_value("reasoning", effort));
    parameter_values.push(parameter_value("fast", bool_string(fast)));
    let mut representation = model.model_hash.clone();
    representation.append("[context=");
    representation.append(context);
    representation.append(",reasoning=");
    representation.append(effort);
    representation.append(",fast=");
    representation.append(bool_string(fast));
    representation.append("]");
    let mut slug = model.model_hash.clone();
    slug.append("-");
    slug.append(context);
    slug.append("-");
    slug.append(effort);
    if fast {
        slug.append("-fast");
    }
    proof {
        assert(slug@ =~= model.model_hash@ + "-"@ + context@ + "-"@ + effort@ + (if fast {
            "-fast"@
        } else {
            Seq::empty()
        }));
    }
    ModelVariant {
        parameter_values,
        display_name: display_name.clone(),
        is_max_mode: false,
        is_default_max_config: if is_default {
            Some(true)
        } else {
            None
        },
        is_default_non_max_config: if is_default {
            Some(true)
        } else {
            None
        },
        tooltip_data: Some(model_tooltip(model)),
        display_name_outside_picker: Some(display_name),
        variant_string_representation: Some(representation),
        legacy_slug: Some(slug),
    }
}

/// Every variant of a model: for each context option in order, each effort in
/// order, first not fast and then fast.
pub fn model_variants(model: &ModelConfig, contexts: &Vec<(String, String)>) -> (r: Vec<ModelVariant>)
    requires
        contexts@.len() * 10 <= usize::MAX,
    ensures
        r@.len() == contexts@.len() * 10,
        forall|c: int, e: int, f: int|
            0 <= c < contexts@.len() && 0 <= e < 5 && 0 <= f < 2 ==> is_variant_of(
                #[trigger] r@[c * 10 + e * 2 + f],
                *model,
                contexts@[c].0@,
                contexts@[c].1@,
                efforts()[e].0,
                efforts()[e].1,
                f == 1,
            ),
{
    let effort_values = effort_list();
    assert(effort_values@.len() == pairs_view(effort_values@).len());
    let mut variants: Vec<ModelVariant> = Vec::new();
    let mut c: usize = 0;
    while c < contexts.len()
        invariant
            c <= contexts@.len(),
            contexts@.len() * 10 <= usize::MAX,
            pairs_view(effort_values@) == efforts(),
            effort_values@.len() == 5,
            variants@.len() == c * 10,
            forall|ci: int, e: int, f: int|
                0 <= ci < c && 0 <= e < 5 && 0 <= f < 2 ==> is_variant_of(
                    #[trigger] variants@[ci * 10 + e * 2 + f],
                    *model,
                    contexts@[ci].0@,
                    contexts@[ci].1@,
                    efforts()[e].0,
                    efforts()[e].1,
                    f == 1,
                ),
        decreases contexts@.len() - c,
    {
        let mut e: usize = 0;
        while e < 5
            invariant
                c < contexts@.len(),
                e <= 5,
                pairs_view(effort_values@) == efforts(),
                effort_values@.len() == 5,
                variants@.len() == c * 10 + e * 2,
                forall|ci: int, ei: int, f: int|
                    0 <= ci < c && 0 <= ei < 5 && 0 <= f < 2 ==> is_variant_of(
                        #[trigger] variants@[ci * 10 + ei * 2 + f],
                        *model,
                        contexts@[ci].0@,
                        contexts@[ci].1@,
                        efforts()[ei].0,
                        efforts()[ei].1,
                        f == 1,
                    ),
                forall|ei: int, f: int|
                    0 <= ei < e && 0 <= f < 2 ==> is_variant_of(
                        #[trigger] variants@[c * 10 + ei * 2 + f],
                        *model,
                        contexts@[c as int].0@,
                        contexts@[c as int].1@,
                        efforts()[ei].0,
                        efforts()[ei].1,
                        f == 1,
                    ),
            decreases 5 - e,
        {
            assert(effort_values@[e as int].0@ == efforts()[e as int].0);
            assert(effort_values@[e as int].1@ == efforts()[e as int].1);
            let slow = model_variant(
                model,
                contexts[c].0.as_str(),
                contexts[c].1.as_str(),
                effort_values[e].0.as_str(),
                effort_values[e].1.as_str(),
                false,
            );
            variants.push(slow);
            let quick = model_variant(
                model,
                contexts[c].0.as_str(),
                contexts[c].1.as_str(),
                effort_values[e].0.as_str(),
                effort_values[e].1.as_str(),
                true,
            );
            variants.push(quick);
            e += 1;
        }
        c += 1;
    }
    variants
}

/// Whether enum parameter values list exactly the given (value, display name) pairs.
pub open spec fn lists_options(values: Seq<EnumParameterValue>, options: Seq<(Seq<char>, Seq<char>)>) -> bool {
    &&& values.len() == options.len()
    &&& forall|i: int|
        0 <= i < values.len() ==> (#[trigger] values[i]).value@ == options[i].0
            && (values[i].display_name matches Some(d) && d@ == options[i].1)
}

/// Whether a definition is the enum parameter with the given id, name, tooltip,
/// options and hotkey cycling.
pub open spec fn is_enum_parameter(
    d: ModelParameterDefinition,
    id: Seq<char>,
    name: Seq<char>,
    tooltip: Seq<char>,
    options: Seq<(Seq<char>, Seq<char>)>,
    cycleable: bool,
) -> bool {
    &&& d.id@ == id
    &&& d.name@ == name
    &&& (d.markdown_tooltip matches Some(t) && t@ == tooltip)
    &&& (d.parameter_type matches Some(p) && p.boolean_parameter is None && (p.enum_parameter matches Some(
        e,
    ) && lists_options(e.values@, options)))
    &&& d.is_cycleable_by_hotkey == Some(cycleable)
}

/// Whether a definition is the `fast` switch: off with no label, on labelled
/// `Fast` and marked as costing more.
pub open spec fn is_fast_parameter(d: ModelParameterDefinition) -> bool {
    &&& d.id@ == "fast"@
    &&& d.name@ == "Fast"@
    &&& (d.markdown_tooltip matches Some(t) && t@ == "Significantly faster but consumes more usage"@)
    &&& (d.parameter_type matches Some(p) && p.enum_parameter is None && (p.boolean_parameter matches Some(
        b,
    ) && b.values@.len() == 2 && b.values@[0].value@ == "false"@ && b.values@[0].display_name is None
        && b.values@[0].increases_model_cost is None && b.values@[1].value@ == "true"@ && (
    b.values@[1].display_name matches Some(n) && n@ == "Fast"@) && b.values@[1].increases_model_cost
        == Some(true)))
    &&& d.is_cycleable_by_hotkey == Some(false)
}

/// Whether definitions are the three parameters of a model: its context
/// options, the reasoning efforts, and the fast switch.
pub open spec fn are_model_parameters(
    defs: Seq<ModelParameterDefinition>,
    contexts: Seq<(Seq<char>, Seq<char>)>,
) -> bool {
    &&& defs.len() == 3
    &&& is_enum_parameter(
        defs[0],
        "context"@,
        "Context"@,
        "Context size used to trigger conversation compaction."@,
        contexts,
        false,
    )
    &&& is_enum_parameter(
        defs[1],
        "reasoning"@,
        "Effort"@,
        "Effort the model uses to generate its response."@,
        efforts(),
        true,
    )
    &&& is_fast_parameter(defs[2])
}

fn enum_values(options: &Vec<(String, String)>) -> (r: Vec<EnumParameterValue>)
    ensures
        lists_options(r@, pairs_view(options@)),
{
    let mut values: Vec<EnumParameterValue> = Vec::new();
    let mut i: usize = 0;
    while i < options.len()
        invariant
            i <= options.len(),
            values@.len() == i,
            forall|j: int|
                0 <= j < i ==> (#[trigger] values@[j]).value@ == options@[j].0@
                    && (values@[j].display_name matches Some(d) && d@ == options@[j].1@),
        decreases options.len() - i,
    {
        values.push(
            EnumParameterValue {
                value: options[i].0.clone(),
                display_name: Some(options[i].1.clone()),
            },
        );
        i += 1;
    }
    values
}

fn enum_parameter(
    id: &str,
    name: &str,
    tooltip: &str,
    options: &Vec<(String, String)>,
    cycleable: bool,
) -> (r: ModelParameterDefinition)
    ensures
        is_enum_parameter(r, id@, name@, tooltip@, pairs_view(options@), cycleable),
{
    ModelParameterDefinition {
        id: id.to_owned(),
        name: name.to_owned(),
        markdown_tooltip: Some(tooltip.to_owned()),
        parameter_type: Some(
            ModelParameterType {
                boolean_parameter: None,
                enum_parameter: Some(EnumParameter { values: enum_values(options) }),
            },
        ),
        is_cycleable_by_hotkey: Some(cycleable),
    }
}

/// The parameter definitions of a model with the given context options.
pub fn model_parameters(contexts: &Vec<(String, String)>) -> (r: Vec<ModelParameterDefinition>)
    ensures
        are_model_parameters(r@, pairs_view(contexts@)),
{
    let mut definitions: Vec<ModelParameterDefinition> = Vec::new();
    definitions.push(
        enum_parameter(
            "context",
            "Context",
            "Context size used to trigger conversation compaction.",
            contexts,
            false,
        ),
    );
    definitions.push(
        enum_parameter(
            "reasoning",
            "Effort",
            "Effort the model uses to generate its response.",
            &effort_list(),
            true,
        ),
    );
    let mut values: Vec<BooleanParameterValue> = Vec::new();
    values.push(
        BooleanParameterValue {
            value: "false".to_owned(),
            display_name: None,
            increases_model_cost: None,
        },
    );
    values.push(
        BooleanParameterValue {
            value: "true".to_owned(),
            display_name: Some("Fast".to_owned()),
            increases_model_cost: Some(true),
        },
    );
    definitions.push(
        ModelParameterDefinition {
            id: "fast".to_owned(),
            name: "Fast".to_owned(),
            markdown_tooltip: Some("Significantly faster but consumes more usage".to_owned()),
            parameter_type: Some(
                ModelParameterType {
                    boolean_parameter: Some(BooleanParameter { values }),
                    enum_parameter: None,
                },
            ),
            is_cycleable_by_hotkey: Some(false),
        },
    );
    definitions
}

/// The picker badge of a model: its API family.
pub open spec fn badge_label(model_type: ModelType) -> Seq<char> {
    match model_type {
        ModelType::OpenAi => "OpenAI"@,
        ModelType::Anthropic => "Anthropic"@,
    }
}

pub open spec fn some_text(value: Option<String>, text: Seq<char>) -> bool {
    value matches Some(v) && v@ == text
}

pub open spec fn some_tooltip(value: Option<TooltipData>, model: ModelConfig) -> bool {
    value matches Some(t) && is_model_tooltip(t, model)
}

/// Whether `a` is the catalog entry of `model`: the model's hash names it, its
/// display name labels it, it supports agent, thinking, images, max and
/// non-max mode, plan mode and sandboxing but not Cmd-K, and it offers every
/// variant of its context options, efforts and speeds, with their slugs.
pub open spec fn is_available_model(a: AvailableModel, model: ModelConfig) -> bool {
    let contexts = context_options_of(model);
    &&& a.name@ == model.model_hash@
    &&& a.default_on
    &&& a.supports_agent == Some(true)
    &&& a.degradation_status == Some(0i32)
    &&& some_tooltip(a.tooltip_data, model)
    &&& a.supports_thinking == Some(true)
    &&& a.supports_images == Some(true)
    &&& a.supports_max_mode == Some(true)
    &&& some_text(a.client_display_name, model.display_name@)
    &&& some_text(a.server_model_name, model.model_hash@)
    &&& a.supports_non_max_mode == Some(true)
    &&& some_tooltip(a.tooltip_data_for_max_mode, model)
    &&& a.is_recommended_for_background_composer == Some(false)
    &&& a.supports_plan_mode == Some(true)
    &&& some_text(a.inputbox_short_model_name, model.display_name@)
    &&& a.supports_sandboxing == Some(true)
    &&& a.supports_cmd_k == Some(false)
    &&& are_model_parameters(a.parameter_definitions@, contexts)
    &&& a.variants@.len() == contexts.len() * 10
    &&& (forall|c: int, e: int, f: int|
        0 <= c < contexts.len() && 0 <= e < 5 && 0 <= f < 2 ==> is_variant_of(
            #[trigger] a.variants@[c * 10 + e * 2 + f],
            model,
            contexts[c].0,
            contexts[c].1,
            efforts()[e].0,
            efforts()[e].1,
            f == 1,
        ))
    &&& a.legacy_slugs@.len() == a.variants@.len()
    &&& (forall|i: int|
        0 <= i < a.variants@.len() ==> ((#[trigger] a.variants@[i]).legacy_slug matches Some(s) && s@
            == a.legacy_slugs@[i]@))
    &&& a.named_model_section_index == Some(1i32)
    &&& some_text(a.vendor_name, "cursor"@)
    &&& (a.vendor matches Some(v) && v.id == 6 && v.display_name@ == "Cursor"@)
    &&& a.model_picker_badges@.len() == 1
    &&& a.model_picker_badges@[0].label@ == badge_label(model.model_type)
    &&& a.model_picker_badges@[0].variant == 1
    &&& !a.model_picker_badges@[0].dismiss_on_selection
}

/// The catalog entry of a configured model.
pub fn available_model(model: &ModelConfig) -> (r: AvailableModel)
    ensures
        is_available_model(r, *model),
{
    let contexts = context_options(model);
    assert(contexts@.len() == pairs_view(contexts@).len());
    let variants = model_variants(model, &contexts);
    assert forall|c: int|
        0 <= c < contexts@.len() implies #[trigger] contexts@[c].0@ == context_options_of(*model)[c].0
        && contexts@[c].1@ == context_options_of(*model)[c].1 by {
        assert(pairs_view(contexts@)[c] == (contexts@[c].0@, contexts@[c].1@));
    }
    let mut legacy_slugs: Vec<String> = Vec::new();
    let mut i: usize = 0;
    while i < variants.len()
        invariant
            i <= variants@.len(),
            legacy_slugs@.len() == i,
            forall|c: int, e: int, f: int|
                0 <= c < contexts@.len() && 0 <= e < 5 && 0 <= f < 2 ==> is_variant_of(
                    #[trigger] variants@[c * 10 + e * 2 + f],
                    *model,
                    contexts@[c].0@,
                    contexts@[c].1@,
                    efforts()[e].0,
                    efforts()[e].1,
                    f == 1,
                ),
            variants@.len() == contexts@.len() * 10,
            forall|j: int|
                0 <= j < i ==> ((#[trigger] variants@[j]).legacy_slug matches Some(s) && s@
                    == legacy_slugs@[j]@),
        decreases variants@.len() - i,
    {
        let ghost c: int = i as int / 10;
        let ghost e: int = (i as int % 10) / 2;
        let ghost f: int = i as int % 2;
        assert(i == c * 10 + e * 2 + f);
        assert(is_variant_of(variants@[c * 10 + e * 2 + f], *model, contexts@[c].0@, contexts@[c].1@, efforts()[e].0, efforts()[e].1, f == 1));
        match &variants[i].legacy_slug {
            Some(slug) => legacy_slugs.push(slug.clone()),
            None => {},
        }
        i += 1;
    }
    let label = match model.model_type {
        ModelType::OpenAi => "OpenAI",
        ModelType::Anthropic => "Anthropic",
    };
    let mut badges: Vec<ModelPickerBadge> = Vec::new();
    badges.push(ModelPickerBadge { label: label.to_owned(), variant: 1, dismiss_on_selection: false });
    let parameter_definitions = model_parameters(&contexts);
    AvailableModel {
        name: model.model_hash.clone(),
        default_on: true,
        supports_agent: Some(true),
        degradation_status: Some(0),
        tooltip_data: Some(model_tooltip(model)),
        supports_thinking: Some(true),
        supports_images: Some(true),
        supports_max_mode: Some(true),
        client_display_name: Some(model.display_name.clone()),
        server_model_name: Some(model.model_hash.clone()),
        supports_non_max_mode: Some(true),
        tooltip_data_for_max_mode: Some(model_tooltip(model)),
        is_recommended_for_background_composer: Some(false),
        supports_plan_mode: Some(true),
        inputbox_short_model_name: Some(model.display_name.clone()),
        supports_sandboxing: Some(true),
        supports_cmd_k: Some(false),
        parameter_definitions,
        variants,
        legacy_slugs,
        named_model_section_index: Some(1),
        vendor_name: Some("cursor".to_owned()),
        vendor: Some(AvailableModelVendor { id: 6, display_name: "Cursor".to_owned() }),
        model_picker_badges: badges,
    }
}

/// The usable-model entry of a configured model: identified and named by the
/// model's hash and display name, with thinking details.
pub fn usable_model(model: &ModelConfig) -> (r: ModelDetails)
    ensures
        r.model_id@ == model.model_hash@,
        r.display_model_id@ == model.model_hash@,
        r.display_name@ == model.display_name@,
        r.display_name_short@ == model.display_name@,
        r.thinking_details is Some,
{
    ModelDetails {
        model_id: model.model_hash.clone(),
        display_model_id: model.model_hash.clone(),
        display_name: model.display_name.clone(),
        display_name_short: model.display_name.clone(),
        thinking_details: Some(ThinkingDetails {  }),
    }
}

/// The big-endian 32-bit number in bytes 1 to 4 of a frame header.
pub open spec fn frame_length(body: Seq<u8>) -> nat {
    (body[1] as nat) * 16777216 + (body[2] as nat) * 65536 + (body[3] as nat) * 256 + (body[4] as nat)
}

/// The bytes of a 32-bit number, most significant first.
pub open spec fn be_bytes(n: nat) -> Seq<u8> {
    seq![(n / 16777216) as u8, ((n / 65536) % 256) as u8, ((n / 256) % 256) as u8, (n % 256) as u8]
}

/// How a Connect unary body is read: a body that is exactly one frame (flags,
/// big-endian length, payload) yields its payload, which it may only do when
/// the frame is neither compressed nor terminal (flags zero); any other body is
/// taken whole as an unframed payload.
pub open spec fn unary_of(body: Seq<u8>) -> Result<(bool, Seq<u8>), u8> {
    if body.len() < 5 || frame_length(body) != body.len() - 5 {
        Ok((false, body))
    } else if body[0] != 0 {
        Err(body[0])
    } else {
        Ok((true, body.skip(5)))
    }
}

pub open spec fn frame_error(flags: u8) -> Seq<char> {
    "cannot merge compressed or terminal model catalog frame: flags="@ + decimal(flags as nat)
}

/// Splits a unary response body into whether it was framed and its payload.
pub fn unary_payload(body: &[u8]) -> (r: Result<(bool, &[u8]), Error>)
    ensures
        match unary_of(body@) {
            Ok((framed, payload)) => r matches Ok((f, p)) && f == framed && p@ == payload,
            Err(flags) => r matches Err(Error::Protocol(m)) && m@ == frame_error(flags),
        },
{
    if body.len() < 5 {
        return Ok((false, body));
    }
    let flags = body[0];
    let length: u64 = body[1] as u64 * 16777216 + body[2] as u64 * 65536 + body[3] as u64 * 256
        + body[4] as u64;
    if length != (body.len() - 5) as u64 {
        return Ok((false, body));
    }
    if flags != 0 {
        let mut message = String::from_str("cannot merge compressed or terminal model catalog frame: flags=");
        message.append(u64_to_decimal(flags as u64).as_str());
        return Err(Error::Protocol(message));
    }
    let payload = vstd::slice::slice_subrange(body, 5, body.len());
    assert(payload@ =~= body@.skip(5));
    Ok((true, payload))
}

/// The body answered for a model catalog request.
#[derive(Debug)]
pub enum MergedBody {
    /// Only the local catalog, sent as a fresh `application/proto` response.
    Local(Vec<u8>),
    /// The upstream response with the local catalog appended to its body.
    Upstream(Vec<u8>),
}

/// The merged body: an unframed payload is followed by the local entries; a
/// framed one becomes one frame again, whose length (taken modulo 2^32, as a
/// 32-bit field holds it) covers both.
pub open spec fn merged_of(framed: bool, payload: Seq<u8>, extra: Seq<u8>) -> Seq<u8> {
    if framed {
        seq![0u8] + be_bytes(((payload.len() + extra.len()) % 4294967296) as nat) + payload + extra
    } else {
        payload + extra
    }
}

fn append_bytes(out: &mut Vec<u8>, bytes: &[u8])
    ensures
        final(out)@ == old(out)@ + bytes@,
{
    let mut i: usize = 0;
    while i < bytes.len()
        invariant
            i <= bytes.len(),
            out@ == old(out)@ + bytes@.take(i as int),
        decreases bytes.len() - i,
    {
        out.push(bytes[i]);
        i += 1;
        assert(out@ =~= old(out)@ + bytes@.take(i as int));
    }
    assert(bytes@.take(bytes.len() as int) =~= bytes@);
}

/// Appends the local catalog to an upstream response: a refused upstream
/// answer is replaced by the local catalog alone; an accepted one keeps its
/// own entries first, in its own framing.
pub fn merge_response(upstream_success: bool, upstream_body: &[u8], extra: Vec<u8>) -> (r: Result<
    MergedBody,
    Error,
>)
    ensures
        !upstream_success ==> (r matches Ok(MergedBody::Local(b)) && b@ == extra@),
        upstream_success ==> match unary_of(upstream_body@) {
            Ok((framed, payload)) => r matches Ok(MergedBody::Upstream(b)) && b@ == merged_of(
                framed,
                payload,
                extra@,
            ),
            Err(flags) => r matches Err(Error::Protocol(m)) && m@ == frame_error(flags),
        },
{
    if !upstream_success {
        return Ok(MergedBody::Local(extra));
    }
    let (framed, payload) = match unary_payload(upstream_body) {
        Ok(parts) => parts,
        Err(error) => return Err(error),
    };
    let mut merged: Vec<u8> = Vec::new();
    if framed {
        let total: u64 = ((payload.len() as u128 + extra.len() as u128) % 4294967296) as u64;
        merged.push(0);
        merged.push((total / 16777216) as u8);
        merged.push(((total / 65536) % 256) as u8);
        merged.push(((total / 256) % 256) as u8);
        merged.push((total % 256) as u8);
        assert(merged@ =~= seq![0u8] + be_bytes(total as nat));
    }
    append_bytes(&mut merged, payload);
    append_bytes(&mut merged, extra.as_slice());
    Ok(MergedBody::Upstream(merged))
}

/// Only the first context option of a model is the default context: the
/// other built-in sizes differ from it, and a custom window is written in
/// plain digits.
proof fn lemma_default_context_first(model: ModelConfig, c: int)
    requires
        0 <= c < context_options_of(model).len(),
    ensures
        (context_options_of(model)[c].0 == default_context()) <==> c == 0,
{
    reveal_strlit("200k");
    reveal_strlit("356k");
    reveal_strlit("800k");
    reveal_strlit("1m");
    let contexts = context_options_of(model);
    assert(contexts.len() <= 5);
    if c == 4 {
        let tokens = model.context_window_tokens->0;
        lemma_decimal_digits(tokens as nat);
        let d = decimal(tokens as nat);
        assert(contexts[4].0 == d);
        if d == default_context() {
            assert(d[3] == 'k');
            assert(crate::text::is_digit(d[3]));
        }
    } else if c == 1 {
        assert(contexts[1].0 == "356k"@);
        assert("356k"@[0] != "200k"@[0]);
    } else if c == 2 {
        assert(contexts[2].0 == "800k"@);
        assert("800k"@[0] != "200k"@[0]);
    } else if c == 3 {
        assert(contexts[3].0 == "1m"@);
        assert("1m"@.len() != "200k"@.len());
    }
}

/// Only the third effort is high.
proof fn lemma_high_effort_third(e: int)
    requires
        0 <= e < 5,
    ensures
        (efforts()[e].0 == "high"@) <==> e == 2,
{
    reveal_strlit("low");
    reveal_strlit("medium");
    reveal_strlit("high");
    reveal_strlit("xhigh");
    reveal_strlit("max");
    if e == 0 {
        assert("low"@.len() != "high"@.len());
    } else if e == 1 {
        assert("medium"@.len() != "high"@.len());
    } else if e == 3 {
        assert("xhigh"@.len() != "high"@.len());
    } else if e == 4 {
        assert("max"@.len() != "high"@.len());
    }
}

/// A model's catalog entry has exactly one default variant, for both the max
/// and the non-max configuration: the fifth, which is the default context at
/// high effort, not fast.
pub proof fn law_one_default_variant(a: AvailableModel, model: ModelConfig)
    requires
        is_available_model(a, model),
    ensures
        a.variants@.len() >= 40,
        forall|i: int|
            0 <= i < a.variants@.len() ==> (((#[trigger] a.variants@[i]).is_default_non_max_config
                == Some(true)) <==> i == 4) && ((a.variants@[i].is_default_max_config == Some(true))
                <==> i == 4),
{
    let contexts = context_options_of(model);
    assert(contexts.len() >= 4);
    assert forall|i: int| 0 <= i < a.variants@.len() implies (((#[trigger] a.variants@[i]).is_default_non_max_config
        == Some(true)) <==> i == 4) && ((a.variants@[i].is_default_max_config == Some(true)) <==> i
        == 4) by {
        let c = i / 10;
        let e = (i % 10) / 2;
        let f = i % 2;
        assert(i == c * 10 + e * 2 + f);
        assert(0 <= c < contexts.len());
        assert(is_variant_of(
            a.variants@[c * 10 + e * 2 + f],
            model,
            contexts[c].0,
            contexts[c].1,
            efforts()[e].0,
            efforts()[e].1,
            f == 1,
        ));
        lemma_default_context_first(model, c);
        lemma_high_effort_third(e);
    }
}

/// The four bytes of a 32-bit number read back as that number.
proof fn lemma_be_bytes_value(n: nat)
    requires
        n < 4294967296,
    ensures
        be_bytes(n).len() == 4,
        (be_bytes(n)[0] as nat) * 16777216 + (be_bytes(n)[1] as nat) * 65536 + (be_bytes(n)[2] as nat) * 256
            + (be_bytes(n)[3] as nat) == n,
{
    let b0 = n / 16777216;
    let b1 = (n / 65536) % 256;
    let b2 = (n / 256) % 256;
    let b3 = n % 256;
    assert(b0 < 256) by (nonlinear_arith)
        requires
            n < 4294967296,
            b0 == n / 16777216,
    ;
    assert(b0 * 16777216 + b1 * 65536 + b2 * 256 + b3 == n) by (nonlinear_arith)
        requires
            b0 == n / 16777216,
            b1 == (n / 65536) % 256,
            b2 == (n / 256) % 256,
            b3 == n % 256,
    ;
    assert(be_bytes(n)[0] as nat == b0);
    assert(be_bytes(n)[1] as nat == b1);
    assert(be_bytes(n)[2] as nat == b2);
    assert(be_bytes(n)[3] as nat == b3);
}

/// A merged framed catalog reads back as one uncompressed frame that holds
/// the upstream payload followed by the local catalog.
pub proof fn law_merged_frame_reads_back(payload: Seq<u8>, extra: Seq<u8>)
    requires
        payload.len() + extra.len() < 4294967296,
    ensures
        unary_of(merged_of(true, payload, extra)) == Ok::<(bool, Seq<u8>), u8>((true, payload + extra)),
{
    let total = payload.len() + extra.len();
    lemma_be_bytes_value(total);
    let body = merged_of(true, payload, extra);
    let header = seq![0u8] + be_bytes(total);
    assert(body =~= header + (payload + extra));
    assert(body.len() == total + 5);
    assert(body[0] == 0u8);
    assert(body[1] == be_bytes(total)[0]);
    assert(body[2] == be_bytes(total)[1]);
    assert(body[3] == be_bytes(total)[2]);
    assert(body[4] == be_bytes(total)[3]);
    assert(frame_length(body) == total);
    assert(body.skip(5) =~= payload + extra);
}

} // verus!
