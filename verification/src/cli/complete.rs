//! Dynamic shell completion: working out, from the words typed so far, which
//! kind of value is being completed, and listing the candidates.

use vstd::prelude::*;

use crate::display_config::{DisplayConfig, Mode, PhysicalMonitor};
use crate::text::{chars_of, find_first, has_prefix, starts_with, str_eq, string_of, split_once_spec};

verus! {

/// The hidden subcommand that shells call for dynamic candidates.
pub const COMPLETE_COMMAND: &'static str = "__complete";

/// An option whose value is the next word.
#[derive(Clone, Copy, Debug, PartialEq, Eq, Structural)]
pub enum PendingValue {
    Rotate,
    Mode,
    Scale,
    Brightness,
    Filter,
}

/// What the words before the cursor say: the connector named, and the option
/// still waiting for its value.
#[derive(Debug, PartialEq, Eq)]
pub struct ParsedContext {
    pub connector: Option<String>,
    pub pending_value: Option<PendingValue>,
}

/// The kind of value being completed.
#[derive(Debug, PartialEq, Eq)]
pub enum CompletionKind {
    Connector,
    Rotate,
    Mode { connector: Option<String> },
    Scale { connector: Option<String> },
    Brightness,
    Filter,
}

/// A completion to perform: the kind, the fragment typed so far, and the text
/// to put in front of every candidate.
#[derive(Debug, PartialEq, Eq)]
pub struct CompletionRequest {
    pub kind: CompletionKind,
    pub current: String,
    pub prefix: String,
}

pub open spec fn opt_view(o: Option<String>) -> Option<Seq<char>> {
    match o {
        Some(s) => Some(s@),
        None => None,
    }
}

/// The option (of `modify`) that takes its value from the next word.
pub open spec fn pending_for(subcommand: Seq<char>, word: Seq<char>) -> Option<PendingValue> {
    if subcommand != "modify"@ {
        None
    } else if word == "--rotate"@ || word == "-r"@ {
        Some(PendingValue::Rotate)
    } else if word == "--mode"@ || word == "-m"@ {
        Some(PendingValue::Mode)
    } else if word == "--scale"@ {
        Some(PendingValue::Scale)
    } else if word == "--brightness"@ {
        Some(PendingValue::Brightness)
    } else if word == "--filter"@ {
        Some(PendingValue::Filter)
    } else {
        None
    }
}

/// The state after reading one word: connector, pending option, and whether a
/// `--` has ended the options.
pub open spec fn context_step(
    state: (Option<Seq<char>>, Option<PendingValue>, bool),
    subcommand: Seq<char>,
    word: Seq<char>,
) -> (Option<Seq<char>>, Option<PendingValue>, bool) {
    let (connector, pending, positional_only) = state;
    let named = if connector is None {
        Some(word)
    } else {
        connector
    };
    if pending is Some {
        (connector, None, positional_only)
    } else if positional_only {
        (named, None, true)
    } else if word == "--"@ {
        (connector, None, true)
    } else if pending_for(subcommand, word) is Some {
        (connector, pending_for(subcommand, word), false)
    } else if word.len() > 0 && word[0] == '-' {
        (connector, None, false)
    } else {
        (named, None, false)
    }
}

/// The state after reading all of `words`.
pub open spec fn context_of(words: Seq<Seq<char>>, subcommand: Seq<char>) -> (
    Option<Seq<char>>,
    Option<PendingValue>,
    bool,
)
    decreases words.len(),
{
    if words.len() == 0 {
        (None, None, false)
    } else {
        context_step(context_of(words.drop_last(), subcommand), subcommand, words.last())
    }
}

pub open spec fn views(words: Seq<String>) -> Seq<Seq<char>> {
    words.map_values(|w: String| w@)
}

/// Adds `value` to `values` unless it is there already.
pub fn push_unique(values: &mut Vec<String>, value: String)
    ensures
        views(old(values)@).contains(value@) ==> views(final(values)@) == views(old(values)@),
        !views(old(values)@).contains(value@) ==> views(final(values)@) == views(
            old(values)@,
        ).push(value@),
{
    let mut i: usize = 0;
    while i < values.len()
        invariant
            0 <= i <= values@.len(),
            forall|j: int| 0 <= j < i ==> (#[trigger] values@[j])@ != value@,
        decreases values@.len() - i,
    {
        if values[i] == value {
            assert(views(values@)[i as int] == value@);
            return;
        }
        i = i + 1;
    }
    assert(!views(values@).contains(value@)) by {
        if views(values@).contains(value@) {
            let k = choose|k: int| 0 <= k < views(values@).len() && views(values@)[k] == value@;
            assert(values@[k]@ == value@);
        }
    }
    let ghost before = values@;
    values.push(value);
    assert(views(values@) =~= views(before).push(value@));
}

/// The values that start with `current` (all of them where `current` is empty).
pub open spec fn filter_current_spec(values: Seq<Seq<char>>, current: Seq<char>) -> Seq<Seq<char>> {
    values.filter(starts_with_pred(current))
}

/// The test `value starts with current`.
pub open spec fn starts_with_pred(current: Seq<char>) -> spec_fn(Seq<char>) -> bool {
    |v: Seq<char>| has_prefix(v, current)
}

/// Whether `value` begins with the characters of `current`, one by one.
pub open spec fn begins_with(value: Seq<char>, current: Seq<char>) -> bool {
    current.len() <= value.len() && forall|j: int| 0 <= j < current.len() ==> value[j] == current[j]
}

/// Completion keeps exactly the values that begin with the word typed so far:
/// each value kept begins with it and is one of the values, and each value
/// that begins with it is kept; an empty word keeps every value.
pub proof fn lemma_filter_current(values: Seq<Seq<char>>, current: Seq<char>)
    ensures
        ({
            let r = filter_current_spec(values, current);
            &&& r.len() <= values.len()
            &&& forall|i: int| 0 <= i < r.len() ==> begins_with(#[trigger] r[i], current) && values.contains(r[i])
            &&& forall|i: int| 0 <= i < values.len() && begins_with(#[trigger] values[i], current) ==> r.contains(values[i])
            &&& current.len() == 0 ==> r == values
        }),
{
    broadcast use vstd::seq_lib::group_filter_ensures;

    let pred = starts_with_pred(current);
    let r = values.filter(pred);
    assert forall|v: Seq<char>| #[trigger] pred(v) <==> begins_with(v, current) by {
        if begins_with(v, current) {
            assert(v.take(current.len() as int) =~= current);
        }
        if pred(v) {
            assert forall|j: int| 0 <= j < current.len() implies v[j] == current[j] by {
                assert(v.take(current.len() as int)[j] == v[j]);
            }
        }
    }
    assert forall|i: int| 0 <= i < r.len() implies begins_with(#[trigger] r[i], current) && values.contains(r[i]) by {
        assert(pred(r[i]));
        assert(r.contains(r[i]));
        values.lemma_filter_contains_rev(pred, r[i]);
    }
    assert forall|i: int| 0 <= i < values.len() && begins_with(#[trigger] values[i], current) implies r.contains(
        values[i],
    ) by {
        assert(pred(values[i]));
        values.lemma_filter_contains(pred, i);
    }
    if current.len() == 0 {
        assert forall|v: Seq<char>| #[trigger] pred(v) by {
            assert(begins_with(v, current));
        }
        lemma_filter_keeps_all(values, pred);
    }
}

proof fn lemma_filter_keeps_all(values: Seq<Seq<char>>, pred: spec_fn(Seq<char>) -> bool)
    requires
        forall|v: Seq<char>| #[trigger] pred(v),
    ensures
        values.filter(pred) == values,
    decreases values.len(),
{
    reveal(Seq::filter);
    if values.len() > 0 {
        lemma_filter_keeps_all(values.drop_last(), pred);
        assert(values.drop_last().push(values.last()) =~= values);
    } else {
        assert(values.filter(pred) =~= values);
    }
}

/// Keeps the values that start with `current`.
pub fn filter_current(values: Vec<String>, current: &str) -> (r: Vec<String>)
    ensures
        views(r@) == filter_current_spec(views(values@), current@),
{
    let mut r: Vec<String> = Vec::new();
    let mut i: usize = 0;
    while i < values.len()
        invariant
            0 <= i <= values@.len(),
            views(r@) == filter_current_spec(views(values@).take(i as int), current@),
        decreases values@.len() - i,
    {
        let keep = starts_with(values[i].as_str(), current);
        proof {
            let vs = views(values@);
            assert(vs.take(i + 1).drop_last() == vs.take(i as int));
            assert(vs.take(i + 1).last() == values@[i as int]@);
            assert(vs.take(i + 1) == vs.take(i as int).push(values@[i as int]@));
            vs.take(i as int).lemma_filter_push(values@[i as int]@, starts_with_pred(current@));
        }
        if keep {
            let ghost before = r@;
            r.push(values[i].clone());
            assert(views(r@) =~= views(before).push(values@[i as int]@));
        }
        i = i + 1;
    }
    assert(views(values@).take(values@.len() as int) == views(values@));
    r
}

/// Reads the words after the subcommand.
pub fn parse_context(words: &[String], subcommand: &str) -> (r: ParsedContext)
    ensures
        (opt_view(r.connector), r.pending_value) == ({
            let s = context_of(views(words@), subcommand@);
            (s.0, s.1)
        }),
{
    let mut connector: Option<String> = None;
    let mut pending_value: Option<PendingValue> = None;
    let mut positional_only = false;
    let is_modify = str_eq(subcommand, "modify");
    let mut i: usize = 0;
    while i < words.len()
        invariant
            0 <= i <= words@.len(),
            is_modify == (subcommand@ == "modify"@),
            (opt_view(connector), pending_value, positional_only) == context_of(
                views(words@).take(i as int),
                subcommand@,
            ),
        decreases words@.len() - i,
    {
        let word = words[i].as_str();
        proof {
            let ws = views(words@);
            assert(ws.take(i + 1).drop_last() == ws.take(i as int));
            assert(ws.take(i + 1).last() == word@);
        }
        let named = match &connector {
            None => Some(words[i].clone()),
            Some(c) => Some(c.clone()),
        };
        if pending_value.is_some() {
            pending_value = None;
        } else if positional_only {
            connector = named;
        } else if str_eq(word, "--") {
            positional_only = true;
        } else {
            let pending = if !is_modify {
                None
            } else if str_eq(word, "--rotate") || str_eq(word, "-r") {
                Some(PendingValue::Rotate)
            } else if str_eq(word, "--mode") || str_eq(word, "-m") {
                Some(PendingValue::Mode)
            } else if str_eq(word, "--scale") {
                Some(PendingValue::Scale)
            } else if str_eq(word, "--brightness") {
                Some(PendingValue::Brightness)
            } else if str_eq(word, "--filter") {
                Some(PendingValue::Filter)
            } else {
                None
            };
            if pending.is_some() {
                pending_value = pending;
            } else {
                let wv = chars_of(word);
                if !(wv.len() > 0 && wv[0] == '-') {
                    connector = named;
                }
            }
        }
        i = i + 1;
    }
    assert(views(words@).take(words@.len() as int) == views(words@));
    ParsedContext { connector, pending_value }
}

/// Whether a connector name is being typed: something has been typed, it is not
/// an option, and no connector was named before.
pub open spec fn connector_completion_requested_spec(
    connector: Option<Seq<char>>,
    current: Seq<char>,
) -> bool {
    current.len() > 0 && current[0] != '-' && connector is None
}

pub fn connector_completion_requested(context: &ParsedContext, current: &str) -> (r: bool)
    ensures
        r == connector_completion_requested_spec(opt_view(context.connector), current@),
{
    let cv = chars_of(current);
    cv.len() > 0 && cv[0] != '-' && context.connector.is_none()
}

/// The kind of value for `--option=fragment` forms of `modify`.
pub open spec fn dynamic_option_kind(option: Seq<char>, connector: Option<Seq<char>>) -> Option<
    CompletionKindSpec,
> {
    if option == "--rotate"@ {
        Some(CompletionKindSpec::Rotate)
    } else if option == "--mode"@ {
        Some(CompletionKindSpec::Mode(connector))
    } else if option == "--scale"@ {
        Some(CompletionKindSpec::Scale(connector))
    } else if option == "--brightness"@ {
        Some(CompletionKindSpec::Brightness)
    } else if option == "--filter"@ {
        Some(CompletionKindSpec::Filter)
    } else {
        None
    }
}

/// A completion kind with its connector as characters.
pub enum CompletionKindSpec {
    Connector,
    Rotate,
    Mode(Option<Seq<char>>),
    Scale(Option<Seq<char>>),
    Brightness,
    Filter,
}

pub open spec fn kind_view(k: CompletionKind) -> CompletionKindSpec {
    match k {
        CompletionKind::Connector => CompletionKindSpec::Connector,
        CompletionKind::Rotate => CompletionKindSpec::Rotate,
        CompletionKind::Mode { connector } => CompletionKindSpec::Mode(opt_view(connector)),
        CompletionKind::Scale { connector } => CompletionKindSpec::Scale(opt_view(connector)),
        CompletionKind::Brightness => CompletionKindSpec::Brightness,
        CompletionKind::Filter => CompletionKindSpec::Filter,
    }
}

/// The completion that `words` (the subcommand first) and the fragment
/// `current` call for: `(kind, fragment, prefix)`.
pub open spec fn completion_request_spec(words: Seq<Seq<char>>, current: Seq<char>) -> Option<
    (CompletionKindSpec, Seq<char>, Seq<char>),
> {
    if words.len() == 0 {
        None
    } else {
        let subcommand = words[0];
        let context = context_of(words.drop_first(), subcommand);
        let dynamic = if subcommand == "modify"@ {
            match split_once_spec(current, '=') {
                Some((option, fragment)) => match dynamic_option_kind(option, context.0) {
                    Some(kind) => Some((kind, fragment)),
                    None => None,
                },
                None => None,
            }
        } else {
            None
        };
        match dynamic {
            Some((kind, fragment)) => Some(
                (kind, fragment, current.take(current.len() - fragment.len())),
            ),
            None => {
                let connector_wanted = connector_completion_requested_spec(context.0, current);
                let kind = if subcommand == "query"@ {
                    if connector_wanted {
                        Some(CompletionKindSpec::Connector)
                    } else {
                        None
                    }
                } else if subcommand == "modify"@ {
                    match context.1 {
                        Some(PendingValue::Mode) => Some(CompletionKindSpec::Mode(context.0)),
                        Some(PendingValue::Scale) => Some(CompletionKindSpec::Scale(context.0)),
                        Some(PendingValue::Rotate) => Some(CompletionKindSpec::Rotate),
                        Some(PendingValue::Brightness) => Some(CompletionKindSpec::Brightness),
                        Some(PendingValue::Filter) => Some(CompletionKindSpec::Filter),
                        None => if connector_wanted {
                            Some(CompletionKindSpec::Connector)
                        } else {
                            None
                        },
                    }
                } else {
                    None
                };
                match kind {
                    Some(k) => Some((k, current, Seq::<char>::empty())),
                    None => None,
                }
            },
        }
    }
}

pub open spec fn request_view(r: CompletionRequest) -> (CompletionKindSpec, Seq<char>, Seq<char>) {
    (kind_view(r.kind), r.current@, r.prefix@)
}

fn clone_opt(o: &Option<String>) -> (r: Option<String>)
    ensures
        opt_view(r) == opt_view(*o),
{
    match o {
        Some(s) => Some(s.clone()),
        None => None,
    }
}

/// Works out what to complete from the words typed so far (the subcommand
/// first) and the fragment under the cursor.
pub fn completion_request(words: &[String], current: &str) -> (r: Option<CompletionRequest>)
    ensures
        match r {
            Some(req) => completion_request_spec(views(words@), current@) == Some(request_view(req)),
            None => completion_request_spec(views(words@), current@) is None,
        },
{
    if words.len() == 0 {
        return None;
    }
    let subcommand = words[0].as_str();
    let mut rest: Vec<String> = Vec::new();
    let mut i: usize = 1;
    while i < words.len()
        invariant
            1 <= i <= words@.len(),
            views(rest@) == views(words@).subrange(1, i as int),
        decreases words@.len() - i,
    {
        let ghost before = rest@;
        rest.push(words[i].clone());
        assert(views(rest@) =~= views(before).push(words@[i as int]@));
        assert(views(words@).subrange(1, i + 1) =~= views(words@).subrange(1, i as int).push(
            words@[i as int]@,
        ));
        i = i + 1;
    }
    assert(views(rest@) =~= views(words@).drop_first());
    let context = parse_context(rest.as_slice(), subcommand);
    let is_modify = str_eq(subcommand, "modify");
    let cv = chars_of(current);
    assert(cv@.subrange(0, cv@.len() as int) == cv@);
    if is_modify {
        let eq = find_first(&cv, 0, cv.len(), '=');
        if eq < cv.len() {
            let option = string_of(&cv, 0, eq);
            let fragment = string_of(&cv, eq + 1, cv.len());
            let prefix = string_of(&cv, 0, eq + 1);
            assert(option@ == cv@.take(eq as int));
            assert(fragment@ == cv@.skip(eq + 1));
            assert(prefix@ == cv@.take(cv@.len() - fragment@.len()));
            let o = option.as_str();
            let kind = if str_eq(o, "--rotate") {
                Some(CompletionKind::Rotate)
            } else if str_eq(o, "--mode") {
                Some(CompletionKind::Mode { connector: clone_opt(&context.connector) })
            } else if str_eq(o, "--scale") {
                Some(CompletionKind::Scale { connector: clone_opt(&context.connector) })
            } else if str_eq(o, "--brightness") {
                Some(CompletionKind::Brightness)
            } else if str_eq(o, "--filter") {
                Some(CompletionKind::Filter)
            } else {
                None
            };
            if let Some(kind) = kind {
                return Some(CompletionRequest { kind, current: fragment, prefix });
            }
        }
    }
    let connector_wanted = connector_completion_requested(&context, current);
    let kind = if str_eq(subcommand, "query") {
        if connector_wanted {
            Some(CompletionKind::Connector)
        } else {
            None
        }
    } else if is_modify {
        match context.pending_value {
            Some(PendingValue::Mode) => Some(CompletionKind::Mode { connector: context.connector }),
            Some(PendingValue::Scale) => Some(
                CompletionKind::Scale { connector: context.connector },
            ),
            Some(PendingValue::Rotate) => Some(CompletionKind::Rotate),
            Some(PendingValue::Brightness) => Some(CompletionKind::Brightness),
            Some(PendingValue::Filter) => Some(CompletionKind::Filter),
            None => if connector_wanted {
                Some(CompletionKind::Connector)
            } else {
                None
            },
        }
    } else {
        None
    };
    match kind {
        Some(kind) => Some(CompletionRequest { kind, current: current.to_owned(), prefix: String::new() }),
        None => None,
    }
}

/// The candidate list with later repeats dropped, as repeated `push_unique` builds it.
pub open spec fn dedup(values: Seq<Seq<char>>) -> Seq<Seq<char>>
    decreases values.len(),
{
    if values.len() == 0 {
        values
    } else {
        let d = dedup(values.drop_last());
        if d.contains(values.last()) {
            d
        } else {
            d.push(values.last())
        }
    }
}

/// The ids of all modes of the monitors, monitor by monitor.
pub open spec fn mode_ids(monitors: Seq<PhysicalMonitor>) -> Seq<Seq<char>>
    decreases monitors.len(),
{
    if monitors.len() == 0 {
        Seq::empty()
    } else {
        mode_ids(monitors.drop_last()) + monitors.last().modes@.map_values(|m: Mode| m.id@)
    }
}

/// The monitors whose values a completion lists: the one on `connector` where
/// it is enabled (none where it is not), or all of them.
pub open spec fn selected_monitors_spec(config: DisplayConfig, connector: Option<Seq<char>>) -> Seq<
    PhysicalMonitor,
> {
    match connector {
        Some(c) => if config.is_enabled(c) && config.physical_index(c) < config.monitors@.len() {
            seq![config.monitors@[config.physical_index(c)]]
        } else {
            Seq::empty()
        },
        None => config.monitors@,
    }
}

/// The monitors whose values a completion lists.
pub fn select_monitors<'a>(config: &'a DisplayConfig, connector: Option<&str>) -> (r: Vec<
    &'a PhysicalMonitor,
>)
    ensures
        r@.map_values(|m: &PhysicalMonitor| *m) == selected_monitors_spec(
            *config,
            match connector {
                Some(c) => Some(c@),
                None => None,
            },
        ),
{
    match connector {
        Some(c) => match config.search(c) {
            Some((_, physical_monitor)) => {
                let r = vec![physical_monitor];
                assert(r@.map_values(|m: &PhysicalMonitor| *m) =~= seq![*physical_monitor]);
                r
            },
            None => {
                let r: Vec<&PhysicalMonitor> = Vec::new();
                assert(r@.map_values(|m: &PhysicalMonitor| *m) =~= Seq::<PhysicalMonitor>::empty());
                r
            },
        },
        None => {
            let mut r: Vec<&PhysicalMonitor> = Vec::new();
            let mut i: usize = 0;
            while i < config.monitors.len()
                invariant
                    0 <= i <= config.monitors@.len(),
                    r@.len() == i,
                    forall|j: int| 0 <= j < i ==> *(#[trigger] r@[j]) == config.monitors@[j],
                decreases config.monitors@.len() - i,
            {
                r.push(&config.monitors[i]);
                i = i + 1;
            }
            assert(r@.map_values(|m: &PhysicalMonitor| *m) =~= config.monitors@);
            r
        },
    }
}

pub open spec fn rotation_values() -> Seq<Seq<char>> {
    seq!["normal"@, "left"@, "right"@, "inverted"@]
}

pub open spec fn brightness_values() -> Seq<Seq<char>> {
    seq!["0"@, "0.25"@, "0.5"@, "0.75"@, "1"@, "1.25"@, "1.5"@, "2"@]
}

pub open spec fn filter_values() -> Seq<Seq<char>> {
    seq!["linear"@, "gamma"@, "filmic"@]
}

/// The candidates for a kind before filtering. `scale_labels` are the
/// displayed scales of the selected monitors' modes, in order.
pub open spec fn candidates(
    kind: CompletionKindSpec,
    config: DisplayConfig,
    scale_labels: Seq<Seq<char>>,
) -> Seq<Seq<char>> {
    match kind {
        CompletionKindSpec::Connector => dedup(config.monitors@.map_values(|m: PhysicalMonitor| m.connector@)),
        CompletionKindSpec::Rotate => rotation_values(),
        CompletionKindSpec::Mode(connector) => dedup(mode_ids(selected_monitors_spec(config, connector))),
        CompletionKindSpec::Scale(_) => dedup(scale_labels),
        CompletionKindSpec::Brightness => brightness_values(),
        CompletionKindSpec::Filter => filter_values(),
    }
}

fn push_literals(values: &mut Vec<String>, literals: &[&str])
    ensures
        views(final(values)@) == views(old(values)@) + literals@.map_values(|s: &str| s@),
{
    let mut i: usize = 0;
    while i < literals.len()
        invariant
            0 <= i <= literals@.len(),
            views(values@) == views(old(values)@) + literals@.map_values(|s: &str| s@).take(i as int),
        decreases literals@.len() - i,
    {
        let ghost before = values@;
        values.push(literals[i].to_owned());
        assert(views(values@) =~= views(before).push(literals@[i as int]@));
        assert(literals@.map_values(|s: &str| s@).take(i + 1) =~= literals@.map_values(|s: &str| s@).take(i as int).push(literals@[i as int]@));
        i = i + 1;
    }
    assert(literals@.map_values(|s: &str| s@).take(literals@.len() as int) =~= literals@.map_values(|s: &str| s@));
}

/// Adds each of `more` unless it is there already.
fn extend_unique(values: &mut Vec<String>, more: &Vec<String>, Ghost(prior): Ghost<Seq<Seq<char>>>)
    requires
        views(old(values)@) == dedup(prior),
    ensures
        views(final(values)@) == dedup(prior + views(more@)),
{
    let mut i: usize = 0;
    while i < more.len()
        invariant
            0 <= i <= more@.len(),
            views(values@) == dedup(prior + views(more@).take(i as int)),
        decreases more@.len() - i,
    {
        let ghost items = prior + views(more@).take(i as int);
        assert(prior + views(more@).take(i + 1) =~= items.push(more@[i as int]@));
        assert(items.push(more@[i as int]@).drop_last() =~= items);
        push_unique(values, more[i].clone());
        i = i + 1;
    }
    assert(views(more@).take(more@.len() as int) =~= views(more@));
}

fn mode_id_list(monitor: &PhysicalMonitor) -> (r: Vec<String>)
    ensures
        views(r@) == monitor.modes@.map_values(|m: Mode| m.id@),
{
    let mut r: Vec<String> = Vec::new();
    let mut i: usize = 0;
    while i < monitor.modes.len()
        invariant
            0 <= i <= monitor.modes@.len(),
            views(r@) == monitor.modes@.map_values(|m: Mode| m.id@).take(i as int),
        decreases monitor.modes@.len() - i,
    {
        let ghost before = r@;
        r.push(monitor.modes[i].id.clone());
        assert(views(r@) =~= views(before).push(monitor.modes@[i as int].id@));
        assert(monitor.modes@.map_values(|m: Mode| m.id@).take(i + 1) =~= monitor.modes@.map_values(|m: Mode| m.id@).take(i as int).push(monitor.modes@[i as int].id@));
        i = i + 1;
    }
    assert(monitor.modes@.map_values(|m: Mode| m.id@).take(monitor.modes@.len() as int) =~= monitor.modes@.map_values(|m: Mode| m.id@));
    r
}

pub open spec fn kind_connector(kind: CompletionKindSpec) -> Option<Seq<char>> {
    match kind {
        CompletionKindSpec::Mode(c) => c,
        CompletionKindSpec::Scale(c) => c,
        _ => None,
    }
}

/// Whether a completion's candidates come from the current display state:
/// connectors, modes and scales do; rotations, brightness values and filters
/// are fixed lists.
pub fn needs_display(kind: &CompletionKind) -> (r: bool)
    ensures
        r == (kind_view(*kind) is Connector || kind_view(*kind) is Mode || kind_view(*kind) is Scale),
{
    match kind {
        CompletionKind::Connector | CompletionKind::Mode { .. } | CompletionKind::Scale { .. } => true,
        CompletionKind::Rotate | CompletionKind::Brightness | CompletionKind::Filter => false,
    }
}

/// Lists the candidates for a completion that start with `current`.
/// `scale_labels` are the displayed scales of the selected monitors' modes, in
/// order, and are read only for scale completion.
pub fn completion_values(
    kind: &CompletionKind,
    config: &DisplayConfig,
    current: &str,
    scale_labels: &Vec<String>,
) -> (r: Vec<String>)
    ensures
        views(r@) == filter_current_spec(
            candidates(
                kind_view(*kind),
                *config,
                views(scale_labels@),
            ),
            current@,
        ),
{
    let mut values: Vec<String> = Vec::new();
    assert(views(values@) =~= dedup(Seq::empty()));
    match kind {
        CompletionKind::Connector => {
            let mut names: Vec<String> = Vec::new();
            let mut i: usize = 0;
            while i < config.monitors.len()
                invariant
                    0 <= i <= config.monitors@.len(),
                    views(names@) == config.monitors@.map_values(|m: PhysicalMonitor| m.connector@).take(i as int),
                decreases config.monitors@.len() - i,
            {
                let ghost before = names@;
                names.push(config.monitors[i].connector.clone());
                assert(views(names@) =~= views(before).push(config.monitors@[i as int].connector@));
                assert(config.monitors@.map_values(|m: PhysicalMonitor| m.connector@).take(i + 1) =~= config.monitors@.map_values(|m: PhysicalMonitor| m.connector@).take(i as int).push(config.monitors@[i as int].connector@));
                i = i + 1;
            }
            assert(config.monitors@.map_values(|m: PhysicalMonitor| m.connector@).take(config.monitors@.len() as int) =~= config.monitors@.map_values(|m: PhysicalMonitor| m.connector@));
            extend_unique(&mut values, &names, Ghost(Seq::empty()));
            assert(Seq::<Seq<char>>::empty() + views(names@) =~= views(names@));
        },
        CompletionKind::Rotate => {
            push_literals(&mut values, &["normal", "left", "right", "inverted"]);
            proof {
                reveal_strlit("normal");
            }
            assert(views(values@) =~= rotation_values());
        },
        CompletionKind::Mode { connector } => {
            let conn: Option<&str> = match connector {
                Some(c) => Some(c.as_str()),
                None => None,
            };
            let monitors = select_monitors(config, conn);
            let ghost sel = monitors@.map_values(|m: &PhysicalMonitor| *m);
            let mut i: usize = 0;
            while i < monitors.len()
                invariant
                    0 <= i <= monitors@.len(),
                    sel == monitors@.map_values(|m: &PhysicalMonitor| *m),
                    views(values@) == dedup(mode_ids(sel.take(i as int))),
                decreases monitors@.len() - i,
            {
                let ids = mode_id_list(monitors[i]);
                extend_unique(&mut values, &ids, Ghost(mode_ids(sel.take(i as int))));
                assert(sel.take(i + 1).drop_last() =~= sel.take(i as int));
                assert(sel.take(i + 1).last() == *monitors@[i as int]);
                i = i + 1;
            }
            assert(sel.take(monitors@.len() as int) =~= sel);
        },
        CompletionKind::Scale { connector: _ } => {
            extend_unique(&mut values, scale_labels, Ghost(Seq::empty()));
            assert(Seq::<Seq<char>>::empty() + views(scale_labels@) =~= views(scale_labels@));
        },
        CompletionKind::Brightness => {
            push_literals(&mut values, &["0", "0.25", "0.5", "0.75", "1", "1.25", "1.5", "2"]);
            assert(views(values@) =~= brightness_values());
        },
        CompletionKind::Filter => {
            push_literals(&mut values, &["linear", "gamma", "filmic"]);
            assert(views(values@) =~= filter_values());
        },
    }
    filter_current(values, current)
}

/// Reads a dynamic-completion call `PROGRAM __complete CURRENT WORDS...`:
/// the fragment under the cursor (empty where missing) and the words before it.
/// `None` where the first argument is not `__complete`.
pub fn complete_invocation(args: &[String]) -> (r: Option<(String, Vec<String>)>)
    ensures
        r is Some <==> args@.len() > 1 && args@[1]@ == COMPLETE_COMMAND@,
        r matches Some((current, words)) ==> {
            &&& current@ == (if args@.len() > 2 { args@[2]@ } else { Seq::<char>::empty() })
            &&& args@.len() >= 3 ==> views(words@) == views(args@).skip(3)
            &&& args@.len() < 3 ==> words@.len() == 0
        },
{
    if args.len() < 2 || !str_eq(args[1].as_str(), COMPLETE_COMMAND) {
        return None;
    }
    let current = if args.len() > 2 {
        args[2].clone()
    } else {
        String::new()
    };
    let mut words: Vec<String> = Vec::new();
    let mut i: usize = 3;
    while i < args.len()
        invariant
            3 <= i,
            args@.len() >= 2,
            i <= args@.len() || args@.len() < 3,
            args@.len() >= 3 ==> views(words@) == views(args@).subrange(3, i as int),
            args@.len() < 3 ==> words@.len() == 0,
        decreases args@.len() - i,
    {
        let ghost before = words@;
        words.push(args[i].clone());
        assert(views(words@) =~= views(before).push(args@[i as int]@));
        assert(views(args@).subrange(3, i + 1) =~= views(args@).subrange(3, i as int).push(args@[i as int]@));
        i = i + 1;
    }
    assert(args@.len() >= 3 ==> views(words@) =~= views(args@).skip(3));
    Some((current, words))
}

} // verus!
