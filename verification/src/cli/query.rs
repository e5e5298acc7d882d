//! `query`: which view of the configuration to show, and which monitors it covers.

use vstd::prelude::*;

use crate::display_config::DisplayConfig;

verus! {

/// The schema version of `query --json`.
pub const JSON_SCHEMA_VERSION: u32 = 5;

/// The text views of `query`.
#[derive(Clone, Copy, Debug, PartialEq, Eq, Structural)]
pub enum TextView {
    Default,
    Summary,
    Verbose,
    ListMonitors,
    ListActiveMonitors,
}

/// What `query` prints.
#[derive(Clone, Copy, Debug, PartialEq, Eq, Structural)]
pub enum QueryView {
    Json,
    Text(TextView),
}

/// The view options of `query`.
#[derive(Clone, Copy, Debug, PartialEq, Eq, Structural)]
pub struct QueryOptions {
    pub summary: bool,
    pub json: bool,
    pub properties: bool,
    pub verbose: bool,
    pub list_monitors: bool,
    pub list_active_monitors: bool,
}

/// Why `query` refuses.
#[derive(Debug, Clone, Copy)]
pub enum Error {
    NotFound,
    ConflictingOptions { option: &'static str, conflicting: &'static str },
}

impl Error {
    /// What the error says to the user.
    pub open spec fn message_text(&self) -> Seq<char> {
        match self {
            Error::NotFound => "fatal: unable to find output."@,
            Error::ConflictingOptions { option, conflicting } => "fatal: "@ + option@ + " cannot be used with "@
                + conflicting@ + "."@,
        }
    }

    pub fn message(&self) -> (r: String)
        ensures
            r@ == self.message_text(),
    {
        match self {
            Error::NotFound => "fatal: unable to find output.".to_owned(),
            Error::ConflictingOptions { option, conflicting } => {
                let mut r = "fatal: ".to_owned();
                crate::text::push_str(&mut r, option);
                crate::text::push_str(&mut r, " cannot be used with ");
                crate::text::push_str(&mut r, conflicting);
                crate::text::push_str(&mut r, ".");
                r
            },
        }
    }
}

/// The view options in order, each with its flag and the view it selects.
pub open spec fn view_flags(o: QueryOptions) -> Seq<(bool, Seq<char>, QueryView)> {
    seq![
        (o.summary, "--summary"@, QueryView::Text(TextView::Summary)),
        (o.json, "--json"@, QueryView::Json),
        (o.verbose, "--verbose"@, QueryView::Text(TextView::Verbose)),
        (o.list_monitors, "--listmonitors"@, QueryView::Text(TextView::ListMonitors)),
        (o.list_active_monitors, "--listactivemonitors"@, QueryView::Text(TextView::ListActiveMonitors)),
    ]
}

/// The index of the first view option given at or after `from` (5 where none is).
pub open spec fn next_view(o: QueryOptions, from: int) -> int
    decreases 5 - from,
{
    if from >= 5 {
        5
    } else if view_flags(o)[from].0 {
        from
    } else {
        next_view(o, from + 1)
    }
}

/// What `validate_options` decides: two view options conflict, naming the
/// first two given; `--properties` conflicts with every view but the
/// default and `--verbose`; else the view of the option given, or the default.
pub open spec fn validate_spec(o: QueryOptions) -> Result<QueryView, (Seq<char>, Seq<char>)> {
    let first = next_view(o, 0);
    let second = next_view(o, first + 1);
    if first < 5 && second < 5 {
        Err((view_flags(o)[first].1, view_flags(o)[second].1))
    } else if o.properties && (o.summary || o.json || o.list_monitors || o.list_active_monitors) {
        Err(
            (
                "--properties"@,
                if o.summary {
                    "--summary"@
                } else if o.json {
                    "--json"@
                } else if o.list_monitors {
                    "--listmonitors"@
                } else {
                    "--listactivemonitors"@
                },
            ),
        )
    } else if first < 5 {
        Ok(view_flags(o)[first].2)
    } else {
        Ok(QueryView::Text(TextView::Default))
    }
}

fn view_flag(o: &QueryOptions, k: usize) -> (r: (bool, &'static str, QueryView))
    requires
        k < 5,
    ensures
        r.0 == view_flags(*o)[k as int].0,
        r.1@ == view_flags(*o)[k as int].1,
        r.2 == view_flags(*o)[k as int].2,
{
    if k == 0 {
        (o.summary, "--summary", QueryView::Text(TextView::Summary))
    } else if k == 1 {
        (o.json, "--json", QueryView::Json)
    } else if k == 2 {
        (o.verbose, "--verbose", QueryView::Text(TextView::Verbose))
    } else if k == 3 {
        (o.list_monitors, "--listmonitors", QueryView::Text(TextView::ListMonitors))
    } else {
        (o.list_active_monitors, "--listactivemonitors", QueryView::Text(TextView::ListActiveMonitors))
    }
}

fn next_view_exec(o: &QueryOptions, from: usize) -> (r: usize)
    requires
        from <= 5,
    ensures
        r == next_view(*o, from as int),
        from <= r <= 5,
    decreases 5 - from,
{
    if from >= 5 {
        5
    } else if view_flag(o, from).0 {
        from
    } else {
        next_view_exec(o, from + 1)
    }
}

/// Checks the view options of `query` and picks the view.
pub fn validate_options(opts: &QueryOptions) -> (r: Result<QueryView, Error>)
    ensures
        match validate_spec(*opts) {
            Ok(v) => r == Ok::<QueryView, Error>(v),
            Err((a, b)) => r matches Err(Error::ConflictingOptions { option, conflicting }) && option@ == a
                && conflicting@ == b,
        },
{
    let first = next_view_exec(opts, 0);
    if first < 5 {
        let second = next_view_exec(opts, first + 1);
        if second < 5 {
            return Err(
                Error::ConflictingOptions { option: view_flag(opts, first).1, conflicting: view_flag(opts, second).1 },
            );
        }
    }
    if opts.properties && (opts.summary || opts.json || opts.list_monitors || opts.list_active_monitors) {
        let conflicting = if opts.summary {
            "--summary"
        } else if opts.json {
            "--json"
        } else if opts.list_monitors {
            "--listmonitors"
        } else {
            "--listactivemonitors"
        };
        return Err(Error::ConflictingOptions { option: "--properties", conflicting });
    }
    if first < 5 {
        Ok(view_flag(opts, first).2)
    } else {
        Ok(QueryView::Text(TextView::Default))
    }
}

/// The monitors a query covers: logical monitors and physical monitors, by index.
#[derive(Debug)]
pub struct SelectedMonitors {
    pub logical_monitors: Vec<usize>,
    pub physical_monitors: Vec<usize>,
}

pub open spec fn indices_view(v: Seq<usize>) -> Seq<int> {
    v.map_values(|i: usize| i as int)
}

fn all_indices(n: usize) -> (r: Vec<usize>)
    ensures
        indices_view(r@) == Seq::new(n as nat, |i: int| i),
{
    let mut r: Vec<usize> = Vec::new();
    let mut i: usize = 0;
    while i < n
        invariant
            0 <= i <= n,
            indices_view(r@) == Seq::new(i as nat, |k: int| k),
        decreases n - i,
    {
        let ghost before = r@;
        r.push(i);
        assert(indices_view(r@) =~= indices_view(before).push(i as int));
        assert(Seq::new((i + 1) as nat, |k: int| k) =~= Seq::new(i as nat, |k: int| k).push(i as int));
        i = i + 1;
    }
    r
}

/// The monitors a query covers: with a connector, its physical monitor (it
/// must exist) and its logical monitor where it is enabled; without one, all.
pub fn selected_monitors(connector: Option<&str>, config: &DisplayConfig) -> (r: Result<SelectedMonitors, Error>)
    ensures
        match connector {
            Some(c) => if config.physical_index(c@) == config.monitors@.len() {
                r matches Err(Error::NotFound)
            } else {
                r matches Ok(s) && indices_view(s.physical_monitors@) == seq![config.physical_index(c@)]
                    && indices_view(s.logical_monitors@) == if config.is_enabled(c@) {
                    seq![config.logical_index(c@)]
                } else {
                    Seq::<int>::empty()
                }
            },
            None => r matches Ok(s) && indices_view(s.physical_monitors@) == Seq::new(
                config.monitors@.len(),
                |i: int| i,
            ) && indices_view(s.logical_monitors@) == Seq::new(config.logical_monitors@.len(), |i: int| i),
        },
{
    match connector {
        Some(c) => {
            let p = crate::cli::monitors_xml::physical_position(config, c);
            if p >= config.monitors.len() {
                return Err(Error::NotFound);
            }
            let mut physical_monitors: Vec<usize> = Vec::new();
            physical_monitors.push(p);
            assert(indices_view(physical_monitors@) =~= seq![p as int]);
            let mut logical_monitors: Vec<usize> = Vec::new();
            if let Some(i) = config.logical_monitor_index_for_connector(c) {
                logical_monitors.push(i);
                assert(indices_view(logical_monitors@) =~= seq![i as int]);
            } else {
                assert(indices_view(logical_monitors@) =~= Seq::<int>::empty());
            }
            Ok(SelectedMonitors { logical_monitors, physical_monitors })
        },
        None => Ok(
            SelectedMonitors {
                logical_monitors: all_indices(config.logical_monitors.len()),
                physical_monitors: all_indices(config.monitors.len()),
            },
        ),
    }
}

/// Whether the connector drives a logical monitor.
pub fn monitor_enabled(config: &DisplayConfig, connector: &str) -> (r: bool)
    ensures
        r == config.is_enabled(connector@),
{
    config.logical_monitor_index_for_connector(connector).is_some()
}

} // verus!
