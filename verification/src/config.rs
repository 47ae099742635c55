//! The configuration of the dashboard.
use std::time::Duration;
use vstd::hash_map::StringHashMap;
use vstd::prelude::*;

use crate::clock::nanos_of;

verus! {

/// The settings of the dashboard.
#[derive(Debug)]
pub struct Config {
    pub listen: String,
    pub history_points: usize,
    pub redraw_millis: u64,
    pub metrics: Vec<MetricConfig>,
}

/// The settings of one metric.
#[derive(Debug)]
pub struct MetricConfig {
    pub name: String,
    pub view: MetricView,
    pub kind: MetricKindConfig,
    pub display: MetricDisplay,
    pub unit: String,
}

/// Where a metric is shown.
#[derive(Debug, Clone, Copy, Eq, PartialEq, Structural)]
pub enum MetricView {
    Chart,
    Numeric,
}

/// The kind that a metric is configured to have.
#[derive(Debug, Clone, Copy, Eq, PartialEq, Structural)]
pub enum MetricKindConfig {
    Auto,
    Counter,
    Gauge,
    Histogram,
    Timer,
    Distribution,
    UniqueSet,
}

/// Which number of a metric is shown.
#[derive(Debug, Clone, Copy, Eq, PartialEq, Structural)]
pub enum MetricDisplay {
    Default,
    Latest,
    Total,
    Rate,
}

/// The settings as a configuration file gives them: what it leaves out is `None`.
#[derive(Debug)]
pub struct ConfigFile {
    pub listen: Option<String>,
    pub history_points: Option<usize>,
    pub redraw_millis: Option<u64>,
    pub metrics: Option<Vec<MetricEntry>>,
}

/// The settings of one metric as a configuration file gives them.
#[derive(Debug)]
pub struct MetricEntry {
    pub name: String,
    pub view: Option<MetricView>,
    pub kind: Option<MetricKindConfig>,
    pub display: Option<MetricDisplay>,
    pub unit: Option<String>,
}

/// What came of reading the configuration file.
#[derive(Debug)]
pub enum ReadOutcome {
    Contents(String),
    NotFound,
    Failed,
}

/// What to do about the configuration file.
#[derive(Debug)]
pub enum LoadStep {
    Parse(String),
    UseDefaults,
    Fail,
}

impl Default for MetricView {
    fn default() -> (view: Self)
        ensures
            view == MetricView::Numeric,
    {
        MetricView::Numeric
    }
}

impl Default for MetricKindConfig {
    fn default() -> (kind: Self)
        ensures
            kind == MetricKindConfig::Auto,
    {
        MetricKindConfig::Auto
    }
}

impl Default for MetricDisplay {
    fn default() -> (display: Self)
        ensures
            display == MetricDisplay::Default,
    {
        MetricDisplay::Default
    }
}

impl Clone for MetricConfig {
    fn clone(&self) -> (copy: Self)
        ensures
            copy == *self,
    {
        MetricConfig {
            name: self.name.clone(),
            view: self.view,
            kind: self.kind,
            display: self.display,
            unit: self.unit.clone(),
        }
    }
}

/// The settings of a metric whose entry is `entry`.
pub open spec fn metric_from(entry: MetricEntry, metric: MetricConfig) -> bool {
    &&& metric.name@ == entry.name@
    &&& metric.view == entry.view.unwrap_or(MetricView::Numeric)
    &&& metric.kind == entry.kind.unwrap_or(MetricKindConfig::Auto)
    &&& metric.display == entry.display.unwrap_or(MetricDisplay::Default)
    &&& metric.unit@ == match entry.unit {
        Some(unit) => unit@,
        None => seq![],
    }
}

/// The settings of a dashboard whose configuration file is `file`.
pub open spec fn config_from(file: ConfigFile, config: Config) -> bool {
    &&& config.listen@ == match file.listen {
        Some(listen) => listen@,
        None => "127.0.0.1:8125"@,
    }
    &&& config.history_points == file.history_points.unwrap_or(120)
    &&& config.redraw_millis == file.redraw_millis.unwrap_or(250)
    &&& match file.metrics {
        Some(entries) => {
            &&& config.metrics@.len() == entries@.len()
            &&& forall|i: int|
                0 <= i < entries@.len() ==> metric_from(
                    #[trigger] entries@[i],
                    config.metrics@[i],
                )
        },
        None => config.metrics@.len() == 0,
    }
}

/// Whether these are the settings without a configuration file.
pub open spec fn is_default(config: Config) -> bool {
    &&& config.listen@ == "127.0.0.1:8125"@
    &&& config.history_points == 120
    &&& config.redraw_millis == 250
    &&& config.metrics@.len() == 0
}

/// What to do after the configuration file was read.
pub open spec fn step_after(outcome: ReadOutcome, at_default_path: bool) -> LoadStep {
    match outcome {
        ReadOutcome::Contents(contents) => LoadStep::Parse(contents),
        ReadOutcome::NotFound if at_default_path => LoadStep::UseDefaults,
        _ => LoadStep::Fail,
    }
}

/// The metrics by name. Of two metrics with one name the later one counts.
pub open spec fn metric_table(metrics: Seq<MetricConfig>) -> Map<Seq<char>, MetricConfig>
    decreases metrics.len(),
{
    if metrics.len() == 0 {
        Map::empty()
    } else {
        metric_table(metrics.drop_last()).insert(metrics.last().name@, metrics.last())
    }
}

impl MetricConfig {
    /// The settings that an entry stands for, with the defaults for what it leaves out.
    pub fn from_entry(entry: MetricEntry) -> (metric: Self)
        ensures
            metric_from(entry, metric),
    {
        MetricConfig {
            name: entry.name,
            view: match entry.view {
                Some(view) => view,
                None => MetricView::default(),
            },
            kind: match entry.kind {
                Some(kind) => kind,
                None => MetricKindConfig::default(),
            },
            display: match entry.display {
                Some(display) => display,
                None => MetricDisplay::default(),
            },
            unit: match entry.unit {
                Some(unit) => unit,
                None => String::new(),
            },
        }
    }
}

impl Config {
    /// The settings that a configuration file stands for, with the defaults for what it leaves
    /// out.
    pub fn from_file(file: ConfigFile) -> (config: Self)
        ensures
            config_from(file, config),
    {
        let mut metrics: Vec<MetricConfig> = Vec::new();
        if let Some(entries) = file.metrics {
            for entry in iter: entries
                invariant
                    iter.seq() == entries@,
                    metrics@.len() == iter.index(),
                    forall|i: int|
                        0 <= i < iter.index() ==> metric_from(
                            #[trigger] iter.seq()[i],
                            metrics@[i],
                        ),
            {
                metrics.push(MetricConfig::from_entry(entry));
            }
        }
        Config {
            listen: match file.listen {
                Some(listen) => listen,
                None => default_listen(),
            },
            history_points: match file.history_points {
                Some(points) => points,
                None => default_history_points(),
            },
            redraw_millis: match file.redraw_millis {
                Some(millis) => millis,
                None => default_redraw_millis(),
            },
            metrics,
        }
    }

    /// The file that is read where no other is named.
    pub fn default_path() -> (path: String)
        ensures
            path@ == "spinal-tap.toml"@,
    {
        "spinal-tap.toml".to_owned()
    }

    /// What to do after the configuration file was read. Only the file at the default path may be
    /// missing.
    pub fn load_step(outcome: ReadOutcome, at_default_path: bool) -> (step: LoadStep)
        ensures
            step == step_after(outcome, at_default_path),
    {
        match outcome {
            ReadOutcome::Contents(contents) => LoadStep::Parse(contents),
            ReadOutcome::NotFound => if at_default_path {
                LoadStep::UseDefaults
            } else {
                LoadStep::Fail
            },
            ReadOutcome::Failed => LoadStep::Fail,
        }
    }

    /// The time between two redraws: the configured one, but at least 50 milliseconds.
    pub fn redraw_interval(&self) -> (interval: Duration)
        ensures
            nanos_of(interval) == self.millis_between_redraws() * 1_000_000,
    {
        Duration::from_millis(self.redraw_millis.max(50))
    }

    /// The number of points kept of each series: the configured one, but at least two.
    pub fn history_points(&self) -> (points: usize)
        ensures
            points == self.points_kept(),
    {
        self.history_points.max(2)
    }

    /// The milliseconds between two redraws.
    pub open spec fn millis_between_redraws(&self) -> int {
        if self.redraw_millis < 50 {
            50
        } else {
            self.redraw_millis as int
        }
    }

    /// The number of points kept of each series.
    pub open spec fn points_kept(&self) -> usize {
        if self.history_points < 2 {
            2
        } else {
            self.history_points
        }
    }

    /// The metrics by name. Of two metrics with one name the later one counts.
    pub fn metric_map(&self) -> (map: StringHashMap<MetricConfig>)
        ensures
            map@ == metric_table(self.metrics@),
    {
        let mut map: StringHashMap<MetricConfig> = StringHashMap::new();
        let mut i: usize = 0;
        while i < self.metrics.len()
            invariant
                i <= self.metrics@.len(),
                map@ == metric_table(self.metrics@.take(i as int)),
            decreases self.metrics@.len() - i,
        {
            map.insert(self.metrics[i].name.clone(), self.metrics[i].clone());
            assert(self.metrics@.take(i + 1).drop_last() == self.metrics@.take(i as int));
            i += 1;
        }
        assert(self.metrics@.take(i as int) == self.metrics@);
        map
    }
}

impl Default for Config {
    fn default() -> (config: Self)
        ensures
            is_default(config),
    {
        Config {
            listen: default_listen(),
            history_points: default_history_points(),
            redraw_millis: default_redraw_millis(),
            metrics: Vec::new(),
        }
    }
}

impl Clone for Config {
    fn clone(&self) -> (copy: Self)
        ensures
            copy.listen == self.listen,
            copy.history_points == self.history_points,
            copy.redraw_millis == self.redraw_millis,
            copy.metrics@ == self.metrics@,
    {
        let mut metrics: Vec<MetricConfig> = Vec::new();
        let mut i: usize = 0;
        while i < self.metrics.len()
            invariant
                i <= self.metrics@.len(),
                metrics@ == self.metrics@.take(i as int),
            decreases self.metrics@.len() - i,
        {
            metrics.push(self.metrics[i].clone());
            i += 1;
            assert(self.metrics@.take(i as int) == self.metrics@.take(i - 1).push(
                self.metrics@[i - 1],
            ));
        }
        assert(self.metrics@.take(i as int) == self.metrics@);
        Config {
            listen: self.listen.clone(),
            history_points: self.history_points,
            redraw_millis: self.redraw_millis,
            metrics,
        }
    }
}

/// The address that is listened on where none is configured.
pub fn default_listen() -> (listen: String)
    ensures
        listen@ == "127.0.0.1:8125"@,
{
    "127.0.0.1:8125".to_owned()
}

/// The number of points kept where none is configured.
pub fn default_history_points() -> (points: usize)
    ensures
        points == 120,
{
    120
}

/// The milliseconds between two redraws where none are configured.
pub fn default_redraw_millis() -> (millis: u64)
    ensures
        millis == 250,
{
    250
}

/// The names that the table of metrics holds are those of the metrics, and each stands for the
/// last metric of that name.
pub proof fn table_holds_last_of_each_name(metrics: Seq<MetricConfig>, name: Seq<char>)
    ensures
        metric_table(metrics).contains_key(name) <==> exists|i: int|
            0 <= i < metrics.len() && #[trigger] metrics[i].name@ == name,
        forall|i: int|
            0 <= i < metrics.len() && #[trigger] metrics[i].name@ == name && (forall|j: int|
                i < j < metrics.len() ==> #[trigger] metrics[j].name@ != name) ==> metric_table(
                metrics,
            )[name] == metrics[i],
    decreases metrics.len(),
{
    if metrics.len() > 0 {
        let rest = metrics.drop_last();
        table_holds_last_of_each_name(rest, name);
        assert forall|i: int| 0 <= i < rest.len() implies rest[i] == #[trigger] metrics[i] by {}
        if metrics.last().name@ != name {
            if exists|i: int| 0 <= i < metrics.len() && #[trigger] metrics[i].name@ == name {
                let i = choose|i: int| 0 <= i < metrics.len() && #[trigger] metrics[i].name@ == name;
                assert(rest[i].name@ == name);
            }
            if exists|i: int| 0 <= i < rest.len() && #[trigger] rest[i].name@ == name {
                let i = choose|i: int| 0 <= i < rest.len() && #[trigger] rest[i].name@ == name;
                assert(metrics[i].name@ == name);
            }
            assert forall|i: int|
                0 <= i < metrics.len() && #[trigger] metrics[i].name@ == name && (forall|j: int|
                    i < j < metrics.len() ==> #[trigger] metrics[j].name@
                        != name) implies metric_table(metrics)[name] == metrics[i] by {
                assert(rest[i].name@ == name);
                assert forall|j: int| i < j < rest.len() implies #[trigger] rest[j].name@ != name by {
                    assert(metrics[j].name@ != name);
                }
            }
        } else {
            assert(metrics[metrics.len() - 1].name@ == name);
        }
    }
}

/// A dashboard is never asked to keep fewer than two points of a series.
pub proof fn at_least_two_points_are_kept(config: Config)
    ensures
        config.points_kept() >= 2,
        config.points_kept() >= config.history_points,
        config.history_points >= 2 ==> config.points_kept() == config.history_points,
        config.history_points < 2 ==> config.points_kept() == 2,
{
}

/// The screen is redrawn as often as configured, but no more often than every 50 milliseconds.
pub proof fn redraws_are_at_least_fifty_milliseconds_apart(config: Config)
    ensures
        config.millis_between_redraws() >= 50,
        config.millis_between_redraws() >= config.redraw_millis,
        config.redraw_millis >= 50 ==> config.millis_between_redraws() == config.redraw_millis,
        config.redraw_millis < 50 ==> config.millis_between_redraws() == 50,
{
}

/// What a metric's entry in the file gives is kept, and what it leaves out is shown as numbers, of
/// an automatic kind, in the default display and without a unit.
pub proof fn entries_are_kept_and_filled_up(entry: MetricEntry, metric: MetricConfig)
    requires
        metric_from(entry, metric),
    ensures
        metric.name@ == entry.name@,
        entry.view matches Some(view) ==> metric.view == view,
        entry.view is None ==> metric.view == MetricView::Numeric,
        entry.kind matches Some(kind) ==> metric.kind == kind,
        entry.kind is None ==> metric.kind == MetricKindConfig::Auto,
        entry.display matches Some(display) ==> metric.display == display,
        entry.display is None ==> metric.display == MetricDisplay::Default,
        entry.unit matches Some(unit) ==> metric.unit@ == unit@,
        entry.unit is None ==> metric.unit@.len() == 0,
{
}

/// What the file gives is kept, metric by metric in its order, and what it leaves out has its
/// default.
pub proof fn files_are_kept_and_filled_up(file: ConfigFile, config: Config)
    requires
        config_from(file, config),
    ensures
        file.listen matches Some(listen) ==> config.listen@ == listen@,
        file.listen is None ==> config.listen@ == "127.0.0.1:8125"@,
        file.history_points matches Some(points) ==> config.history_points == points,
        file.history_points is None ==> config.history_points == 120,
        file.redraw_millis matches Some(millis) ==> config.redraw_millis == millis,
        file.redraw_millis is None ==> config.redraw_millis == 250,
        file.metrics is None ==> config.metrics@.len() == 0,
        file.metrics matches Some(entries) ==> config.metrics@.len() == entries@.len() && forall|
            i: int,
        |
            0 <= i < entries@.len() ==> (#[trigger] config.metrics@[i]).name@ == entries@[i].name@
                && metric_from(entries@[i], config.metrics@[i]),
{
}

/// A file that could be read is parsed, whatever it holds. A missing file stands for the defaults
/// if and only if it is the default one, and nothing else does.
pub proof fn only_the_default_file_may_be_missing(outcome: ReadOutcome, at_default_path: bool)
    ensures
        outcome matches ReadOutcome::Contents(contents) ==> step_after(outcome, at_default_path)
            == LoadStep::Parse(contents),
        step_after(outcome, at_default_path) is Parse <==> outcome is Contents,
        step_after(outcome, at_default_path) is UseDefaults <==> outcome is NotFound
            && at_default_path,
{
}

/// The settings without a configuration file are those that a file stands for which leaves
/// everything out.
pub proof fn defaults_are_those_of_an_empty_file(config: Config, file: ConfigFile, read: Config)
    requires
        is_default(config),
        config_from(file, read),
        file.listen is None && file.history_points is None && file.redraw_millis is None,
        file.metrics is None,
    ensures
        config.listen@ == read.listen@,
        config.history_points == read.history_points,
        config.redraw_millis == read.redraw_millis,
        config.metrics@ == read.metrics@,
        config.metrics@.len() == 0,
{
}

} // verus!
