//! The temperature block: reduces the readings of the sensor command to an
//! average, a minimum and a maximum, and shows them with a severity.

use crate::aggregate::{summarize, summary_of, Summary};
use crate::blocks::{Block, CommandLine, CommandModel, Interval, Update};
use crate::errors::{BlockError, ErrorKind};
use crate::format::{
    canonical, first_undefined, render_spec, source_of, unterminated, FormatTemplate, TokenModel,
    Values,
};
use crate::identity::{fresh_identity, is_generated};
use crate::input::I3BarEvent;
use crate::sensors::{
    accepted, chips_readings, read_sensors, rejected, sensors_document, sift,
    temperature_readings, Chip, ChipModel,
};
use crate::severity::{classify, classify_spec, State, Thresholds};
use crate::text::{decimal, render_decimal};
use crate::widget::{Spacing, Widget, WidgetModel};
use vstd::prelude::*;

verus! {

/// Configuration of a temperature block.
#[derive(Clone, Debug)]
pub struct TemperatureConfig {
    /// Delay between two updates.
    pub interval: Interval,
    /// Whether the block starts collapsed.
    pub collapsed: bool,
    /// Highest maximum that still counts as good.
    pub good: i64,
    /// Highest maximum that still counts as idle.
    pub idle: i64,
    /// Highest maximum that still counts as info.
    pub info: i64,
    /// Highest maximum that still counts as a warning.
    pub warning: i64,
    /// Display template, with the placeholders `average`, `min` and `max`.
    pub format: String,
    /// The chip to ask the sensor command for; all chips where `None`.
    pub chip: Option<String>,
    /// The inputs to read; all inputs where `None`.
    pub inputs: Option<Vec<String>>,
}

impl TemperatureConfig {
    /// The template that shows the average and the maximum.
    pub fn default_format() -> (r: String)
        ensures
            r@ == "{average}° avg, {max}° max"@,
    {
        String::from_str("{average}° avg, {max}° max")
    }

    /// Five seconds between two updates.
    pub fn default_interval() -> (r: Interval)
        ensures
            r.nanos == 5_000_000_000,
    {
        Interval::from_secs(5)
    }

    /// The block starts collapsed.
    pub fn default_collapsed() -> (r: bool)
        ensures
            r,
    {
        true
    }

    /// Up to 20 degrees the state is good.
    pub fn default_good() -> (r: i64)
        ensures
            r == 20,
    {
        20
    }

    /// Up to 45 degrees the state is idle.
    pub fn default_idle() -> (r: i64)
        ensures
            r == 45,
    {
        45
    }

    /// Up to 60 degrees the state is info.
    pub fn default_info() -> (r: i64)
        ensures
            r == 60,
    {
        60
    }

    /// Up to 80 degrees the state is a warning.
    pub fn default_warning() -> (r: i64)
        ensures
            r == 80,
    {
        80
    }

    /// No chip filter: the sensor command reports every chip.
    pub fn default_chip() -> (r: Option<String>)
        ensures
            r is None,
    {
        None
    }

    /// No whitelist: every input is read.
    pub fn default_inputs() -> (r: Option<Vec<String>>)
        ensures
            r is None,
    {
        None
    }

    /// The four limits of the configuration.
    pub open spec fn limits(&self) -> Thresholds {
        Thresholds { good: self.good, idle: self.idle, info: self.info, warning: self.warning }
    }
}

impl Default for TemperatureConfig {
    /// The configuration before any field is given: every number zero, the
    /// template empty, expanded, no chip and no whitelist.
    fn default() -> (r: TemperatureConfig)
        ensures
            r.interval.nanos == 0,
            !r.collapsed,
            r.good == 0,
            r.idle == 0,
            r.info == 0,
            r.warning == 0,
            r.format@.len() == 0,
            r.chip is None,
            r.inputs is None,
    {
        TemperatureConfig {
            interval: Interval { nanos: 0 },
            collapsed: false,
            good: 0,
            idle: 0,
            info: 0,
            warning: 0,
            format: String::new(),
            chip: None,
            inputs: None,
        }
    }
}

/// A temperature block.
#[derive(Debug)]
pub struct Temperature {
    text: Widget,
    output: String,
    collapsed: bool,
    id: String,
    update_interval: Interval,
    limits: Thresholds,
    format: FormatTemplate,
    chip: Option<String>,
    inputs: Option<Vec<String>>,
}

/// Mathematical value of a [`Temperature`].
pub ghost struct TemperatureModel {
    /// The widget of the block.
    pub widget: WidgetModel,
    /// The text of the last successful cycle; empty before the first.
    pub output: Seq<char>,
    pub collapsed: bool,
    pub id: Seq<char>,
    pub interval: Interval,
    pub limits: Thresholds,
    pub format: Seq<TokenModel>,
    pub chip: Option<Seq<char>>,
    pub inputs: Option<Seq<Seq<char>>>,
}

impl TemperatureModel {
    /// The widget belongs to the block; a collapsed block shows no text and
    /// is hidden, an expanded one shows the last output.
    pub open spec fn well_formed(self) -> bool {
        &&& self.widget.id == self.id
        &&& self.widget.text == self.shown_text()
        &&& self.widget.spacing == self.shown_spacing()
    }

    /// The text that the widget shows.
    pub open spec fn shown_text(self) -> Seq<char> {
        if self.collapsed {
            Seq::empty()
        } else {
            self.output
        }
    }

    /// The spacing of the widget.
    pub open spec fn shown_spacing(self) -> Spacing {
        if self.collapsed {
            Spacing::Hidden
        } else {
            Spacing::Normal
        }
    }

    /// The block after a left click on it: collapsed becomes expanded and
    /// expanded collapsed. The last output is kept.
    pub open spec fn toggled(self) -> TemperatureModel {
        let flipped = TemperatureModel { collapsed: !self.collapsed, ..self };
        TemperatureModel {
            widget: WidgetModel {
                text: flipped.shown_text(),
                spacing: flipped.shown_spacing(),
                ..self.widget
            },
            ..flipped
        }
    }

    /// The block after a cycle that rendered `text` from `summary`.
    pub open spec fn refreshed(self, summary: Summary, text: Seq<char>) -> TemperatureModel {
        let renewed = TemperatureModel { output: text, ..self };
        TemperatureModel {
            widget: WidgetModel {
                text: renewed.shown_text(),
                state: classify_spec(summary.max as int, self.limits),
                ..self.widget
            },
            ..renewed
        }
    }

    /// The block as built from `config` under the identity `id`, with the
    /// template parsed to `format`.
    pub open spec fn initial(
        config: TemperatureConfig,
        id: Seq<char>,
        format: Seq<TokenModel>,
    ) -> TemperatureModel {
        TemperatureModel {
            widget: WidgetModel {
                id: id,
                icon: "thermometer"@,
                text: Seq::empty(),
                state: State::Idle,
                spacing: if config.collapsed {
                    Spacing::Hidden
                } else {
                    Spacing::Normal
                },
            },
            output: Seq::empty(),
            collapsed: config.collapsed,
            id: id,
            interval: config.interval,
            limits: config.limits(),
            format: format,
            chip: config.chip.deep_view(),
            inputs: config.inputs.deep_view(),
        }
    }
}

/// The values that a summary gives to the placeholders of a template.
pub open spec fn summary_values(summary: Summary) -> Map<Seq<char>, Seq<char>> {
    Map::<Seq<char>, Seq<char>>::empty().insert("average"@, decimal(summary.average as int)).insert(
        "min"@,
        decimal(summary.min as int),
    ).insert("max"@, decimal(summary.max as int))
}

/// The arguments of the sensor command for a block with the chip filter `chip`.
pub open spec fn sensor_args(chip: Option<Seq<char>>) -> Seq<Seq<char>> {
    match chip {
        None => seq!["-j"@],
        Some(name) => seq!["-j"@, name],
    }
}

/// What building a block from `config` under the identity `id` gives.
pub open spec fn constructed(
    config: TemperatureConfig,
    id: Seq<char>,
    r: Result<Temperature, BlockError>,
) -> bool {
    match r {
        Ok(block) => !unterminated(config.format@) && canonical(block.model().format) && source_of(
            block.model().format,
        ) == config.format@ && block.model() == TemperatureModel::initial(config, id, block.model().format),
        Err(e) => unterminated(config.format@) && e.says(
            ErrorKind::Construction,
            "temperature"@,
            "Invalid format specified for temperature"@,
        ),
    }
}

/// What a cycle on the report `chips` makes of the block `before`.
pub open spec fn cycle(
    before: TemperatureModel,
    chips: Seq<ChipModel>,
    after: TemperatureModel,
    r: Result<Update, BlockError>,
) -> bool {
    let readings = chips_readings(chips, before.inputs);
    let degrees = accepted(readings);
    let done = (r matches Ok(update) && update.next == Some(before.interval) && update.rejected@
        == rejected(readings));
    if degrees.len() == 0 {
        after == before && done
    } else {
        let summary = summary_of(degrees);
        let values = summary_values(summary);
        match render_spec(before.format, values) {
            Some(text) => after == before.refreshed(summary, text) && done,
            None => after == before && (r matches Err(e) && first_undefined(before.format, values)
                matches Some(name) && e.says(
                ErrorKind::Render,
                "temperature"@,
                "Unknown placeholder in format string: "@ + name,
            )),
        }
    }
}

impl Temperature {
    /// The mathematical value of the block.
    pub closed spec fn model(&self) -> TemperatureModel {
        TemperatureModel {
            widget: self.text@,
            output: self.output@,
            collapsed: self.collapsed,
            id: self.id@,
            interval: self.update_interval,
            limits: self.limits,
            format: self.format@,
            chip: self.chip.deep_view(),
            inputs: self.inputs.deep_view(),
        }
    }
}

impl Temperature {
    /// Builds the block from its configuration, under a fresh identity. It
    /// fails exactly when the display template has a placeholder that is not
    /// terminated.
    pub fn new(block_config: TemperatureConfig) -> (r: Result<Temperature, BlockError>)
        ensures
            r is Ok <==> !unterminated(block_config.format@),
            exists|id: Seq<char>| is_generated(id) && constructed(block_config, id, r),
            r matches Ok(block) ==> block.model().well_formed(),
    {
        let id = fresh_identity();
        Temperature::with_identity(block_config, id)
    }

    /// Builds the block from its configuration, under the identity `id`.
    pub fn with_identity(block_config: TemperatureConfig, id: String) -> (r: Result<
        Temperature,
        BlockError,
    >)
        ensures
            constructed(block_config, id@, r),
            r matches Ok(block) ==> block.model().well_formed(),
    {
        let format = match FormatTemplate::from_string(block_config.format.as_str()) {
            Ok(format) => format,
            Err(_) => {
                return Err(
                    BlockError::new(
                        ErrorKind::Construction,
                        "temperature",
                        "Invalid format specified for temperature",
                    ),
                );
            },
        };
        let spacing = if block_config.collapsed {
            Spacing::Hidden
        } else {
            Spacing::Normal
        };
        let text = Widget::new(id.as_str()).with_icon("thermometer").with_spacing(spacing);
        Ok(
            Temperature {
                text,
                output: String::new(),
                collapsed: block_config.collapsed,
                id,
                update_interval: block_config.interval,
                limits: Thresholds {
                    good: block_config.good,
                    idle: block_config.idle,
                    info: block_config.info,
                    warning: block_config.warning,
                },
                format,
                chip: block_config.chip,
                inputs: block_config.inputs,
            },
        )
    }

    /// Runs one cycle on a decoded report: gathers the readings of the
    /// temperature inputs that the whitelist lets through, discards those out
    /// of range, and shows average, minimum and maximum of the rest through
    /// the template, with the severity of the maximum. Without a reading in
    /// range the block stays as it is. The interval is handed back either way.
    pub fn apply(&mut self, chips: &Vec<Chip>) -> (r: Result<Update, BlockError>)
        requires
            old(self).model().well_formed(),
        ensures
            cycle(old(self).model(), chips.deep_view(), final(self).model(), r),
            final(self).model().well_formed(),
    {
        let readings = temperature_readings(chips, &self.inputs);
        let (degrees, dropped) = sift(&readings);
        let summary = match summarize(&degrees) {
            Some(summary) => summary,
            None => {
                return Ok(Update { next: Some(self.update_interval), rejected: dropped });
            },
        };
        let mut values = Values::new();
        values.insert(String::from_str("average"), render_decimal(summary.average));
        values.insert(String::from_str("min"), render_decimal(summary.min));
        values.insert(String::from_str("max"), render_decimal(summary.max));
        match self.format.render(&values) {
            Ok(text) => {
                self.output = text;
            },
            Err(e) => {
                let mut message = String::from_str("Unknown placeholder in format string: ");
                message.append(e.placeholder.as_str());
                return Err(
                    BlockError {
                        kind: ErrorKind::Render,
                        block: String::from_str("temperature"),
                        message,
                    },
                );
            },
        }
        if !self.collapsed {
            self.text.set_text(self.output.clone());
        }
        self.text.set_state(classify(summary.max, &self.limits));
        Ok(Update { next: Some(self.update_interval), rejected: dropped })
    }

    /// The text of the last successful cycle.
    pub fn output(&self) -> (r: &str)
        ensures
            r@ == self.model().output,
    {
        self.output.as_str()
    }

    /// Whether the block is collapsed.
    pub fn collapsed(&self) -> (r: bool)
        ensures
            r == self.model().collapsed,
    {
        self.collapsed
    }
}

impl Block for Temperature {
    open spec fn identity(&self) -> Seq<char> {
        self.model().id
    }

    open spec fn widgets(&self) -> Seq<WidgetModel> {
        seq![self.model().widget]
    }

    open spec fn well_formed(&self) -> bool {
        self.model().well_formed()
    }

    /// The sensor command: `sensors -j`, followed by the chip where one is
    /// configured.
    open spec fn wanted(&self) -> Option<CommandModel> {
        Some(CommandModel { program: "sensors"@, args: sensor_args(self.model().chip) })
    }

    /// The report is decoded and a cycle run on it. A report that is no JSON
    /// object of JSON objects fails the cycle and leaves the block as it is.
    open spec fn polled(&self, report: Seq<char>, after: Self, r: Result<Update, BlockError>) -> bool {
        match sensors_document(report) {
            Some(chips) => cycle(self.model(), chips, after.model(), r),
            None => after.model() == self.model() && (r matches Err(e) && e.says(
                ErrorKind::Parse,
                "temperature"@,
                "sensors output is invalid"@,
            )),
        }
    }

    /// A left click on the block collapses it when it is expanded and expands
    /// it when it is collapsed; any other event changes nothing. No command is
    /// ever asked for.
    open spec fn clicked(&self, event: I3BarEvent, after: Self, r: Option<CommandLine>) -> bool {
        r is None && after.model() == (if event.activates(self.model().id) {
            self.model().toggled()
        } else {
            self.model()
        })
    }

    fn id(&self) -> (r: &str) {
        self.id.as_str()
    }

    fn view(&self) -> (r: Vec<&Widget>) {
        vec![&self.text]
    }

    fn probe(&self) -> (r: Option<CommandLine>) {
        let mut args: Vec<String> = Vec::new();
        args.push(String::from_str("-j"));
        match &self.chip {
            Some(chip) => {
                args.push(chip.clone());
            },
            None => {},
        }
        proof {
            assert(args.deep_view() =~= sensor_args(self.model().chip));
        }
        Some(CommandLine { program: String::from_str("sensors"), args })
    }

    fn update(&mut self, report: &str) -> (r: Result<Update, BlockError>) {
        match read_sensors(report) {
            Some(chips) => self.apply(&chips),
            None => Err(
                BlockError::new(ErrorKind::Parse, "temperature", "sensors output is invalid"),
            ),
        }
    }

    fn click(&mut self, event: &I3BarEvent) -> (r: Option<CommandLine>) {
        if event.is_left_click_on(self.id.as_str()) {
            self.collapsed = !self.collapsed;
            if self.collapsed {
                self.text.set_text(String::new());
                self.text.set_spacing(Spacing::Hidden);
            } else {
                self.text.set_text(self.output.clone());
                self.text.set_spacing(Spacing::Normal);
            }
        }
        None
    }
}

/// Two left clicks on a block leave it as it was, with the text and the
/// spacing of its widget: no cycle is needed to get them back.
pub proof fn lemma_toggle_twice(block: TemperatureModel)
    requires
        block.well_formed(),
    ensures
        block.toggled().well_formed(),
        block.toggled().output == block.output,
        block.toggled().toggled() == block,
{
}

/// A cycle that finds no reading in range leaves the block as it was, text
/// and severity included, and hands the configured interval back.
pub proof fn lemma_cycle_without_reading(
    before: TemperatureModel,
    chips: Seq<ChipModel>,
    after: TemperatureModel,
    r: Result<Update, BlockError>,
)
    requires
        cycle(before, chips, after, r),
        accepted(chips_readings(chips, before.inputs)).len() == 0,
    ensures
        after == before,
        r matches Ok(update) && update.next == Some(before.interval),
{
}

/// Whatever a cycle finds, the block keeps its identity, its configuration
/// and its collapsed state; a cycle that succeeds hands the configured
/// interval back, and one that fails leaves the block as it was.
pub proof fn lemma_cycle_keeps_configuration(
    before: TemperatureModel,
    chips: Seq<ChipModel>,
    after: TemperatureModel,
    r: Result<Update, BlockError>,
)
    requires
        before.well_formed(),
        cycle(before, chips, after, r),
    ensures
        after.well_formed(),
        after.id == before.id,
        after.collapsed == before.collapsed,
        after.interval == before.interval,
        after.limits == before.limits,
        after.format == before.format,
        after.chip == before.chip,
        after.inputs == before.inputs,
        after.widget.spacing == before.widget.spacing,
        r matches Ok(update) ==> update.next == Some(before.interval),
        r is Err ==> after == before,
{
}

} // verus!
