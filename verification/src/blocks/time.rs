//! The time block: shows the wall clock through a strftime-style pattern, in
//! a fixed zone or the local one, with the names of a locale where one is set.

use crate::blocks::{Block, CommandLine, CommandModel, Interval, Update};
use crate::clock::{
    clock_now, is_locale, is_zone, known_locale, known_zone, local_offset, offset_text,
    offset_text_localized, on_the_clock, render_at_offset, render_at_offset_localized,
    render_in_zone, render_in_zone_localized, within_a_day, zone_text, zone_text_localized,
};
use crate::errors::{BlockError, ErrorKind};
use crate::identity::{fresh_identity, is_generated};
use crate::input::I3BarEvent;
use crate::severity::State;
use crate::widget::{Spacing, Widget, WidgetModel};
use vstd::prelude::*;

verus! {

/// Configuration of a time block.
#[derive(Clone, Debug)]
pub struct TimeConfig {
    /// The strftime-style pattern.
    pub format: String,
    /// Delay between two updates.
    pub interval: Interval,
    /// Shell command to launch on a left click.
    pub on_click: Option<String>,
    /// Name of the zone to show the time in, such as `Europe/Paris`; the
    /// local zone of the machine where `None`.
    pub timezone: Option<String>,
    /// Name of the locale for the names of days and months, such as `fr_FR`.
    pub locale: Option<String>,
}

impl TimeConfig {
    /// Day of the week, day and month, hours and minutes.
    pub fn default_format() -> (r: String)
        ensures
            r@ == "%a %d/%m %R"@,
    {
        String::from_str("%a %d/%m %R")
    }

    /// Five seconds between two updates.
    pub fn default_interval() -> (r: Interval)
        ensures
            r.nanos == 5_000_000_000,
    {
        Interval::from_secs(5)
    }

    /// No command on a click.
    pub fn default_on_click() -> (r: Option<String>)
        ensures
            r is None,
    {
        None
    }

    /// The local zone of the machine.
    pub fn default_timezone() -> (r: Option<String>)
        ensures
            r is None,
    {
        None
    }

    /// No locale: names of days and months as chrono has them.
    pub fn default_locale() -> (r: Option<String>)
        ensures
            r is None,
    {
        None
    }

    /// The configured locale, if any, is one that is known.
    pub open spec fn locale_known(&self) -> bool {
        self.locale matches Some(name) ==> known_locale(name@)
    }

    /// The configured zone, if any, is one that is known.
    pub open spec fn zone_known(&self) -> bool {
        self.timezone matches Some(name) ==> known_zone(name@)
    }
}

impl Default for TimeConfig {
    /// The configuration before any field is given: the pattern empty, the
    /// interval zero, no command, the local zone and no locale.
    fn default() -> (r: TimeConfig)
        ensures
            r.format@.len() == 0,
            r.interval.nanos == 0,
            r.on_click is None,
            r.timezone is None,
            r.locale is None,
    {
        TimeConfig {
            format: String::new(),
            interval: Interval { nanos: 0 },
            on_click: None,
            timezone: None,
            locale: None,
        }
    }
}

/// A time block.
#[derive(Debug)]
pub struct Time {
    time: Widget,
    id: String,
    update_interval: Interval,
    format: String,
    on_click: Option<String>,
    timezone: Option<String>,
    locale: Option<String>,
}

/// Mathematical value of a [`Time`].
pub ghost struct TimeModel {
    pub widget: WidgetModel,
    pub id: Seq<char>,
    pub interval: Interval,
    pub format: Seq<char>,
    pub on_click: Option<Seq<char>>,
    pub timezone: Option<Seq<char>>,
    pub locale: Option<Seq<char>>,
}

impl TimeModel {
    /// The widget belongs to the block.
    pub open spec fn well_formed(self) -> bool {
        self.widget.id == self.id
    }

    /// The block with `text` on display.
    pub open spec fn showing(self, text: Seq<char>) -> TimeModel {
        TimeModel { widget: WidgetModel { text: text, ..self.widget }, ..self }
    }

    /// The block as built from `config` under the identity `id`.
    pub open spec fn initial(config: TimeConfig, id: Seq<char>) -> TimeModel {
        TimeModel {
            widget: WidgetModel {
                id: id,
                icon: "time"@,
                text: Seq::empty(),
                state: State::Idle,
                spacing: Spacing::Normal,
            },
            id: id,
            interval: config.interval,
            format: config.format@,
            on_click: config.on_click.deep_view(),
            timezone: config.timezone.deep_view(),
            locale: config.locale.deep_view(),
        }
    }

    /// The command that a left click on the block launches, if any: the
    /// configured command line, run by the shell.
    pub open spec fn launches(self) -> Option<CommandModel> {
        match self.on_click {
            Some(command) => Some(CommandModel { program: "sh"@, args: seq!["-c"@, command] }),
            None => None,
        }
    }

    /// The clock may render as `shown` at the given instant: the text is the
    /// one that chrono gives for instant, pattern and locale, in the
    /// configured zone or, without one, at the offset of the local zone,
    /// which the machine decides.
    pub open spec fn renders(self, secs: i64, nanos: u32, shown: Option<Seq<char>>) -> bool {
        match self.timezone {
            Some(zone) => match self.locale {
                None => shown == zone_text(secs, nanos, self.format, zone),
                Some(locale) => shown == zone_text_localized(secs, nanos, self.format, zone, locale),
            },
            None => exists|offset: i32| within_a_day(offset) && self.renders_at(secs, nanos, offset, shown),
        }
    }

    /// The clock renders as `shown` at the given instant and offset from UTC.
    pub open spec fn renders_at(self, secs: i64, nanos: u32, offset: i32, shown: Option<Seq<char>>) -> bool {
        match self.locale {
            None => shown == offset_text(secs, nanos, self.format, offset),
            Some(locale) => shown == offset_text_localized(secs, nanos, self.format, offset, locale),
        }
    }
}

/// What building a block from `config` under the identity `id` gives.
pub open spec fn constructed(config: TimeConfig, id: Seq<char>, r: Result<Time, BlockError>) -> bool {
    match r {
        Ok(block) => config.locale_known() && config.zone_known() && block.model()
            == TimeModel::initial(config, id),
        Err(e) => if !config.locale_known() {
            e.says(ErrorKind::Construction, "time"@, "invalid locale"@)
        } else {
            !config.zone_known() && e.says(ErrorKind::Construction, "time"@, "invalid timezone"@)
        },
    }
}

/// What a cycle makes of the block `before` when the clock renders as `shown`.
pub open spec fn cycle(
    before: TimeModel,
    shown: Option<Seq<char>>,
    after: TimeModel,
    r: Result<Update, BlockError>,
) -> bool {
    match shown {
        Some(text) => after == before.showing(text) && (r matches Ok(update) && update.next == Some(
            before.interval,
        ) && update.rejected@.len() == 0),
        None => after == before && (r matches Err(e) && e.says(
            ErrorKind::Render,
            "time"@,
            "time cannot be formatted"@,
        )),
    }
}

impl Time {
    /// The mathematical value of the block.
    pub closed spec fn model(&self) -> TimeModel {
        TimeModel {
            widget: self.time@,
            id: self.id@,
            interval: self.update_interval,
            format: self.format@,
            on_click: self.on_click.deep_view(),
            timezone: self.timezone.deep_view(),
            locale: self.locale.deep_view(),
        }
    }

    /// Builds the block from its configuration, under a fresh identity. It
    /// fails exactly when the configuration names a locale or a zone that is
    /// not known.
    pub fn new(block_config: TimeConfig) -> (r: Result<Time, BlockError>)
        ensures
            r is Ok <==> block_config.locale_known() && block_config.zone_known(),
            exists|id: Seq<char>| is_generated(id) && constructed(block_config, id, r),
            r matches Ok(block) ==> block.model().well_formed(),
    {
        let id = fresh_identity();
        Time::with_identity(block_config, id)
    }

    /// Builds the block from its configuration, under the identity `id`.
    pub fn with_identity(block_config: TimeConfig, id: String) -> (r: Result<Time, BlockError>)
        ensures
            constructed(block_config, id@, r),
            r matches Ok(block) ==> block.model().well_formed(),
    {
        match &block_config.locale {
            Some(name) => {
                if !is_locale(name.as_str()) {
                    return Err(BlockError::new(ErrorKind::Construction, "time", "invalid locale"));
                }
            },
            None => {},
        }
        match &block_config.timezone {
            Some(name) => {
                if !is_zone(name.as_str()) {
                    return Err(BlockError::new(ErrorKind::Construction, "time", "invalid timezone"));
                }
            },
            None => {},
        }
        let time = Widget::new(id.as_str()).with_text("").with_icon("time");
        proof {
            reveal_strlit("");
            assert(""@ =~= Seq::<char>::empty());
        }
        Ok(
            Time {
                time,
                id,
                update_interval: block_config.interval,
                format: block_config.format,
                on_click: block_config.on_click,
                timezone: block_config.timezone,
                locale: block_config.locale,
            },
        )
    }

    /// Puts the rendered clock `shown` on display and hands the interval back;
    /// where the clock could not be rendered the block stays as it is.
    pub fn show(&mut self, shown: Option<String>) -> (r: Result<Update, BlockError>)
        requires
            old(self).model().well_formed(),
        ensures
            cycle(old(self).model(), shown.deep_view(), final(self).model(), r),
            final(self).model().well_formed(),
    {
        match shown {
            Some(text) => {
                self.time.set_text(text);
                Ok(Update { next: Some(self.update_interval), rejected: Vec::new() })
            },
            None => Err(BlockError::new(ErrorKind::Render, "time", "time cannot be formatted")),
        }
    }

    /// Runs one cycle for the instant `secs` seconds and `nanos` nanoseconds
    /// after the Unix epoch: renders it through the pattern, in the configured
    /// zone and locale, and shows the text as it comes out. Without a zone the
    /// instant is rendered at the offset that the local zone has at it. An
    /// instant or a pattern that chrono refuses fails the cycle.
    pub fn update_at(&mut self, secs: i64, nanos: u32) -> (r: Result<Update, BlockError>)
        requires
            old(self).model().well_formed(),
        ensures
            exists|shown: Option<Seq<char>>|
                old(self).model().renders(secs, nanos, shown) && cycle(
                    old(self).model(),
                    shown,
                    final(self).model(),
                    r,
                ),
            final(self).model().well_formed(),
    {
        let ghost mut at: i32 = 0;
        let shown: Option<String> = match &self.timezone {
            Some(zone) => match &self.locale {
                Some(locale) => render_in_zone_localized(
                    secs,
                    nanos,
                    self.format.as_str(),
                    zone.as_str(),
                    locale.as_str(),
                ),
                None => render_in_zone(secs, nanos, self.format.as_str(), zone.as_str()),
            },
            None => {
                let offset: i32 = match local_offset(secs, nanos) {
                    Some(offset) => offset,
                    None => 0,
                };
                proof {
                    at = offset;
                }
                match &self.locale {
                    Some(locale) => render_at_offset_localized(
                        secs,
                        nanos,
                        self.format.as_str(),
                        offset,
                        locale.as_str(),
                    ),
                    None => render_at_offset(secs, nanos, self.format.as_str(), offset),
                }
            },
        };
        let ghost witness = shown.deep_view();
        assert(self.model().renders(secs, nanos, witness)) by {
            if self.model().timezone is None {
                assert(within_a_day(at) && self.model().renders_at(secs, nanos, at, witness));
            }
        }
        let r = self.show(shown);
        r
    }
}

impl Block for Time {
    open spec fn identity(&self) -> Seq<char> {
        self.model().id
    }

    open spec fn widgets(&self) -> Seq<WidgetModel> {
        seq![self.model().widget]
    }

    open spec fn well_formed(&self) -> bool {
        self.model().well_formed()
    }

    /// The block reads the clock by itself: it asks for no command.
    open spec fn wanted(&self) -> Option<CommandModel> {
        None
    }

    /// The clock is read, the instant rendered, and the text shown as it
    /// comes out. `report` is not looked at.
    open spec fn polled(&self, report: Seq<char>, after: Self, r: Result<Update, BlockError>) -> bool {
        exists|secs: i64, nanos: u32, shown: Option<Seq<char>>|
            on_the_clock(secs, nanos) && self.model().renders(secs, nanos, shown) && cycle(
                self.model(),
                shown,
                after.model(),
                r,
            )
    }

    /// A left click on the block asks for the configured command, run by the
    /// shell; any other event asks for nothing. The block never changes.
    open spec fn clicked(&self, event: I3BarEvent, after: Self, r: Option<CommandLine>) -> bool {
        after == *self && r.deep_view() == (if event.activates(self.model().id) {
            self.model().launches()
        } else {
            None
        })
    }

    fn id(&self) -> (r: &str) {
        self.id.as_str()
    }

    fn view(&self) -> (r: Vec<&Widget>) {
        vec![&self.time]
    }

    fn probe(&self) -> (r: Option<CommandLine>) {
        None
    }

    fn update(&mut self, report: &str) -> (r: Result<Update, BlockError>) {
        let (secs, nanos) = clock_now();
        self.update_at(secs, nanos)
    }

    fn click(&mut self, event: &I3BarEvent) -> (r: Option<CommandLine>) {
        if event.is_left_click_on(self.id.as_str()) {
            match &self.on_click {
                Some(command) => {
                    let mut args: Vec<String> = Vec::new();
                    args.push(String::from_str("-c"));
                    args.push(command.clone());
                    proof {
                        assert(args.deep_view() =~= seq!["-c"@, command@]);
                    }
                    Some(CommandLine { program: String::from_str("sh"), args })
                },
                None => None,
            }
        } else {
            None
        }
    }
}

} // verus!
