//! Thermal and fan safety monitor.
//!
//! Each hash board has a small state machine that is driven by the board's
//! messages and by a periodic tick. The temperatures of all boards are folded
//! into one, and a decision function turns configuration, fan count and that
//! temperature into one action. Nothing here waits or touches hardware: the
//! caller delivers messages, time and fan feedback and carries the actions out.

use vstd::prelude::*;
use vstd::string::*;
use crate::fan::{count_running, Feedback, Speed};
use crate::sensor::{Celsius, Measurement, Temperature};
use crate::text::{decimal, push_decimal};

verus! {

/// Nanoseconds in a second.
pub const NANOS_PER_SEC: u64 = 1_000_000_000;

/// A board that takes this long to start is marked broken.
pub const START_TIMEOUT: u64 = 180_000_000_000;

/// A running board that sends no update for this long is marked broken.
pub const RUN_UPDATE_TIMEOUT: u64 = 20_000_000_000;

/// How often a board should send its temperature.
pub const TEMP_UPDATE_INTERVAL: u64 = 5_000_000_000;

/// Time between two ticks of the monitor.
pub const TICK_LENGTH: u64 = 5_000_000_000;

/// For this long after its start a board counts as warming up.
pub const WARM_UP_PERIOD: u64 = 90_000_000_000;

/// Degrees added to the board temperature when the chip sensor is missing.
pub const MISSING_CHIP_SENSOR_OFFSET: i16 = 15;

/// Why a board that got a message out of order is broken.
pub const BAD_TRANSITION: &'static str = "bad state transition";

/// Why a board that did not start in time is broken.
pub const START_TOO_LONG: &'static str = "took too long to start";

/// Why a board that stopped sending updates is broken.
pub const UPDATE_MISSED: &'static str = "failed to send update in time";

/// A point in time, in nanoseconds since an origin that the caller fixes.
#[derive(Clone, Copy, Debug, PartialEq, Eq, Structural)]
pub struct Instant {
    pub nanos: u64,
}

impl Instant {
    /// The instant `secs` seconds after the origin.
    pub fn from_secs(secs: u64) -> (t: Self)
        requires
            secs * NANOS_PER_SEC <= u64::MAX,
        ensures
            t.nanos == secs * NANOS_PER_SEC,
    {
        Instant { nanos: secs * NANOS_PER_SEC }
    }

    /// Nanoseconds from `earlier` to `self`; zero if `earlier` is the later one.
    pub open spec fn spec_duration_since(self, earlier: Instant) -> u64 {
        if self.nanos >= earlier.nanos {
            (self.nanos - earlier.nanos) as u64
        } else {
            0
        }
    }

    /// Nanoseconds from `earlier` to `self`; zero if `earlier` is the later one.
    #[verifier::when_used_as_spec(spec_duration_since)]
    pub fn duration_since(self, earlier: Instant) -> (elapsed: u64)
        ensures
            elapsed == self.spec_duration_since(earlier),
    {
        if self.nanos >= earlier.nanos {
            self.nanos - earlier.nanos
        } else {
            0
        }
    }
}

/// A message from a hash board.
///
/// A board has to send `On`, then `Running` as often as it likes, then
/// `Off`, and may then start over.
#[derive(Clone, Copy, Debug)]
pub enum Message {
    On,
    Running(Temperature),
    Off,
}

/// Temperature of a board, or of the whole miner, as the monitor reads it.
#[derive(Clone, Copy, Debug, PartialEq, Eq, Structural)]
pub enum ChainTemperature {
    /// Not known, for a harmless reason (the board is off or starting)
    Unknown,
    /// Not known, for a bad reason (the board is broken)
    Failed,
    /// Measured
    Measured(Celsius),
}

impl ChainTemperature {
    /// The chip temperature that a sensor reading stands for. The remote
    /// channel measures the chip. Without it, the chip is taken to be
    /// [`MISSING_CHIP_SENSOR_OFFSET`] degrees warmer than the board.
    pub open spec fn spec_from_s9_sensor(temp: Temperature) -> ChainTemperature {
        match (temp.remote, temp.local) {
            (Measurement::Measured(r), Measurement::Measured(l)) => ChainTemperature::Measured(
                r.max(l),
            ),
            (Measurement::Measured(r), _) => ChainTemperature::Measured(r),
            (_, Measurement::Measured(l)) => ChainTemperature::Measured(
                l.plus_degrees(MISSING_CHIP_SENSOR_OFFSET),
            ),
            (_, _) => ChainTemperature::Unknown,
        }
    }

    /// The chip temperature that a sensor reading stands for.
    #[verifier::when_used_as_spec(spec_from_s9_sensor)]
    pub fn from_s9_sensor(temp: Temperature) -> (chip: ChainTemperature)
        ensures
            chip == Self::spec_from_s9_sensor(temp),
    {
        match temp.remote {
            Measurement::Measured(t_remote) => match temp.local {
                Measurement::Measured(t_local) => ChainTemperature::Measured(
                    t_remote.max(t_local),
                ),
                _ => ChainTemperature::Measured(t_remote),
            },
            _ => match temp.local {
                Measurement::Measured(t_local) => ChainTemperature::Measured(
                    t_local.plus_degrees(MISSING_CHIP_SENSOR_OFFSET),
                ),
                _ => ChainTemperature::Unknown,
            },
        }
    }

    /// How the temperature is written in messages.
    pub open spec fn text(&self) -> Seq<char> {
        match *self {
            ChainTemperature::Unknown => "???"@,
            ChainTemperature::Failed => "Fail"@,
            ChainTemperature::Measured(t) => t.text(),
        }
    }

    /// Appends the temperature, as it is written in messages, to `out`.
    pub fn push_to(&self, out: &mut String)
        ensures
            final(out)@ == old(out)@ + self.text(),
    {
        match self {
            ChainTemperature::Unknown => out.append("???"),
            ChainTemperature::Failed => out.append("Fail"),
            ChainTemperature::Measured(t) => t.push_to(out),
        }
    }

    /// The temperature as it is written in messages.
    pub fn to_string(&self) -> (text: String)
        ensures
            text@ == self.text(),
    {
        let mut text = String::new();
        self.push_to(&mut text);
        assert(text@ =~= self.text());
        text
    }
}

/// State of a hash board as the monitor sees it. The instants say when the
/// board entered the state or was last heard of.
#[derive(Clone, Copy, Debug)]
pub enum ChainState {
    /// The board was switched on and has not reported yet
    On(Instant),
    /// The board reports temperatures
    Running { started: Instant, last_heartbeat: Instant, temperature: Temperature },
    /// The board is off
    Off,
    /// The board broke the rules or went silent; there is no way out
    Broken(&'static str),
}

impl ChainState {
    /// The state that follows `self` when `message` arrives at `now`.
    pub open spec fn after_message(self, now: Instant, message: Message) -> ChainState {
        match message {
            Message::On => match self {
                ChainState::Off => ChainState::On(now),
                _ => ChainState::Broken(BAD_TRANSITION),
            },
            Message::Running(temperature) => match self {
                ChainState::Running { started, .. } => ChainState::Running {
                    started,
                    last_heartbeat: now,
                    temperature,
                },
                ChainState::On(started) => ChainState::Running {
                    started,
                    last_heartbeat: now,
                    temperature,
                },
                _ => ChainState::Broken(BAD_TRANSITION),
            },
            Message::Off => match self {
                ChainState::On(_) => ChainState::Off,
                ChainState::Running { .. } => ChainState::Off,
                _ => ChainState::Broken(BAD_TRANSITION),
            },
        }
    }

    /// The state that follows `self` when the timer ticks at `now`.
    pub open spec fn after_tick(self, now: Instant) -> ChainState {
        match self {
            ChainState::On(started) => if now.duration_since(started) >= START_TIMEOUT {
                ChainState::Broken(START_TOO_LONG)
            } else {
                self
            },
            ChainState::Running { last_heartbeat, .. } => if now.duration_since(last_heartbeat)
                >= RUN_UPDATE_TIMEOUT {
                ChainState::Broken(UPDATE_MISSED)
            } else {
                self
            },
            _ => self,
        }
    }

    /// Enters the broken state for a message out of order.
    pub fn bad_transition(&mut self)
        ensures
            *final(self) == ChainState::Broken(BAD_TRANSITION),
    {
        *self = ChainState::Broken(BAD_TRANSITION);
    }

    /// Reacts to `message`, received at `now`.
    pub fn transition(&mut self, now: Instant, message: Message)
        ensures
            *final(self) == old(self).after_message(now, message),
    {
        match message {
            Message::On => match *self {
                ChainState::Off => *self = ChainState::On(now),
                _ => self.bad_transition(),
            },
            Message::Running(temperature) => match *self {
                ChainState::Running { started, .. } => {
                    *self = ChainState::Running { started, last_heartbeat: now, temperature }
                },
                ChainState::On(started) => {
                    *self = ChainState::Running { started, last_heartbeat: now, temperature }
                },
                _ => self.bad_transition(),
            },
            Message::Off => match *self {
                ChainState::On(_) => *self = ChainState::Off,
                ChainState::Running { .. } => *self = ChainState::Off,
                _ => self.bad_transition(),
            },
        }
    }

    /// Checks the timeouts at `now`: a board must start within
    /// [`START_TIMEOUT`] and, once running, report every
    /// [`RUN_UPDATE_TIMEOUT`].
    pub fn tick(&mut self, now: Instant)
        ensures
            *final(self) == old(self).after_tick(now),
    {
        match *self {
            ChainState::On(started) => {
                if now.duration_since(started) >= START_TIMEOUT {
                    *self = ChainState::Broken(START_TOO_LONG);
                }
            },
            ChainState::Running { last_heartbeat, .. } => {
                if now.duration_since(last_heartbeat) >= RUN_UPDATE_TIMEOUT {
                    *self = ChainState::Broken(UPDATE_MISSED);
                }
            },
            _ => {},
        }
    }

    /// The temperature that the state stands for: a broken board has none
    /// that can be trusted, whatever it sent before.
    pub open spec fn spec_get_temperature(&self) -> ChainTemperature {
        match *self {
            ChainState::On(_) => ChainTemperature::Unknown,
            ChainState::Off => ChainTemperature::Unknown,
            ChainState::Broken(_) => ChainTemperature::Failed,
            ChainState::Running { temperature, .. } => ChainTemperature::from_s9_sensor(
                temperature,
            ),
        }
    }

    /// The temperature that the state stands for.
    #[verifier::when_used_as_spec(spec_get_temperature)]
    pub fn get_temperature(&self) -> (temp: ChainTemperature)
        ensures
            temp == self.spec_get_temperature(),
    {
        match self {
            ChainState::On(_) => ChainTemperature::Unknown,
            ChainState::Off => ChainTemperature::Unknown,
            ChainState::Broken(_) => ChainTemperature::Failed,
            ChainState::Running { temperature, .. } => ChainTemperature::from_s9_sensor(
                *temperature,
            ),
        }
    }

    /// Whether the board is warming up at `now`: it is until its first
    /// report, and then for [`WARM_UP_PERIOD`] after its start.
    pub open spec fn spec_is_warming_up(&self, now: Instant) -> bool {
        match *self {
            ChainState::On(_) => true,
            ChainState::Running { started, .. } => now.duration_since(started) <= WARM_UP_PERIOD,
            _ => false,
        }
    }

    /// Whether the board is warming up at `now`.
    #[verifier::when_used_as_spec(spec_is_warming_up)]
    pub fn is_warming_up(&self, now: Instant) -> (warming: bool)
        ensures
            warming == self.spec_is_warming_up(now),
    {
        match self {
            ChainState::On(_) => true,
            ChainState::Running { started, .. } => now.duration_since(*started) <= WARM_UP_PERIOD,
            _ => false,
        }
    }
}

/// A hash board registered with the monitor.
#[derive(Clone, Copy, Debug)]
pub struct Chain {
    pub state: ChainState,
    pub hashboard_idx: usize,
}

impl Chain {
    /// A board that is off.
    pub fn new(hashboard_idx: usize) -> (chain: Self)
        ensures
            chain == (Chain { state: ChainState::Off, hashboard_idx }),
    {
        Chain { state: ChainState::Off, hashboard_idx }
    }
}

/// How the fans are driven.
#[derive(Clone, Copy, Debug)]
pub enum FanControlMode {
    /// At a speed that the user chose
    FixedSpeed(Speed),
    /// By a controller that holds the chips at this temperature
    TargetTemperature(Celsius),
}

/// Fan configuration.
#[derive(Clone, Copy, Debug)]
pub struct FanControlConfig {
    pub mode: FanControlMode,
    /// The miner refuses to work with fewer fans turning
    pub min_fans: usize,
}

/// Temperature limits.
#[derive(Clone, Copy, Debug)]
pub struct TempControlConfig {
    /// At this temperature the miner shuts down
    pub dangerous_temp: Celsius,
    /// At this temperature the fans go to full speed
    pub hot_temp: Celsius,
}

/// Configuration of the monitor. `None` switches a part off.
#[derive(Clone, Copy, Debug)]
pub struct Config {
    pub fan_config: Option<FanControlConfig>,
    pub temp_config: Option<TempControlConfig>,
    /// Keep the fans above a minimum while a board warms up
    pub fans_on_while_warming_up: bool,
}

/// What the monitor decided to do.
#[derive(Clone, Copy, Debug, PartialEq, Eq, Structural)]
pub enum ControlDecision {
    /// Stop the miner
    Shutdown,
    /// Let the temperature controller set the fans
    UsePid { target_temp: Celsius, input_temp: Celsius },
    /// Set the fans to this speed
    UseFixedSpeed(Speed),
    /// Leave the fans alone (fan control is off)
    Nothing,
}

/// A decision with the reason for it in words.
#[derive(Debug)]
pub struct ControlDecisionExplained {
    pub decision: ControlDecision,
    pub reason: String,
}

impl Clone for ControlDecisionExplained {
    fn clone(&self) -> (copy: Self)
        ensures
            copy.decision == self.decision,
            copy.reason@ == self.reason@,
    {
        ControlDecisionExplained { decision: self.decision, reason: self.reason.clone() }
    }
}

impl ControlDecision {
    /// The fan action when fan control and temperature control are both on.
    pub open spec fn fan_control_decision(
        fan_config: FanControlConfig,
        temp_config: TempControlConfig,
        temp: ChainTemperature,
    ) -> ControlDecision {
        if temp is Unknown {
            ControlDecision::UseFixedSpeed(Speed::full_speed())
        } else {
            match fan_config.mode {
                FanControlMode::FixedSpeed(pwm) => ControlDecision::UseFixedSpeed(pwm),
                FanControlMode::TargetTemperature(target_temp) => match temp {
                    ChainTemperature::Measured(input_temp) => if input_temp.raw
                        >= temp_config.hot_temp.raw {
                        ControlDecision::UseFixedSpeed(Speed::full_speed())
                    } else {
                        ControlDecision::UsePid { target_temp, input_temp }
                    },
                    _ => ControlDecision::Shutdown,
                },
            }
        }
    }

    /// The reason given with [`Self::fan_control_decision`].
    pub open spec fn fan_control_reason(
        fan_config: FanControlConfig,
        temp_config: TempControlConfig,
        temp: ChainTemperature,
    ) -> Seq<char> {
        if temp is Unknown {
            "Fans full speed: unknown temperature"@
        } else {
            match fan_config.mode {
                FanControlMode::FixedSpeed(pwm) => "User defined fan "@ + pwm.text(),
                FanControlMode::TargetTemperature(target_temp) => match temp {
                    ChainTemperature::Measured(input_temp) => if input_temp.raw
                        >= temp_config.hot_temp.raw {
                        "Fans full speed: temperature "@ + temp.text() + " above HOT"@
                    } else {
                        "Automatic fan control: input "@ + temp.text() + " target "@
                            + target_temp.text()
                    },
                    _ => "Shutdown: temperature readout FAILED"@,
                },
            }
        }
    }

    /// Chooses the fan action when fan control and temperature control are
    /// both on. A failed temperature has to be dealt with before: with a
    /// target temperature there is no fan action for it.
    pub fn decide_fan_control(
        fan_config: &FanControlConfig,
        temp_config: &TempControlConfig,
        temp: ChainTemperature,
    ) -> (explained: ControlDecisionExplained)
        requires
            !(temp is Failed && fan_config.mode is TargetTemperature),
        ensures
            explained.decision == Self::fan_control_decision(*fan_config, *temp_config, temp),
            explained.reason@ == Self::fan_control_reason(*fan_config, *temp_config, temp),
    {
        match temp {
            ChainTemperature::Unknown => {
                return ControlDecisionExplained {
                    decision: ControlDecision::UseFixedSpeed(Speed::full_speed()),
                    reason: String::from_str("Fans full speed: unknown temperature"),
                };
            },
            _ => {},
        }
        match fan_config.mode {
            FanControlMode::FixedSpeed(pwm) => {
                let mut reason = String::from_str("User defined fan ");
                reason.append(pwm.to_string().as_str());
                ControlDecisionExplained { decision: ControlDecision::UseFixedSpeed(pwm), reason }
            },
            FanControlMode::TargetTemperature(target_temp) => match temp {
                ChainTemperature::Measured(input_temp) => {
                    if input_temp.at_least(temp_config.hot_temp) {
                        let mut reason = String::from_str("Fans full speed: temperature ");
                        temp.push_to(&mut reason);
                        reason.append(" above HOT");
                        ControlDecisionExplained {
                            decision: ControlDecision::UseFixedSpeed(Speed::full_speed()),
                            reason,
                        }
                    } else {
                        let mut reason = String::from_str("Automatic fan control: input ");
                        temp.push_to(&mut reason);
                        reason.append(" target ");
                        target_temp.push_to(&mut reason);
                        ControlDecisionExplained {
                            decision: ControlDecision::UsePid { target_temp, input_temp },
                            reason,
                        }
                    }
                },
                _ => {
                    proof {
                        assert(false);
                    }
                    ControlDecisionExplained {
                        decision: ControlDecision::Shutdown,
                        reason: String::from_str("Shutdown: temperature readout FAILED"),
                    }
                },
            },
        }
    }

    /// The fan action when fan control is on and temperature control is off.
    pub open spec fn fan_control_notemp_decision(fan_config: FanControlConfig) -> ControlDecision {
        match fan_config.mode {
            FanControlMode::FixedSpeed(pwm) => ControlDecision::UseFixedSpeed(pwm),
            FanControlMode::TargetTemperature(_) => ControlDecision::UseFixedSpeed(
                Speed::full_speed(),
            ),
        }
    }

    /// The reason given with [`Self::fan_control_notemp_decision`].
    pub open spec fn fan_control_notemp_reason(fan_config: FanControlConfig) -> Seq<char> {
        match fan_config.mode {
            FanControlMode::FixedSpeed(pwm) => "Fans to "@ + pwm.text() + " (user defined)"@,
            FanControlMode::TargetTemperature(_) => "wrong configuration - temp control off"@,
        }
    }

    /// Chooses the fan action when fan control is on and temperature control
    /// is off. A target temperature cannot be held then; the fans go to full
    /// speed instead.
    pub fn decide_fan_control_notemp(fan_config: &FanControlConfig) -> (explained:
        ControlDecisionExplained)
        ensures
            explained.decision == Self::fan_control_notemp_decision(*fan_config),
            explained.reason@ == Self::fan_control_notemp_reason(*fan_config),
    {
        match fan_config.mode {
            FanControlMode::FixedSpeed(pwm) => {
                let mut reason = String::from_str("Fans to ");
                reason.append(pwm.to_string().as_str());
                reason.append(" (user defined)");
                ControlDecisionExplained { decision: ControlDecision::UseFixedSpeed(pwm), reason }
            },
            FanControlMode::TargetTemperature(_) => ControlDecisionExplained {
                decision: ControlDecision::UseFixedSpeed(Speed::full_speed()),
                reason: String::from_str("wrong configuration - temp control off"),
            },
        }
    }

    /// Whether the temperature alone calls for a shutdown: temperature
    /// control is on and the temperature failed or reached the dangerous one.
    pub open spec fn temperature_danger(config: Config, temp: ChainTemperature) -> bool {
        match config.temp_config {
            Some(temp_config) => match temp {
                ChainTemperature::Failed => true,
                ChainTemperature::Measured(input_temp) => input_temp.raw
                    >= temp_config.dangerous_temp.raw,
                ChainTemperature::Unknown => false,
            },
            None => false,
        }
    }

    /// The fan action chosen before the fans are counted. Only meant for a
    /// temperature that is no danger.
    pub open spec fn fan_decision(
        fan_config: FanControlConfig,
        temp_config: Option<TempControlConfig>,
        temp: ChainTemperature,
    ) -> ControlDecision {
        match temp_config {
            Some(temp_config) => Self::fan_control_decision(fan_config, temp_config, temp),
            None => Self::fan_control_notemp_decision(fan_config),
        }
    }

    /// The reason given with [`Self::fan_decision`].
    pub open spec fn fan_reason(
        fan_config: FanControlConfig,
        temp_config: Option<TempControlConfig>,
        temp: ChainTemperature,
    ) -> Seq<char> {
        match temp_config {
            Some(temp_config) => Self::fan_control_reason(fan_config, temp_config, temp),
            None => Self::fan_control_notemp_reason(fan_config),
        }
    }

    /// Whether too few fans turn for `chosen`: fewer than `min_fans`, unless
    /// the fans were told to stop.
    pub open spec fn fans_missing(
        chosen: ControlDecision,
        num_fans_running: nat,
        fan_config: FanControlConfig,
    ) -> bool {
        chosen != ControlDecision::UseFixedSpeed(Speed::stopped()) && num_fans_running
            < fan_config.min_fans
    }

    /// What [`Self::decide`] decides.
    ///
    /// Danger from the temperature comes first and stops the miner. With fan
    /// control off nothing else is done. Otherwise a fan action is chosen, and
    /// the miner is stopped after all if too few fans turn for it.
    pub open spec fn decision_for(
        config: Config,
        num_fans_running: nat,
        temp: ChainTemperature,
    ) -> ControlDecision {
        if Self::temperature_danger(config, temp) {
            ControlDecision::Shutdown
        } else {
            match config.fan_config {
                Some(fan_config) => {
                    let chosen = Self::fan_decision(fan_config, config.temp_config, temp);
                    if Self::fans_missing(chosen, num_fans_running, fan_config) {
                        ControlDecision::Shutdown
                    } else {
                        chosen
                    }
                },
                None => ControlDecision::Nothing,
            }
        }
    }

    /// The reason that [`Self::decide`] gives.
    pub open spec fn reason_for(
        config: Config,
        num_fans_running: nat,
        temp: ChainTemperature,
    ) -> Seq<char> {
        if Self::temperature_danger(config, temp) {
            if temp is Failed {
                "Shutdown: temperature readout FAILED"@
            } else {
                "Shutdown: temperature "@ + temp.text() + " above DANGEROUS"@
            }
        } else {
            match config.fan_config {
                Some(fan_config) => {
                    let chosen = Self::fan_decision(fan_config, config.temp_config, temp);
                    if Self::fans_missing(chosen, num_fans_running, fan_config) {
                        "Shutdown: not enough fans ("@ + decimal(num_fans_running) + " < "@
                            + decimal(fan_config.min_fans as nat) + ")"@
                    } else {
                        Self::fan_reason(fan_config, config.temp_config, temp)
                    }
                },
                None => "control disabled"@,
            }
        }
    }

    /// Decides what to do from the configuration, the number of fans that
    /// turn and the temperature of the miner.
    pub fn decide(config: &Config, num_fans_running: usize, temp: ChainTemperature) -> (explained:
        ControlDecisionExplained)
        ensures
            explained.decision == Self::decision_for(*config, num_fans_running as nat, temp),
            explained.reason@ == Self::reason_for(*config, num_fans_running as nat, temp),
    {
        match config.temp_config {
            Some(temp_config) => match temp {
                ChainTemperature::Failed => {
                    return ControlDecisionExplained {
                        decision: ControlDecision::Shutdown,
                        reason: String::from_str("Shutdown: temperature readout FAILED"),
                    };
                },
                ChainTemperature::Measured(input_temp) => {
                    if input_temp.at_least(temp_config.dangerous_temp) {
                        let mut reason = String::from_str("Shutdown: temperature ");
                        temp.push_to(&mut reason);
                        reason.append(" above DANGEROUS");
                        return ControlDecisionExplained {
                            decision: ControlDecision::Shutdown,
                            reason,
                        };
                    }
                },
                ChainTemperature::Unknown => {},
            },
            None => {},
        }
        match config.fan_config {
            Some(fan_config) => {
                let explained = match config.temp_config {
                    Some(temp_config) => Self::decide_fan_control(&fan_config, &temp_config, temp),
                    None => Self::decide_fan_control_notemp(&fan_config),
                };
                let stopped = match explained.decision {
                    ControlDecision::UseFixedSpeed(speed) => speed.to_pwm() == 0,
                    _ => false,
                };
                if !stopped && num_fans_running < fan_config.min_fans {
                    let mut reason = String::from_str("Shutdown: not enough fans (");
                    push_decimal(&mut reason, num_fans_running as u64);
                    reason.append(" < ");
                    push_decimal(&mut reason, fan_config.min_fans as u64);
                    reason.append(")");
                    return ControlDecisionExplained { decision: ControlDecision::Shutdown, reason };
                }
                explained
            },
            None => ControlDecisionExplained {
                decision: ControlDecision::Nothing,
                reason: String::from_str("control disabled"),
            },
        }
    }
}

/// The temperature of two boards taken together: a failure outranks a
/// measurement, and of two measurements the higher one counts.
pub open spec fn combine_temperatures(a: ChainTemperature, b: ChainTemperature) -> ChainTemperature {
    match (a, b) {
        (ChainTemperature::Failed, _) => ChainTemperature::Failed,
        (_, ChainTemperature::Failed) => ChainTemperature::Failed,
        (ChainTemperature::Measured(x), ChainTemperature::Measured(y)) => ChainTemperature::Measured(
            x.max(y),
        ),
        (ChainTemperature::Measured(x), ChainTemperature::Unknown) => a,
        (ChainTemperature::Unknown, _) => b,
    }
}

/// The temperature of all boards taken together.
pub open spec fn aggregate_temperatures(temps: Seq<ChainTemperature>) -> ChainTemperature
    decreases temps.len(),
{
    if temps.len() == 0 {
        ChainTemperature::Unknown
    } else {
        combine_temperatures(aggregate_temperatures(temps.drop_last()), temps.last())
    }
}

/// Collects the temperatures of the boards and folds them into one.
#[derive(Debug)]
pub struct TemperatureAccumulator {
    pub chain_temperatures: Vec<ChainTemperature>,
}

impl TemperatureAccumulator {
    /// An accumulator without temperatures.
    pub fn new() -> (acc: Self)
        ensures
            acc.chain_temperatures@ == Seq::<ChainTemperature>::empty(),
    {
        TemperatureAccumulator { chain_temperatures: Vec::new() }
    }

    /// Adds the temperature of one board.
    pub fn add_chain_temp(&mut self, chain_temp: ChainTemperature)
        ensures
            final(self).chain_temperatures@ == old(self).chain_temperatures@.push(chain_temp),
    {
        self.chain_temperatures.push(chain_temp);
    }

    /// The temperature of all boards taken together: failed if any board
    /// failed, else the highest measurement, else unknown.
    pub fn calc_result(&self) -> (result: ChainTemperature)
        ensures
            result == aggregate_temperatures(self.chain_temperatures@),
    {
        let mut result = ChainTemperature::Unknown;
        let mut i: usize = 0;
        while i < self.chain_temperatures.len()
            invariant
                i <= self.chain_temperatures.len(),
                result == aggregate_temperatures(self.chain_temperatures@.subrange(0, i as int)),
            decreases self.chain_temperatures.len() - i,
        {
            assert(self.chain_temperatures@.subrange(0, i + 1).drop_last()
                =~= self.chain_temperatures@.subrange(0, i as int));
            let temp = self.chain_temperatures[i];
            result = match (result, temp) {
                (ChainTemperature::Failed, _) => ChainTemperature::Failed,
                (_, ChainTemperature::Failed) => ChainTemperature::Failed,
                (ChainTemperature::Measured(x), ChainTemperature::Measured(y)) => {
                    ChainTemperature::Measured(x.max(y))
                },
                (ChainTemperature::Measured(_), ChainTemperature::Unknown) => result,
                (ChainTemperature::Unknown, _) => temp,
            };
            i += 1;
        }
        assert(self.chain_temperatures@.subrange(0, i as int) =~= self.chain_temperatures@);
        result
    }
}

impl Clone for TemperatureAccumulator {
    fn clone(&self) -> (copy: Self)
        ensures
            copy.chain_temperatures@ == self.chain_temperatures@,
    {
        let mut chain_temperatures: Vec<ChainTemperature> = Vec::new();
        let mut i: usize = 0;
        while i < self.chain_temperatures.len()
            invariant
                i <= self.chain_temperatures.len(),
                chain_temperatures@ == self.chain_temperatures@.subrange(0, i as int),
            decreases self.chain_temperatures.len() - i,
        {
            chain_temperatures.push(self.chain_temperatures[i]);
            assert(chain_temperatures@ =~= self.chain_temperatures@.subrange(0, i + 1));
            i += 1;
        }
        assert(chain_temperatures@ =~= self.chain_temperatures@);
        TemperatureAccumulator { chain_temperatures }
    }
}

/// What the monitor publishes after a tick.
#[derive(Debug)]
pub struct Status {
    pub config: Config,
    pub fan_feedback: Feedback,
    /// The speed that the fans were last set to
    pub fan_speed: Option<Speed>,
    /// The temperature of the miner that the decision was made on
    pub input_temperature: ChainTemperature,
    /// The temperature of each board
    pub temperature_accumulator: TemperatureAccumulator,
    pub decision_explained: ControlDecisionExplained,
}

impl Clone for Status {
    fn clone(&self) -> (copy: Self)
        ensures
            copy.config == self.config,
            copy.fan_feedback.rpm@ == self.fan_feedback.rpm@,
            copy.fan_speed == self.fan_speed,
            copy.input_temperature == self.input_temperature,
            copy.temperature_accumulator.chain_temperatures@
                == self.temperature_accumulator.chain_temperatures@,
            copy.decision_explained.decision == self.decision_explained.decision,
            copy.decision_explained.reason@ == self.decision_explained.reason@,
    {
        Status {
            config: self.config,
            fan_feedback: self.fan_feedback.clone(),
            fan_speed: self.fan_speed,
            input_temperature: self.input_temperature,
            temperature_accumulator: self.temperature_accumulator.clone(),
            decision_explained: self.decision_explained.clone(),
        }
    }
}

/// What the caller has to do after a tick.
#[derive(Debug)]
pub enum TickOutcome {
    /// Stop the whole miner, for this reason. Nothing is published.
    Shutdown { reason: String },
    /// Set the fans to `fan_speed`, if there is one, and publish `status`.
    Publish { fan_speed: Option<Speed>, status: Status },
    /// Give the temperature controller its limits (those for warming up, or
    /// the normal ones), its target and its input, set the fans to what it
    /// answers, and report that speed with [`MonitorInner::finish_pid`].
    RunPid { warm_up_limits: bool, target_temp: Celsius, input_temp: Celsius, status: Status },
}

/// Whether a tick at `now` gets as far as board `i`: no board before it is
/// found broken.
pub open spec fn tick_reaches(chains: Seq<Chain>, now: Instant, i: int) -> bool {
    forall|j: int| 0 <= j < i ==> !(#[trigger] chains[j].state.after_tick(now) is Broken)
}

/// Whether a tick at `now` finds a broken board.
pub open spec fn some_chain_breaks(chains: Seq<Chain>, now: Instant) -> bool {
    exists|i: int| 0 <= i < chains.len() && #[trigger] chains[i].state.after_tick(now) is Broken
}

/// The boards after a tick at `now`: every board that the tick reaches has
/// had its timeouts checked.
pub open spec fn chains_after_tick(chains: Seq<Chain>, now: Instant) -> Seq<Chain> {
    Seq::new(
        chains.len(),
        |i: int|
            if tick_reaches(chains, now, i) {
                Chain {
                    state: chains[i].state.after_tick(now),
                    hashboard_idx: chains[i].hashboard_idx,
                }
            } else {
                chains[i]
            },
    )
}

/// The temperature of each board.
pub open spec fn chain_temperatures(chains: Seq<Chain>) -> Seq<ChainTemperature> {
    Seq::new(chains.len(), |i: int| chains[i].state.get_temperature())
}

/// Whether any board is warming up at `now`.
pub open spec fn any_warming_up(chains: Seq<Chain>, now: Instant) -> bool {
    exists|i: int| 0 <= i < chains.len() && #[trigger] chains[i].state.is_warming_up(now)
}

/// The reason for stopping the miner over a broken board.
pub open spec fn broken_chain_text(hashboard_idx: usize, why: Seq<char>) -> Seq<char> {
    "Chain "@ + decimal(hashboard_idx as nat) + " is broken: "@ + why
}

/// State of the monitor: the boards, the configuration, and what it last
/// did to the fans.
#[derive(Debug)]
pub struct MonitorInner {
    /// The registered boards, in the order of their registration
    pub chains: Vec<Chain>,
    pub config: Config,
    /// The speed that the fans were last set to
    pub current_fan_speed: Option<Speed>,
    /// The miner was stopped for a failure: a temperature out of bounds, a
    /// broken board, or missing fans
    pub failure_state: bool,
}

impl MonitorInner {
    /// A monitor without boards.
    pub fn new(config: Config) -> (inner: Self)
        ensures
            inner.chains@ == Seq::<Chain>::empty(),
            inner.config == config,
            inner.current_fan_speed is None,
            !inner.failure_state,
    {
        MonitorInner { chains: Vec::new(), config, current_fan_speed: None, failure_state: false }
    }

    /// Registers a board, which starts off, and returns the handle under
    /// which its messages are delivered.
    pub fn register_hashchain(&mut self, hashboard_idx: usize) -> (handle: usize)
        ensures
            handle == old(self).chains@.len(),
            final(self).chains@ == old(self).chains@.push(
                Chain { state: ChainState::Off, hashboard_idx },
            ),
            final(self).config == old(self).config,
            final(self).current_fan_speed == old(self).current_fan_speed,
            final(self).failure_state == old(self).failure_state,
    {
        let handle = self.chains.len();
        self.chains.push(Chain::new(hashboard_idx));
        handle
    }

    /// Delivers `message`, received at `now`, to the board behind `handle`.
    /// Returns whether there is such a board; nothing changes if not.
    pub fn handle_message(&mut self, handle: usize, now: Instant, message: Message) -> (known: bool)
        ensures
            known == (handle < old(self).chains@.len()),
            known ==> final(self).chains@ == old(self).chains@.update(
                handle as int,
                Chain {
                    state: old(self).chains@[handle as int].state.after_message(now, message),
                    hashboard_idx: old(self).chains@[handle as int].hashboard_idx,
                },
            ),
            !known ==> final(self).chains@ == old(self).chains@,
            final(self).config == old(self).config,
            final(self).current_fan_speed == old(self).current_fan_speed,
            final(self).failure_state == old(self).failure_state,
    {
        if handle < self.chains.len() {
            let mut chain = self.chains[handle];
            chain.state.transition(now, message);
            self.chains[handle] = chain;
            true
        } else {
            false
        }
    }

    /// Replaces the configuration.
    pub fn set_config(&mut self, config: Config)
        ensures
            final(self).config == config,
            final(self).chains@ == old(self).chains@,
            final(self).current_fan_speed == old(self).current_fan_speed,
            final(self).failure_state == old(self).failure_state,
    {
        self.config = config;
    }

    /// Notes that the fans were set to `fan_speed`.
    pub fn set_fan_speed(&mut self, fan_speed: Speed)
        ensures
            final(self).current_fan_speed == Some(fan_speed),
            final(self).chains@ == old(self).chains@,
            final(self).config == old(self).config,
            final(self).failure_state == old(self).failure_state,
    {
        self.current_fan_speed = Some(fan_speed);
    }

    /// Notes that the miner is stopped for a failure.
    pub fn shutdown(&mut self)
        ensures
            final(self).failure_state,
            final(self).chains@ == old(self).chains@,
            final(self).config == old(self).config,
            final(self).current_fan_speed == old(self).current_fan_speed,
    {
        self.failure_state = true;
    }

    /// The speed to leave the fans at when the monitor ends: full after a
    /// failure, stopped otherwise. The speed is noted as set.
    pub fn termination_handler(&mut self) -> (fan_speed: Speed)
        ensures
            fan_speed == if old(self).failure_state {
                Speed::full_speed()
            } else {
                Speed::stopped()
            },
            final(self).current_fan_speed == Some(fan_speed),
            final(self).chains@ == old(self).chains@,
            final(self).config == old(self).config,
            final(self).failure_state == old(self).failure_state,
    {
        let fan_speed = if self.failure_state {
            Speed::full_speed()
        } else {
            Speed::stopped()
        };
        self.set_fan_speed(fan_speed);
        fan_speed
    }

    /// Whether `status` reports a decision made by this monitor on `rpm`
    /// and on the boards as they are.
    pub open spec fn reports(&self, status: Status, rpm: Seq<usize>) -> bool {
        let temps = chain_temperatures(self.chains@);
        let input = aggregate_temperatures(temps);
        let running = count_running(rpm);
        &&& status.config == self.config
        &&& status.fan_feedback.rpm@ == rpm
        &&& status.fan_speed == self.current_fan_speed
        &&& status.input_temperature == input
        &&& status.temperature_accumulator.chain_temperatures@ == temps
        &&& status.decision_explained.decision == ControlDecision::decision_for(
            self.config,
            running,
            input,
        )
        &&& status.decision_explained.reason@ == ControlDecision::reason_for(
            self.config,
            running,
            input,
        )
    }

    /// One tick of the monitor at `now`, with the fan feedback read for it.
    ///
    /// The boards are checked for timeouts in order. The first broken board
    /// stops the miner, and the boards after it are left as they are.
    /// Otherwise the temperatures are folded, the decision is made, and the
    /// outcome says what to do with the fans and what to publish.
    pub fn do_tick(&mut self, now: Instant, fan_feedback: Feedback) -> (outcome: TickOutcome)
        ensures
            final(self).config == old(self).config,
            final(self).chains@ == chains_after_tick(old(self).chains@, now),
            some_chain_breaks(old(self).chains@, now) ==> {
                &&& outcome is Shutdown
                &&& final(self).failure_state
                &&& final(self).current_fan_speed == old(self).current_fan_speed
                &&& forall|i: int, why: &'static str|
                    0 <= i < old(self).chains@.len() && tick_reaches(old(self).chains@, now, i)
                        && old(self).chains@[i].state.after_tick(now) == ChainState::Broken(why)
                        ==> outcome->Shutdown_reason@ == broken_chain_text(
                        old(self).chains@[i].hashboard_idx,
                        why@,
                    )
            },
            !some_chain_breaks(old(self).chains@, now) ==> {
                let input = aggregate_temperatures(chain_temperatures(final(self).chains@));
                let running = count_running(fan_feedback.rpm@);
                match ControlDecision::decision_for(old(self).config, running, input) {
                    ControlDecision::Shutdown => {
                        &&& outcome is Shutdown
                        &&& outcome->Shutdown_reason@ == ControlDecision::reason_for(
                            old(self).config,
                            running,
                            input,
                        )
                        &&& final(self).failure_state
                        &&& final(self).current_fan_speed == old(self).current_fan_speed
                    },
                    ControlDecision::UseFixedSpeed(fan_speed) => {
                        &&& outcome is Publish
                        &&& outcome->Publish_fan_speed == Some(fan_speed)
                        &&& final(self).reports(outcome->Publish_status, fan_feedback.rpm@)
                        &&& final(self).failure_state == old(self).failure_state
                        &&& final(self).current_fan_speed == Some(fan_speed)
                    },
                    ControlDecision::Nothing => {
                        &&& outcome is Publish
                        &&& outcome->Publish_fan_speed is None
                        &&& final(self).reports(outcome->Publish_status, fan_feedback.rpm@)
                        &&& final(self).failure_state == old(self).failure_state
                        &&& final(self).current_fan_speed == old(self).current_fan_speed
                    },
                    ControlDecision::UsePid { target_temp, input_temp } => {
                        &&& outcome is RunPid
                        &&& outcome->warm_up_limits == (old(self).config.fans_on_while_warming_up
                            && any_warming_up(final(self).chains@, now))
                        &&& outcome->target_temp == target_temp
                        &&& outcome->input_temp == input_temp
                        &&& final(self).reports(outcome->RunPid_status, fan_feedback.rpm@)
                        &&& final(self).failure_state == old(self).failure_state
                        &&& final(self).current_fan_speed == old(self).current_fan_speed
                    },
                }
            },
    {
        let mut temperature_accumulator = TemperatureAccumulator::new();
        let mut miner_warming_up = false;
        let mut i: usize = 0;
        while i < self.chains.len()
            invariant
                i <= self.chains.len(),
                self.chains@.len() == old(self).chains@.len(),
                self.config == old(self).config,
                self.failure_state == old(self).failure_state,
                self.current_fan_speed == old(self).current_fan_speed,
                tick_reaches(old(self).chains@, now, i as int),
                forall|j: int|
                    0 <= j < i ==> (#[trigger] self.chains@[j]) == (Chain {
                        state: old(self).chains@[j].state.after_tick(now),
                        hashboard_idx: old(self).chains@[j].hashboard_idx,
                    }),
                forall|j: int|
                    i <= j < self.chains@.len() ==> (#[trigger] self.chains@[j]) == old(
                        self,
                    ).chains@[j],
                temperature_accumulator.chain_temperatures@ == Seq::new(
                    i as nat,
                    |j: int| self.chains@[j].state.get_temperature(),
                ),
                miner_warming_up == (exists|j: int|
                    0 <= j < i && #[trigger] self.chains@[j].state.is_warming_up(now)),
            decreases self.chains.len() - i,
        {
            let mut chain = self.chains[i];
            chain.state.tick(now);
            let ghost before = self.chains@;
            self.chains[i] = chain;
            if let ChainState::Broken(why) = chain.state {
                let mut reason = String::from_str("Chain ");
                push_decimal(&mut reason, chain.hashboard_idx as u64);
                reason.append(" is broken: ");
                reason.append(why);
                self.shutdown();
                proof {
                    let chains = old(self).chains@;
                    assert(chains[i as int].state.after_tick(now) is Broken);
                    assert(reason@ =~= broken_chain_text(chain.hashboard_idx, why@));
                    assert forall|k: int| 0 <= k < chains.len() implies (#[trigger] self.chains@[k])
                        == chains_after_tick(chains, now)[k] by {
                        if k > i {
                            assert(!tick_reaches(chains, now, k));
                        } else if k < i {
                            assert(self.chains@[k] == before[k]);
                        }
                    }
                    assert(self.chains@ =~= chains_after_tick(chains, now));
                    assert forall|k: int, other: &'static str|
                        0 <= k < chains.len() && tick_reaches(chains, now, k)
                            && chains[k].state.after_tick(now) == ChainState::Broken(
                            other,
                        ) implies reason@ == broken_chain_text(chains[k].hashboard_idx, other@) by {
                        if k > i {
                            assert(!tick_reaches(chains, now, k));
                        }
                    }
                }
                return TickOutcome::Shutdown { reason };
            }
            temperature_accumulator.add_chain_temp(chain.state.get_temperature());
            let warming = chain.state.is_warming_up(now);
            proof {
                assert(temperature_accumulator.chain_temperatures@ =~= Seq::new(
                    (i + 1) as nat,
                    |j: int| self.chains@[j].state.get_temperature(),
                ));
                let found = miner_warming_up || warming;
                if miner_warming_up {
                    let j = choose|j: int|
                        0 <= j < i && #[trigger] before[j].state.is_warming_up(now);
                    assert(self.chains@[j].state.is_warming_up(now));
                }
                if warming {
                    assert(self.chains@[i as int].state.is_warming_up(now));
                }
                if exists|j: int|
                    0 <= j < i + 1 && #[trigger] self.chains@[j].state.is_warming_up(now) {
                    let j = choose|j: int|
                        0 <= j < i + 1 && #[trigger] self.chains@[j].state.is_warming_up(now);
                    if j < i {
                        assert(before[j].state.is_warming_up(now));
                    }
                }
            }
            miner_warming_up = miner_warming_up || warming;
            i += 1;
        }
        proof {
            let chains = old(self).chains@;
            assert(!some_chain_breaks(chains, now));
            assert forall|k: int| 0 <= k < chains.len() implies (#[trigger] self.chains@[k])
                == chains_after_tick(chains, now)[k] by {
                assert(tick_reaches(chains, now, k));
            }
            assert(self.chains@ =~= chains_after_tick(chains, now));
            assert(temperature_accumulator.chain_temperatures@ =~= chain_temperatures(
                self.chains@,
            ));
            assert(miner_warming_up == any_warming_up(self.chains@, now));
        }
        let input_temperature = temperature_accumulator.calc_result();
        let num_fans_running = fan_feedback.num_fans_running();
        let decision_explained = ControlDecision::decide(
            &self.config,
            num_fans_running,
            input_temperature,
        );
        match decision_explained.decision {
            ControlDecision::Shutdown => {
                self.shutdown();
                TickOutcome::Shutdown { reason: decision_explained.reason }
            },
            ControlDecision::UseFixedSpeed(fan_speed) => {
                self.set_fan_speed(fan_speed);
                TickOutcome::Publish {
                    fan_speed: Some(fan_speed),
                    status: Status {
                        config: self.config,
                        fan_feedback,
                        fan_speed: self.current_fan_speed,
                        input_temperature,
                        temperature_accumulator,
                        decision_explained,
                    },
                }
            },
            ControlDecision::UsePid { target_temp, input_temp } => TickOutcome::RunPid {
                warm_up_limits: self.config.fans_on_while_warming_up && miner_warming_up,
                target_temp,
                input_temp,
                status: Status {
                    config: self.config,
                    fan_feedback,
                    fan_speed: self.current_fan_speed,
                    input_temperature,
                    temperature_accumulator,
                    decision_explained,
                },
            },
            ControlDecision::Nothing => TickOutcome::Publish {
                fan_speed: None,
                status: Status {
                    config: self.config,
                    fan_feedback,
                    fan_speed: self.current_fan_speed,
                    input_temperature,
                    temperature_accumulator,
                    decision_explained,
                },
            },
        }
    }

    /// Notes the speed that the temperature controller chose and completes
    /// the status of that tick with it.
    pub fn finish_pid(&mut self, status: Status, fan_speed: Speed) -> (published: Status)
        ensures
            final(self).current_fan_speed == Some(fan_speed),
            final(self).chains@ == old(self).chains@,
            final(self).config == old(self).config,
            final(self).failure_state == old(self).failure_state,
            published.fan_speed == Some(fan_speed),
            published.config == status.config,
            published.fan_feedback == status.fan_feedback,
            published.input_temperature == status.input_temperature,
            published.temperature_accumulator == status.temperature_accumulator,
            published.decision_explained == status.decision_explained,
    {
        self.set_fan_speed(fan_speed);
        Status {
            config: status.config,
            fan_feedback: status.fan_feedback,
            fan_speed: Some(fan_speed),
            input_temperature: status.input_temperature,
            temperature_accumulator: status.temperature_accumulator,
            decision_explained: status.decision_explained,
        }
    }
}

/// A broken board stays broken, whatever it sends and however long it waits.
pub proof fn lemma_broken_is_terminal(state: ChainState, now: Instant, message: Message)
    requires
        state is Broken,
    ensures
        state.after_message(now, message) is Broken,
        state.after_tick(now) == state,
{
}

/// A message out of order breaks the board: `On` to a board that is not
/// off, and `Running` or `Off` to a board that is off.
pub proof fn lemma_message_out_of_order(state: ChainState, now: Instant, message: Message)
    ensures
        message is On && !(state is Off) ==> state.after_message(now, message)
            == ChainState::Broken(BAD_TRANSITION),
        !(message is On) && (state is Off || state is Broken) ==> state.after_message(now, message)
            == ChainState::Broken(BAD_TRANSITION),
        message is On && state is Off ==> state.after_message(now, message) == ChainState::On(now),
        message is Off && (state is On || state is Running) ==> state.after_message(now, message)
            == ChainState::Off,
        message is Running && (state is On || state is Running) ==> state.after_message(
            now,
            message,
        ) is Running,
{
}

/// A tick breaks a board exactly when it is overdue: starting for at least
/// [`START_TIMEOUT`], or running without an update for at least
/// [`RUN_UPDATE_TIMEOUT`].
pub proof fn lemma_tick_breaks_overdue(state: ChainState, now: Instant)
    requires
        !(state is Broken),
    ensures
        state.after_tick(now) is Broken <==> (state matches ChainState::On(started)
            && now.duration_since(started) >= START_TIMEOUT) || (state matches ChainState::Running {
            last_heartbeat,
            ..
        } && now.duration_since(last_heartbeat) >= RUN_UPDATE_TIMEOUT),
        !(state.after_tick(now) is Broken) ==> state.after_tick(now) == state,
{
}

/// Whether `temp`, if it is a measurement, is at most `limit`.
pub open spec fn not_above(temp: ChainTemperature, limit: Celsius) -> bool {
    temp matches ChainTemperature::Measured(t) ==> t.raw <= limit.raw
}

/// How the temperatures of the boards fold into one: a failure anywhere is a
/// failure; without one, the highest measurement counts; and without any
/// measurement the temperature is unknown.
pub proof fn lemma_aggregate_temperatures(temps: Seq<ChainTemperature>)
    ensures
        aggregate_temperatures(temps) is Failed <==> exists|i: int|
            0 <= i < temps.len() && temps[i] is Failed,
        aggregate_temperatures(temps) is Unknown <==> forall|i: int|
            0 <= i < temps.len() ==> temps[i] is Unknown,
        aggregate_temperatures(temps) matches ChainTemperature::Measured(highest) ==> (exists|
            i: int,
        |
            0 <= i < temps.len() && temps[i] == ChainTemperature::Measured(highest)) && (forall|
            i: int,
        |
            0 <= i < temps.len() ==> not_above(#[trigger] temps[i], highest)),
    decreases temps.len(),
{
    if temps.len() > 0 {
        let earlier = temps.drop_last();
        lemma_aggregate_temperatures(earlier);
        let folded = aggregate_temperatures(earlier);
        let result = aggregate_temperatures(temps);
        assert forall|i: int| 0 <= i < earlier.len() implies earlier[i] == temps[i] by {}
        if exists|i: int| 0 <= i < earlier.len() && earlier[i] is Failed {
            let i = choose|i: int| 0 <= i < earlier.len() && earlier[i] is Failed;
            assert(temps[i] is Failed);
        }
        if exists|i: int| 0 <= i < temps.len() && temps[i] is Failed {
            let i = choose|i: int| 0 <= i < temps.len() && temps[i] is Failed;
            if i < earlier.len() {
                assert(earlier[i] is Failed);
            }
        }
        if forall|i: int| 0 <= i < temps.len() ==> temps[i] is Unknown {
            assert forall|i: int| 0 <= i < earlier.len() implies earlier[i] is Unknown by {
                assert(temps[i] is Unknown);
            }
        }
        if result is Unknown {
            assert forall|i: int| 0 <= i < temps.len() implies temps[i] is Unknown by {
                if i < earlier.len() {
                    assert(earlier[i] is Unknown);
                }
            }
        }
        if let ChainTemperature::Measured(highest) = result {
            if let ChainTemperature::Measured(before) = folded {
                let i = choose|i: int|
                    0 <= i < earlier.len() && earlier[i] == ChainTemperature::Measured(before);
                assert(temps[i] == ChainTemperature::Measured(before));
            }
            assert(temps[temps.len() - 1] == temps.last());
            assert forall|i: int| 0 <= i < temps.len() implies not_above(
                #[trigger] temps[i],
                highest,
            ) by {
                if i < earlier.len() {
                    assert(earlier[i] == temps[i]);
                    if let ChainTemperature::Measured(before) = folded {
                        assert(not_above(earlier[i], before));
                    }
                }
            }
        }
    }
}

/// The miner is stopped exactly for danger from the temperature or for
/// missing fans.
pub proof fn lemma_shutdown_reasons(config: Config, num_fans_running: nat, temp: ChainTemperature)
    ensures
        ControlDecision::decision_for(config, num_fans_running, temp) is Shutdown <==> (
        ControlDecision::temperature_danger(config, temp) || (config.fan_config matches Some(
            fan_config,
        ) && ControlDecision::fans_missing(
            ControlDecision::fan_decision(fan_config, config.temp_config, temp),
            num_fans_running,
            fan_config,
        ))),
        config.fan_config is None && !ControlDecision::temperature_danger(config, temp)
            ==> ControlDecision::decision_for(config, num_fans_running, temp) is Nothing,
{
}

} // verus!
