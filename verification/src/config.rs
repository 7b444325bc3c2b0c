//! Configuration of the miner as far as the monitor and the chips need it.
//!
//! Every setting may be left out; what is left out takes its default.

use vstd::prelude::*;
use vstd::string::*;
use crate::client::{descriptor_error, same_text, Descriptor, UserInfo};
use crate::fan::{Speed, MAX_PWM};
use crate::monitor::{Config, FanControlConfig, FanControlMode, TempControlConfig};
use crate::sensor::Celsius;
use crate::text::{decimal, push_decimal};

verus! {

/// Hardware model.
pub const HW_MODEL: &'static str = "Antminer S9";

/// Version of the configuration format.
pub const FORMAT_VERSION: &'static str = "1.0";

/// Model that a configuration has to be written for.
pub const FORMAT_MODEL: &'static str = "Antminer S9";

/// Whether a hash chain is enabled unless the configuration says otherwise.
pub const DEFAULT_HASH_CHAIN_ENABLED: bool = true;

/// Whether a pool is enabled unless the configuration says otherwise.
pub const DEFAULT_POOL_ENABLED: bool = true;

/// Number of midstates with AsicBoost.
pub const ASIC_BOOST_MIDSTATE_COUNT: usize = 4;

/// Whether AsicBoost is on unless the configuration says otherwise.
pub const DEFAULT_ASIC_BOOST: bool = true;

/// Target temperature in degrees.
pub const DEFAULT_TARGET_TEMP_C: i16 = 89;

/// Hot temperature in degrees.
pub const DEFAULT_HOT_TEMP_C: i16 = 100;

/// Dangerous temperature in degrees.
pub const DEFAULT_DANGEROUS_TEMP_C: i16 = 110;

/// Fan speed in percent for a fixed speed.
pub const DEFAULT_FAN_SPEED: usize = 100;

/// Number of fans that have to turn.
pub const DEFAULT_MIN_FANS: usize = 1;

/// Index of the hash board of a miner with one board.
pub const S9_HASHBOARD_INDEX: usize = 8;

/// Lowest index of a hash chain.
pub const HASH_CHAIN_INDEX_MIN: usize = 6;

/// Highest index of a hash chain.
pub const HASH_CHAIN_INDEX_MAX: usize = 8;

/// Lowest fan speed in percent.
pub const FAN_SPEED_MIN: usize = 0;

/// Highest fan speed in percent.
pub const FAN_SPEED_MAX: usize = 100;

/// Lowest number of fans.
pub const FANS_MIN: usize = 0;

/// Highest number of fans.
pub const FANS_MAX: usize = 4;

/// Difficulty that the chips are set to.
pub const DEFAULT_ASIC_DIFFICULTY: usize = 64;

/// How temperature and fans are controlled.
#[derive(Clone, Copy, Debug, PartialEq, Eq, Structural)]
pub enum TempControlMode {
    /// The fans hold the target temperature
    Auto,
    /// The fans turn at a fixed speed, and the temperature limits hold
    Manual,
    /// The fans turn at a fixed speed, and no temperature limit holds
    Disabled,
}

impl TempControlMode {
    /// How the mode is written in a configuration.
    pub open spec fn text(&self) -> Seq<char> {
        match *self {
            TempControlMode::Auto => "auto"@,
            TempControlMode::Manual => "manual"@,
            TempControlMode::Disabled => "disabled"@,
        }
    }

    /// The mode as it is written in a configuration.
    pub fn to_string(&self) -> (text: String)
        ensures
            text@ == self.text(),
    {
        match self {
            TempControlMode::Auto => String::from_str("auto"),
            TempControlMode::Manual => String::from_str("manual"),
            TempControlMode::Disabled => String::from_str("disabled"),
        }
    }
}

/// Settings of all hash chains.
#[derive(Clone, Copy, Debug)]
pub struct HashChainGlobal {
    pub asic_boost: Option<bool>,
}

/// Settings of temperature control.
#[derive(Clone, Copy, Debug)]
pub struct TempControl {
    pub mode: Option<TempControlMode>,
    pub target_temp: Option<Celsius>,
    pub hot_temp: Option<Celsius>,
    pub dangerous_temp: Option<Celsius>,
}

/// Settings of fan control.
#[derive(Clone, Copy, Debug)]
pub struct FanControl {
    /// Fan speed in percent
    pub speed: Option<usize>,
    pub min_fans: Option<usize>,
}

/// A pool as the configuration names it.
#[derive(Debug)]
pub struct PoolConfig {
    pub url: String,
    pub user: String,
    pub password: Option<String>,
    pub enabled: Option<bool>,
}

/// A group of pools as the configuration names it.
#[derive(Debug)]
pub struct GroupConfig {
    pub name: String,
    pub pools: Option<Vec<PoolConfig>>,
}

impl GroupConfig {
    /// Whether the group names a pool.
    pub open spec fn spec_has_pools(&self) -> bool {
        self.pools matches Some(pools) && pools@.len() > 0
    }

    /// Whether the group names a pool.
    #[verifier::when_used_as_spec(spec_has_pools)]
    pub fn has_pools(&self) -> (has: bool)
        ensures
            has == self.spec_has_pools(),
    {
        match &self.pools {
            Some(pools) => pools.len() > 0,
            None => false,
        }
    }
}

/// The configuration of the miner.
#[derive(Debug)]
pub struct Backend {
    pub hash_chain_global: Option<HashChainGlobal>,
    /// The names under which hash chains have settings of their own
    pub hash_chains: Option<Vec<String>>,
    pub temp_control: Option<TempControl>,
    pub fan_control: Option<FanControl>,
    pub groups: Option<Vec<GroupConfig>>,
    pub fans_on_while_warming_up: Option<bool>,
}

/// `value`, or `default` where there is none.
pub open spec fn or_default<T>(value: Option<T>, default: T) -> T {
    match value {
        Some(v) => v,
        None => default,
    }
}

/// A whole number of degrees as a temperature.
pub open spec fn degrees(d: i16) -> Celsius {
    Celsius { raw: (d * 256) as i32 }
}

impl Backend {
    /// The mode of temperature control.
    pub open spec fn mode(&self) -> TempControlMode {
        match self.temp_control {
            Some(control) => or_default(control.mode, TempControlMode::Auto),
            None => TempControlMode::Auto,
        }
    }

    /// The target temperature.
    pub open spec fn target_temp(&self) -> Celsius {
        match self.temp_control {
            Some(control) => or_default(control.target_temp, degrees(DEFAULT_TARGET_TEMP_C)),
            None => degrees(DEFAULT_TARGET_TEMP_C),
        }
    }

    /// The hot temperature.
    pub open spec fn hot_temp(&self) -> Celsius {
        match self.temp_control {
            Some(control) => or_default(control.hot_temp, degrees(DEFAULT_HOT_TEMP_C)),
            None => degrees(DEFAULT_HOT_TEMP_C),
        }
    }

    /// The dangerous temperature.
    pub open spec fn dangerous_temp(&self) -> Celsius {
        match self.temp_control {
            Some(control) => or_default(control.dangerous_temp, degrees(DEFAULT_DANGEROUS_TEMP_C)),
            None => degrees(DEFAULT_DANGEROUS_TEMP_C),
        }
    }

    /// The fixed fan speed in percent.
    pub open spec fn fan_speed(&self) -> usize {
        match self.fan_control {
            Some(control) => or_default(control.speed, DEFAULT_FAN_SPEED),
            None => DEFAULT_FAN_SPEED,
        }
    }

    /// The number of fans that have to turn.
    pub open spec fn min_fans(&self) -> usize {
        match self.fan_control {
            Some(control) => or_default(control.min_fans, DEFAULT_MIN_FANS),
            None => DEFAULT_MIN_FANS,
        }
    }

    /// Whether the configuration asks for no fan control at all: speed and
    /// number of fans are both given as zero.
    pub open spec fn fans_switched_off(&self) -> bool {
        self.fan_control matches Some(control) && control.speed == Some(0usize) && control.min_fans
            == Some(0usize)
    }

    /// Whether the fan speed, where it is used, is one that fans can have.
    pub open spec fn fan_speed_usable(&self) -> bool {
        self.mode() != TempControlMode::Auto && !self.fans_switched_off() ==> self.fan_speed()
            <= MAX_PWM
    }

    /// The configuration of the monitor that [`Self::resolve_monitor_config`]
    /// makes.
    ///
    /// The temperature limits hold unless temperature control is disabled.
    /// In automatic mode the fans hold the target temperature; else they turn
    /// at the fixed speed, or are not controlled where speed and number of
    /// fans are both given as zero.
    pub open spec fn monitor_config(&self) -> Config {
        Config {
            temp_config: if self.mode() == TempControlMode::Disabled {
                None
            } else {
                Some(
                    TempControlConfig {
                        dangerous_temp: self.dangerous_temp(),
                        hot_temp: self.hot_temp(),
                    },
                )
            },
            fan_config: if self.mode() == TempControlMode::Auto {
                Some(
                    FanControlConfig {
                        mode: FanControlMode::TargetTemperature(self.target_temp()),
                        min_fans: self.min_fans(),
                    },
                )
            } else if self.fans_switched_off() {
                None
            } else {
                Some(
                    FanControlConfig {
                        mode: FanControlMode::FixedSpeed(Speed { pwm: self.fan_speed() }),
                        min_fans: self.min_fans(),
                    },
                )
            },
            fans_on_while_warming_up: or_default(self.fans_on_while_warming_up, true),
        }
    }

    /// The model that a configuration has to be written for.
    pub fn model() -> (model: String)
        ensures
            model@ == FORMAT_MODEL@,
    {
        String::from_str(FORMAT_MODEL)
    }

    /// The version of the configuration format.
    pub fn version() -> (version: String)
        ensures
            version@ == FORMAT_VERSION@,
    {
        String::from_str(FORMAT_VERSION)
    }

    /// Whether a configuration of version `version` can be read.
    pub fn version_is_supported(version: &str) -> (supported: bool)
        ensures
            supported == (version@ == FORMAT_VERSION@),
    {
        same_text(version, FORMAT_VERSION)
    }

    /// Whether any group is configured.
    pub fn has_groups(&self) -> (has: bool)
        ensures
            has == (self.groups matches Some(groups) && groups@.len() > 0),
    {
        match &self.groups {
            Some(groups) => groups.len() > 0,
            None => false,
        }
    }

    /// Whether groups are configured and each of them has a pool.
    pub open spec fn spec_has_pools(&self) -> bool {
        match self.groups {
            Some(groups) => forall|i: int|
                0 <= i < groups@.len() ==> (#[trigger] groups@[i]).has_pools(),
            None => false,
        }
    }

    /// Whether groups are configured and each of them has a pool.
    #[verifier::when_used_as_spec(spec_has_pools)]
    pub fn has_pools(&self) -> (has: bool)
        ensures
            has == self.spec_has_pools(),
    {
        match &self.groups {
            Some(groups) => {
                let mut i: usize = 0;
                while i < groups.len()
                    invariant
                        i <= groups.len(),
                        self.groups == Some(*groups),
                        forall|j: int| 0 <= j < i ==> (#[trigger] groups@[j]).has_pools(),
                    decreases groups.len() - i,
                {
                    if !groups[i].has_pools() {
                        assert(!self.groups->0@[i as int].has_pools());
                        return false;
                    }
                    i += 1;
                }
                true
            },
            None => false,
        }
    }

    /// The configuration of the monitor.
    pub fn resolve_monitor_config(&self) -> (config: Config)
        requires
            self.fan_speed_usable(),
        ensures
            config == self.monitor_config(),
    {
        let mut mode = TempControlMode::Auto;
        let mut target_temp = Celsius::from_degrees(DEFAULT_TARGET_TEMP_C);
        let mut hot_temp = Celsius::from_degrees(DEFAULT_HOT_TEMP_C);
        let mut dangerous_temp = Celsius::from_degrees(DEFAULT_DANGEROUS_TEMP_C);
        match self.temp_control {
            Some(control) => {
                match control.mode {
                    Some(m) => mode = m,
                    None => {},
                }
                match control.target_temp {
                    Some(t) => target_temp = t,
                    None => {},
                }
                match control.hot_temp {
                    Some(t) => hot_temp = t,
                    None => {},
                }
                match control.dangerous_temp {
                    Some(t) => dangerous_temp = t,
                    None => {},
                }
            },
            None => {},
        }
        let mut fan_speed = DEFAULT_FAN_SPEED;
        let mut min_fans = DEFAULT_MIN_FANS;
        let mut switched_off = false;
        match self.fan_control {
            Some(control) => {
                let mut speed_is_zero = false;
                let mut fans_is_zero = false;
                match control.speed {
                    Some(speed) => {
                        fan_speed = speed;
                        speed_is_zero = speed == 0;
                    },
                    None => {},
                }
                match control.min_fans {
                    Some(fans) => {
                        min_fans = fans;
                        fans_is_zero = fans == 0;
                    },
                    None => {},
                }
                switched_off = speed_is_zero && fans_is_zero;
            },
            None => {},
        }
        let temp_config = match mode {
            TempControlMode::Auto | TempControlMode::Manual => Some(
                TempControlConfig { dangerous_temp, hot_temp },
            ),
            TempControlMode::Disabled => None,
        };
        let fan_config = match mode {
            TempControlMode::Auto => Some(
                FanControlConfig { mode: FanControlMode::TargetTemperature(target_temp), min_fans },
            ),
            TempControlMode::Manual | TempControlMode::Disabled => {
                if switched_off {
                    None
                } else {
                    Some(
                        FanControlConfig {
                            mode: FanControlMode::FixedSpeed(Speed::new(fan_speed)),
                            min_fans,
                        },
                    )
                }
            },
        };
        let fans_on_while_warming_up = match self.fans_on_while_warming_up {
            Some(on) => on,
            None => true,
        };
        Config { temp_config, fan_config, fans_on_while_warming_up }
    }

    /// What [`Self::sanity_check`] finds wrong, if anything: first with the
    /// names of the hash chains, then with the groups and their pools.
    pub open spec fn sanity_error(&self) -> Option<Seq<char>> {
        let in_keys = match self.hash_chains {
            Some(keys) => hash_chain_keys_error(keys@, 0),
            None => None,
        };
        match in_keys {
            Some(e) => Some(e),
            None => match self.groups {
                Some(groups) => groups_error(groups@, 0),
                None => None,
            },
        }
    }

    /// Checks that every hash chain is named by its index, that no two
    /// groups have one name, and that the URL of every pool is in order.
    pub fn sanity_check(&self) -> (checked: Result<(), String>)
        ensures
            checked is Ok <==> self.sanity_error() is None,
            checked is Err ==> checked->Err_0@ == self.sanity_error()->0,
    {
        match &self.hash_chains {
            Some(keys) => {
                let mut i: usize = 0;
                while i < keys.len()
                    invariant
                        i <= keys.len(),
                        self.hash_chains == Some(*keys),
                        hash_chain_keys_error(keys@, 0) == hash_chain_keys_error(keys@, i as int),
                    decreases keys.len() - i,
                {
                    match check_hash_chain_key(keys[i].as_str()) {
                        Ok(_) => {},
                        Err(message) => {
                            return Err(message);
                        },
                    }
                    i += 1;
                }
            },
            None => {},
        }
        match &self.groups {
            Some(groups) => {
                let mut g: usize = 0;
                while g < groups.len()
                    invariant
                        g <= groups.len(),
                        self.groups == Some(*groups),
                        self.sanity_error() == groups_error(groups@, g as int),
                    decreases groups.len() - g,
                {
                    let mut earlier: usize = 0;
                    while earlier < g
                        invariant
                            earlier <= g < groups.len(),
                            self.sanity_error() == groups_error(groups@, g as int),
                            forall|j: int|
                                0 <= j < earlier ==> (#[trigger] groups@[j]).name@
                                    != groups@[g as int].name@,
                        decreases g - earlier,
                    {
                        if same_text(groups[earlier].name.as_str(), groups[g].name.as_str()) {
                            let mut message = String::from_str("group with name '");
                            message.append(groups[g].name.as_str());
                            message.append("' already defined");
                            assert(name_taken(groups@, g as int));
                            return Err(message);
                        }
                        earlier += 1;
                    }
                    assert(!name_taken(groups@, g as int));
                    match &groups[g].pools {
                        Some(pools) => match check_pools(pools) {
                            Ok(()) => {},
                            Err(message) => {
                                return Err(message);
                            },
                        },
                        None => {},
                    }
                    g += 1;
                }
            },
            None => {},
        }
        Ok(())
    }

    /// Number of midstates that the chips work on: four with AsicBoost, which
    /// is on unless the configuration switches it off, else one.
    pub fn midstate_count(&self) -> (count: usize)
        ensures
            count == if (match self.hash_chain_global {
                Some(global) => or_default(global.asic_boost, DEFAULT_ASIC_BOOST),
                None => DEFAULT_ASIC_BOOST,
            }) {
                ASIC_BOOST_MIDSTATE_COUNT
            } else {
                1
            },
    {
        let asic_boost = match self.hash_chain_global {
            Some(global) => match global.asic_boost {
                Some(on) => on,
                None => DEFAULT_ASIC_BOOST,
            },
            None => DEFAULT_ASIC_BOOST,
        };
        if asic_boost {
            ASIC_BOOST_MIDSTATE_COUNT
        } else {
            1
        }
    }
}

/// Whether `c` is a decimal digit.
pub open spec fn is_digit(c: char) -> bool {
    48 <= c as u32 <= 57
}

/// The number that a string of digits stands for.
pub open spec fn digits_value(digits: Seq<char>) -> nat
    decreases digits.len(),
{
    if digits.len() == 0 {
        0
    } else {
        digits_value(digits.drop_last()) * 10 + (digits.last() as u32 - 48) as nat
    }
}

/// `text` without a plus sign in front.
pub open spec fn without_sign(text: Seq<char>) -> Seq<char> {
    if text.len() > 0 && text[0] == '+' {
        text.subrange(1, text.len() as int)
    } else {
        text
    }
}

/// The number that `text` stands for, if it is a number: digits, at least
/// one, with or without a plus sign in front.
pub open spec fn number_of(text: Seq<char>) -> Option<nat> {
    let digits = without_sign(text);
    if digits.len() > 0 && (forall|i: int| 0 <= i < digits.len() ==> is_digit(#[trigger] digits[i])) {
        Some(digits_value(digits))
    } else {
        None
    }
}

/// A number grows with every digit behind it.
pub proof fn lemma_digits_value_grows(digits: Seq<char>, n: int)
    requires
        0 <= n <= digits.len(),
        forall|i: int| 0 <= i < digits.len() ==> is_digit(#[trigger] digits[i]),
    ensures
        digits_value(digits.subrange(0, n)) <= digits_value(digits),
    decreases digits.len() - n,
{
    if n < digits.len() {
        lemma_digits_value_grows(digits, n + 1);
        let longer = digits.subrange(0, n + 1);
        assert(longer.drop_last() =~= digits.subrange(0, n));
        assert(is_digit(digits[n]));
        assert(longer.last() == digits[n]);
    } else {
        assert(digits.subrange(0, n) =~= digits);
    }
}

/// The number that `text` stands for, if it is one that `usize` holds.
pub fn parse_usize(text: &str) -> (number: Option<usize>)
    ensures
        number == match number_of(text@) {
            Some(value) => if value <= usize::MAX {
                Some(value as usize)
            } else {
                None
            },
            None => None,
        },
{
    let len = text.unicode_len();
    let start: usize = if len > 0 && text.get_char(0) == '+' {
        1
    } else {
        0
    };
    if start == len {
        return None;
    }
    let ghost digits = without_sign(text@);
    let mut value: usize = 0;
    let mut i: usize = start;
    while i < len
        invariant
            start <= i <= len,
            len == text@.len(),
            digits == without_sign(text@),
            digits.len() == len - start,
            forall|j: int| 0 <= j < digits.len() ==> digits[j] == text@[start + j],
            forall|j: int| 0 <= j < i - start ==> is_digit(#[trigger] digits[j]),
            value == digits_value(digits.subrange(0, i - start)),
        decreases len - i,
    {
        let c = text.get_char(i);
        let code = c as u32;
        if code < 48 || code > 57 {
            assert(!is_digit(digits[i - start]));
            return None;
        }
        let digit = (code - 48) as usize;
        proof {
            let longer = digits.subrange(0, i - start + 1);
            assert(longer.drop_last() =~= digits.subrange(0, i - start));
            assert(longer.last() == c);
        }
        let grown = match value.checked_mul(10) {
            Some(tenfold) => tenfold.checked_add(digit),
            None => None,
        };
        match grown {
            Some(v) => value = v,
            None => {
                proof {
                    if forall|j: int| 0 <= j < digits.len() ==> is_digit(#[trigger] digits[j]) {
                        lemma_digits_value_grows(digits, i - start + 1);
                    }
                }
                return None;
            },
        }
        i += 1;
    }
    assert(digits.subrange(0, len - start) =~= digits);
    Some(value)
}

/// The message for the name of a hash chain that is no number.
pub open spec fn index_not_number(key: Seq<char>) -> Seq<char> {
    "hash chain index '"@ + key + "' is not number"@
}

/// The message for the index of a hash chain that the miner does not have.
pub open spec fn index_out_of_range(idx: nat) -> Seq<char> {
    "hash chain index '"@ + decimal(idx) + "' is out of range '"@ + decimal(
        HASH_CHAIN_INDEX_MIN as nat,
    ) + ".."@ + decimal(HASH_CHAIN_INDEX_MAX as nat) + "'"@
}

/// What is wrong with `key` as the name of a hash chain, if anything: it
/// has to be the number of a hash chain that the miner has.
pub open spec fn hash_chain_key_error(key: Seq<char>) -> Option<Seq<char>> {
    match number_of(key) {
        Some(idx) => if idx > usize::MAX {
            Some(index_not_number(key))
        } else if HASH_CHAIN_INDEX_MIN <= idx <= HASH_CHAIN_INDEX_MAX {
            None
        } else {
            Some(index_out_of_range(idx))
        },
        None => Some(index_not_number(key)),
    }
}

/// The first thing wrong with the names `keys` from index `from` on.
pub open spec fn hash_chain_keys_error(keys: Seq<String>, from: int) -> Option<Seq<char>>
    decreases keys.len() - from,
{
    if from < 0 || from >= keys.len() {
        None
    } else {
        match hash_chain_key_error(keys[from]@) {
            Some(e) => Some(e),
            None => hash_chain_keys_error(keys, from + 1),
        }
    }
}

/// The message for a second group of one name.
pub open spec fn group_defined_twice(name: Seq<char>) -> Seq<char> {
    "group with name '"@ + name + "' already defined"@
}

/// The message for a pool whose URL is not in order.
pub open spec fn pool_refused(why: Seq<char>, pool: PoolConfig) -> Seq<char> {
    "Client: "@ + why + " in pool '"@ + pool.url@ + "@"@ + pool.user@ + "'"@
}

/// The first thing wrong with the pools `pools` from index `from` on.
pub open spec fn pools_error(pools: Seq<PoolConfig>, from: int) -> Option<Seq<char>>
    decreases pools.len() - from,
{
    if from < 0 || from >= pools.len() {
        None
    } else {
        match descriptor_error(pools[from].url@) {
            Some(why) => Some(pool_refused(why, pools[from])),
            None => pools_error(pools, from + 1),
        }
    }
}

/// Whether a group before the one with index `g` has its name.
pub open spec fn name_taken(groups: Seq<GroupConfig>, g: int) -> bool {
    exists|earlier: int| 0 <= earlier < g && (#[trigger] groups[earlier]).name@ == groups[g].name@
}

/// The first thing wrong with the groups `groups` from index `from` on: a
/// name that an earlier group has, or a pool whose URL is not in order.
pub open spec fn groups_error(groups: Seq<GroupConfig>, from: int) -> Option<Seq<char>>
    decreases groups.len() - from,
{
    if from < 0 || from >= groups.len() {
        None
    } else if name_taken(groups, from) {
        Some(group_defined_twice(groups[from].name@))
    } else {
        let in_pools = match groups[from].pools {
            Some(pools) => pools_error(pools@, 0),
            None => None,
        };
        match in_pools {
            Some(e) => Some(e),
            None => groups_error(groups, from + 1),
        }
    }
}

/// Checks the name of a hash chain and gives its index.
pub fn check_hash_chain_key(key: &str) -> (checked: Result<usize, String>)
    ensures
        checked is Ok <==> hash_chain_key_error(key@) is None,
        checked is Ok ==> number_of(key@) == Some(checked->Ok_0 as nat),
        checked is Err ==> checked->Err_0@ == hash_chain_key_error(key@)->0,
{
    match parse_usize(key) {
        Some(idx) => {
            if HASH_CHAIN_INDEX_MIN <= idx && idx <= HASH_CHAIN_INDEX_MAX {
                Ok(idx)
            } else {
                let mut message = String::from_str("hash chain index '");
                push_decimal(&mut message, idx as u64);
                message.append("' is out of range '");
                push_decimal(&mut message, HASH_CHAIN_INDEX_MIN as u64);
                message.append("..");
                push_decimal(&mut message, HASH_CHAIN_INDEX_MAX as u64);
                message.append("'");
                assert(message@ =~= index_out_of_range(idx as nat));
                Err(message)
            }
        },
        None => {
            let mut message = String::from_str("hash chain index '");
            message.append(key);
            message.append("' is not number");
            Err(message)
        },
    }
}

/// Checks the pools of a group.
pub fn check_pools(pools: &Vec<PoolConfig>) -> (checked: Result<(), String>)
    ensures
        checked is Ok <==> pools_error(pools@, 0) is None,
        checked is Err ==> checked->Err_0@ == pools_error(pools@, 0)->0,
{
    let mut i: usize = 0;
    while i < pools.len()
        invariant
            i <= pools.len(),
            pools_error(pools@, 0) == pools_error(pools@, i as int),
        decreases pools.len() - i,
    {
        let pool = &pools[i];
        let password = match &pool.password {
            Some(p) => Some(p.as_str()),
            None => None,
        };
        let enabled = match pool.enabled {
            Some(e) => e,
            None => DEFAULT_POOL_ENABLED,
        };
        match Descriptor::create(pool.url.as_str(), &UserInfo::new(pool.user.as_str(), password), enabled) {
            Ok(_) => {},
            Err(e) => {
                let mut message = e.to_string();
                message.append(" in pool '");
                message.append(pool.url.as_str());
                message.append("@");
                message.append(pool.user.as_str());
                message.append("'");
                assert(message@ =~= pool_refused(descriptor_error(pool.url@)->0, *pool));
                return Err(message);
            },
        }
        i += 1;
    }
    Ok(())
}

/// What a configuration says of itself.
#[derive(Debug)]
pub struct Format {
    pub version: String,
    pub model: String,
    pub generator: Option<String>,
    pub timestamp: Option<u32>,
}

/// A configuration with what it says of itself.
#[derive(Debug)]
pub struct FormatWrapper {
    pub format: Format,
    pub body: Backend,
}

/// Why a configuration is refused.
#[derive(Debug)]
pub enum FormatWrapperError {
    /// The configuration could not be read
    ParsingError(String),
    /// The configuration is written for this other model
    IncompatibleFormat(String),
    /// The configuration has this version, which is not supported
    IncompatibleVersion(String),
    /// Something in the configuration is not in order
    IncorrectBody(String),
}

/// A [`FormatWrapperError`] with sequences of characters for strings.
pub enum FormatWrapperErrorView {
    ParsingError(Seq<char>),
    IncompatibleFormat(Seq<char>),
    IncompatibleVersion(Seq<char>),
    IncorrectBody(Seq<char>),
}

impl View for FormatWrapperError {
    type V = FormatWrapperErrorView;

    open spec fn view(&self) -> FormatWrapperErrorView {
        match *self {
            FormatWrapperError::ParsingError(m) => FormatWrapperErrorView::ParsingError(m@),
            FormatWrapperError::IncompatibleFormat(m) => FormatWrapperErrorView::IncompatibleFormat(
                m@,
            ),
            FormatWrapperError::IncompatibleVersion(m) => FormatWrapperErrorView::IncompatibleVersion(
                m@,
            ),
            FormatWrapperError::IncorrectBody(m) => FormatWrapperErrorView::IncorrectBody(m@),
        }
    }
}

impl FormatWrapperErrorView {
    /// How the error is written.
    pub open spec fn text(self) -> Seq<char> {
        match self {
            FormatWrapperErrorView::ParsingError(message) => message,
            FormatWrapperErrorView::IncorrectBody(message) => message,
            FormatWrapperErrorView::IncompatibleFormat(model) => "incompatible format model '"@
                + model + "'"@,
            FormatWrapperErrorView::IncompatibleVersion(version) => "incompatible format version '"@
                + version + "'"@,
        }
    }
}

impl FormatWrapperError {
    /// The error as it is written for the user.
    pub fn to_string(&self) -> (text: String)
        ensures
            text@ == self@.text(),
    {
        match self {
            FormatWrapperError::ParsingError(message) => message.clone(),
            FormatWrapperError::IncorrectBody(message) => message.clone(),
            FormatWrapperError::IncompatibleFormat(model) => {
                let mut text = String::from_str("incompatible format model '");
                text.append(model.as_str());
                text.append("'");
                text
            },
            FormatWrapperError::IncompatibleVersion(version) => {
                let mut text = String::from_str("incompatible format version '");
                text.append(version.as_str());
                text.append("'");
                text
            },
        }
    }
}

impl FormatWrapper {
    /// What [`Self::sanity_check`] finds, if anything: the wrong model, then
    /// what is wrong in the configuration itself, and the wrong version
    /// last, so that a caller can take that for a warning.
    pub open spec fn sanity_error(&self) -> Option<FormatWrapperErrorView> {
        if self.format.model@ != FORMAT_MODEL@ {
            Some(FormatWrapperErrorView::IncompatibleFormat(self.format.model@))
        } else {
            match self.body.sanity_error() {
                Some(message) => Some(FormatWrapperErrorView::IncorrectBody(message)),
                None => if self.format.version@ != FORMAT_VERSION@ {
                    Some(FormatWrapperErrorView::IncompatibleVersion(self.format.version@))
                } else {
                    None
                },
            }
        }
    }

    /// Checks that the configuration is written for this model, is in order
    /// and has a version that is supported.
    pub fn sanity_check(&self) -> (checked: Result<(), FormatWrapperError>)
        ensures
            checked is Ok <==> self.sanity_error() is None,
            checked is Err ==> Some(checked->Err_0@) == self.sanity_error(),
    {
        if !same_text(self.format.model.as_str(), FORMAT_MODEL) {
            return Err(FormatWrapperError::IncompatibleFormat(self.format.model.clone()));
        }
        match self.body.sanity_check() {
            Ok(()) => {},
            Err(message) => {
                return Err(FormatWrapperError::IncorrectBody(message));
            },
        }
        if !Backend::version_is_supported(self.format.version.as_str()) {
            return Err(FormatWrapperError::IncompatibleVersion(self.format.version.clone()));
        }
        Ok(())
    }
}

} // verus!
