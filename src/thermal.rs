use vstd::prelude::*;
use crate::channel::{channel_filename, channel_name, ChannelKind};
use crate::units::{decimal, parse_i32, parse_i32_exec, push_decimal};

verus! {

// All temperatures here are in millidegrees Celsius, as the attributes hold them.

/// The reading or threshold that stands for "not available" (-999 °C).
pub const NOT_AVAILABLE: i32 = -999000;

/// Readings closer than this to the sentinel count as the sentinel (0.1 °C).
pub const SENTINEL_TOLERANCE: i32 = 100;

/// Readings that differ by no more than this count as unchanged (0.1 °C).
pub const CHANGE_DEADBAND: i32 = 100;

/// A step larger than this between two readings is worth a warning (10 °C).
pub const RAPID_CHANGE: i32 = 10000;

pub const DEFAULT_HIGH_THRESHOLD: i32 = 85000;
pub const DEFAULT_LOW_THRESHOLD: i32 = 0;
pub const DEFAULT_HIGH_CRITICAL_THRESHOLD: i32 = 100000;
pub const LOW_CRITICAL_THRESHOLD: i32 = -10000;

/// Where the running minimum starts before any reading (1000 °C).
pub const MIN_SEED: i32 = 1000000;

/// Where the running maximum starts before any reading (-1000 °C).
pub const MAX_SEED: i32 = -1000000;

pub open spec fn abs_diff(a: int, b: int) -> int {
    if a >= b { a - b } else { b - a }
}

pub open spec fn is_sentinel(v: int) -> bool {
    abs_diff(v, NOT_AVAILABLE as int) < SENTINEL_TOLERANCE as int
}

/// One over-threshold evaluation: the new flag and whether it changed. With
/// the sentinel on either side nothing is evaluated.
pub open spec fn over_step(flag: bool, temperature: int, threshold: int) -> (bool, bool) {
    if is_sentinel(temperature) || is_sentinel(threshold) {
        (flag, false)
    } else {
        (temperature > threshold, flag != (temperature > threshold))
    }
}

/// One under-threshold evaluation: the new flag and whether it changed. With
/// the sentinel on either side nothing is evaluated.
pub open spec fn under_step(flag: bool, temperature: int, threshold: int) -> (bool, bool) {
    if is_sentinel(temperature) || is_sentinel(threshold) {
        (flag, false)
    } else {
        (temperature < threshold, flag != (temperature < threshold))
    }
}

/// Whether a new reading counts as a change from the last one.
pub open spec fn reading_changed(last: Option<i32>, new_temp: int) -> bool {
    match last {
        Some(t) => abs_diff(t as int, new_temp) > CHANGE_DEADBAND as int,
        None => true,
    }
}

fn abs_diff_exec(a: i32, b: i32) -> (r: i64)
    ensures
        r == abs_diff(a as int, b as int),
{
    let d: i64 = a as i64 - b as i64;
    if d >= 0 { d } else { -d }
}

fn is_sentinel_exec(v: i32) -> (r: bool)
    ensures
        r == is_sentinel(v as int),
{
    abs_diff_exec(v, NOT_AVAILABLE) < SENTINEL_TOLERANCE as i64
}

/// What a polling loop last observed of one temperature sensor.
#[derive(Debug)]
pub struct TemperatureStatus {
    pub temperature: Option<i32>,
    pub over_temperature: bool,
    pub under_temperature: bool,
}

impl TemperatureStatus {
    pub fn new() -> (r: TemperatureStatus)
        ensures
            r.temperature is None,
            !r.over_temperature,
            !r.under_temperature,
    {
        TemperatureStatus { temperature: None, over_temperature: false, under_temperature: false }
    }

    /// Records a reading; says whether it differs from the last one by more
    /// than the deadband (the first reading always does).
    pub fn set_temperature(&mut self, new_temp: i32) -> (changed: bool)
        ensures
            changed == reading_changed(old(self).temperature, new_temp as int),
            final(self).temperature == Some(new_temp),
            final(self).over_temperature == old(self).over_temperature,
            final(self).under_temperature == old(self).under_temperature,
    {
        let changed = match self.temperature {
            Some(t) => abs_diff_exec(t, new_temp) > CHANGE_DEADBAND as i64,
            None => true,
        };
        self.temperature = Some(new_temp);
        changed
    }

    /// Whether a new reading is more than the warning step away from the last.
    pub fn is_rapid_change(&self, new_temp: i32) -> (r: bool)
        ensures
            r == match self.temperature {
                Some(t) => abs_diff(t as int, new_temp as int) > RAPID_CHANGE as int,
                None => false,
            },
    {
        match self.temperature {
            Some(t) => abs_diff_exec(t, new_temp) > RAPID_CHANGE as i64,
            None => false,
        }
    }

    /// Evaluates the reading against the high threshold; says whether the
    /// over-temperature flag changed.
    pub fn set_over_temperature(&mut self, temperature: i32, threshold: i32) -> (changed: bool)
        ensures
            (final(self).over_temperature, changed)
                == over_step(old(self).over_temperature, temperature as int, threshold as int),
            is_sentinel(temperature as int) || is_sentinel(threshold as int) ==> !changed
                && final(self).over_temperature == old(self).over_temperature,
            final(self).temperature == old(self).temperature,
            final(self).under_temperature == old(self).under_temperature,
    {
        if is_sentinel_exec(temperature) || is_sentinel_exec(threshold) {
            return false;
        }
        let new_status = temperature > threshold;
        let changed = self.over_temperature != new_status;
        self.over_temperature = new_status;
        changed
    }

    /// Evaluates the reading against the low threshold; says whether the
    /// under-temperature flag changed.
    pub fn set_under_temperature(&mut self, temperature: i32, threshold: i32) -> (changed: bool)
        ensures
            (final(self).under_temperature, changed)
                == under_step(old(self).under_temperature, temperature as int, threshold as int),
            is_sentinel(temperature as int) || is_sentinel(threshold as int) ==> !changed
                && final(self).under_temperature == old(self).under_temperature,
            final(self).temperature == old(self).temperature,
            final(self).over_temperature == old(self).over_temperature,
    {
        if is_sentinel_exec(temperature) || is_sentinel_exec(threshold) {
            return false;
        }
        let new_status = temperature < threshold;
        let changed = self.under_temperature != new_status;
        self.under_temperature = new_status;
        changed
    }
}

/// Evaluating the same reading against the same threshold a second time in a
/// row never reports a change, for either flag.
pub proof fn lemma_threshold_idempotent(over: bool, under: bool, temperature: int, threshold: int)
    ensures
        !over_step(over_step(over, temperature, threshold).0, temperature, threshold).1,
        !under_step(under_step(under, temperature, threshold).0, temperature, threshold).1,
{
}

/// With the sentinel as reading or threshold, neither flag moves and no
/// change is reported.
pub proof fn lemma_sentinel_suppressed(over: bool, under: bool, temperature: int, threshold: int)
    requires
        is_sentinel(temperature) || is_sentinel(threshold),
    ensures
        over_step(over, temperature, threshold) == (over, false),
        under_step(under, temperature, threshold) == (under, false),
{
}

/// A temperature sensor of a hardware-monitoring directory, with a running
/// minimum and maximum for hardware that keeps none.
pub struct MlnxThermal {
    name: String,
    hwmon_path: String,
    temp_index: usize,
    min_temp: i32,
    max_temp: i32,
}

/// The reading that an attribute's text gives, else the fallback.
pub open spec fn reading_or(text: Option<Seq<char>>, fallback: int) -> int {
    match text {
        Some(t) => match parse_i32(t) {
            Some(v) => v,
            None => fallback,
        },
        None => fallback,
    }
}

fn reading_or_exec(text: Option<&str>, fallback: i32) -> (r: i32)
    ensures
        r == reading_or(match text { Some(t) => Some(t@), None => None }, fallback as int),
{
    match text {
        Some(t) => match parse_i32_exec(t) {
            Some(v) => v,
            None => fallback,
        },
        None => fallback,
    }
}

pub open spec fn opt_view(text: Option<&str>) -> Option<Seq<char>> {
    match text {
        Some(t) => Some(t@),
        None => None,
    }
}

impl MlnxThermal {
    pub closed spec fn spec_name(&self) -> Seq<char> {
        self.name@
    }

    pub closed spec fn spec_path(&self) -> Seq<char> {
        self.hwmon_path@
    }

    pub closed spec fn spec_temp_index(&self) -> usize {
        self.temp_index
    }

    pub closed spec fn spec_min(&self) -> int {
        self.min_temp as int
    }

    pub closed spec fn spec_max(&self) -> int {
        self.max_temp as int
    }

    pub fn new(name: String, hwmon_path: String, temp_index: usize) -> (r: MlnxThermal)
        ensures
            r.spec_name() == name@,
            r.spec_path() == hwmon_path@,
            r.spec_temp_index() == temp_index,
            r.spec_min() == MIN_SEED,
            r.spec_max() == MAX_SEED,
    {
        MlnxThermal { name, hwmon_path, temp_index, min_temp: MIN_SEED, max_temp: MAX_SEED }
    }

    /// The directory that holds the sensor's attributes.
    pub fn hwmon_path(&self) -> (r: &str)
        ensures
            r@ == self.spec_path(),
    {
        self.hwmon_path.as_str()
    }

    /// `temp<N>_<attribute>`, such as `temp3_max`.
    pub fn attribute_file(&self, attribute: &str) -> (r: String)
        ensures
            r@ == seq!['t', 'e', 'm', 'p'] + decimal(self.spec_temp_index() as nat) + seq!['_']
                + attribute@,
    {
        proof {
            reveal_strlit("temp");
            reveal_strlit("_");
        }
        let mut s = String::from_str("temp");
        push_decimal(&mut s, self.temp_index);
        s.append("_");
        s.append(attribute);
        s
    }

    /// `temp<N>_input`.
    pub fn input_file(&self) -> (r: String)
        ensures
            r@ == channel_name(ChannelKind::Temp, self.spec_temp_index() as nat),
    {
        channel_filename(ChannelKind::Temp, self.temp_index)
    }

    /// The label attribute's text (`None`: unreadable), else the built name.
    pub fn get_name(&self, label: Option<&str>) -> (r: String)
        ensures
            r@ == match label {
                Some(l) => l@,
                None => self.spec_name(),
            },
    {
        match label {
            Some(l) => l.to_owned(),
            None => self.name.clone(),
        }
    }

    /// The reading, from the input attribute's text; `None` where it is no
    /// `i32`.
    pub fn get_temperature(&self, input: &str) -> (r: Option<i32>)
        ensures
            match r {
                Some(v) => parse_i32(input@) == Some(v as int),
                None => parse_i32(input@) is None,
            },
    {
        parse_i32_exec(input)
    }

    pub fn get_high_threshold(&self, max: Option<&str>) -> (r: i32)
        ensures
            r == reading_or(opt_view(max), DEFAULT_HIGH_THRESHOLD as int),
    {
        reading_or_exec(max, DEFAULT_HIGH_THRESHOLD)
    }

    pub fn get_low_threshold(&self, min: Option<&str>) -> (r: i32)
        ensures
            r == reading_or(opt_view(min), DEFAULT_LOW_THRESHOLD as int),
    {
        reading_or_exec(min, DEFAULT_LOW_THRESHOLD)
    }

    pub fn get_high_critical_threshold(&self, crit: Option<&str>) -> (r: i32)
        ensures
            r == reading_or(opt_view(crit), DEFAULT_HIGH_CRITICAL_THRESHOLD as int),
    {
        reading_or_exec(crit, DEFAULT_HIGH_CRITICAL_THRESHOLD)
    }

    /// Fixed; not read from the hardware.
    pub fn get_low_critical_threshold(&self) -> (r: i32)
        ensures
            r == LOW_CRITICAL_THRESHOLD,
    {
        LOW_CRITICAL_THRESHOLD
    }

    /// The hardware's lowest reading, else the running minimum.
    pub fn get_minimum_recorded(&self, lowest: Option<&str>) -> (r: i32)
        ensures
            r == reading_or(opt_view(lowest), self.spec_min()),
    {
        reading_or_exec(lowest, self.min_temp)
    }

    /// The hardware's highest reading, else the running maximum.
    pub fn get_maximum_recorded(&self, highest: Option<&str>) -> (r: i32)
        ensures
            r == reading_or(opt_view(highest), self.spec_max()),
    {
        reading_or_exec(highest, self.max_temp)
    }

    /// Folds a reading into the running minimum and maximum.
    pub fn update_min_max(&mut self, temp: i32)
        ensures
            final(self).spec_min() == if (temp as int) < old(self).spec_min() { temp as int } else {
                old(self).spec_min()
            },
            final(self).spec_max() == if (temp as int) > old(self).spec_max() { temp as int } else {
                old(self).spec_max()
            },
            final(self).spec_name() == old(self).spec_name(),
            final(self).spec_path() == old(self).spec_path(),
            final(self).spec_temp_index() == old(self).spec_temp_index(),
    {
        if temp < self.min_temp {
            self.min_temp = temp;
        }
        if temp > self.max_temp {
            self.max_temp = temp;
        }
    }

    pub fn is_replaceable(&self) -> (r: bool)
        ensures
            !r,
    {
        false
    }

    pub fn get_position_in_parent(&self) -> (r: usize)
        ensures
            r == self.spec_temp_index(),
    {
        self.temp_index
    }
}

} // verus!
