use vstd::prelude::*;
use crate::channel::{channel_filename, channel_name, ChannelKind};
use crate::units::{decimal, parse_u32, parse_unsigned, percentage_to_pwm, percent_pwm, pwm_percent, pwm_to_percentage, push_decimal, rpm_percent, rpm_to_percentage};

verus! {

/// Band, in percentage points, within which a fan's speed counts as on target.
pub const SPEED_TOLERANCE: u32 = 20;

#[derive(Debug, Clone, Copy, PartialEq, Eq, Structural)]
pub enum LedColor {
    Green,
    Red,
    Amber,
    Off,
}

#[derive(Debug, Clone, Copy, PartialEq, Eq, Structural)]
pub enum FanDirection {
    Intake,
    Exhaust,
    NotApplicable,
}

impl FanDirection {
    pub open spec fn text(self) -> Seq<char> {
        match self {
            FanDirection::Intake => seq!['i', 'n', 't', 'a', 'k', 'e'],
            FanDirection::Exhaust => seq!['e', 'x', 'h', 'a', 'u', 's', 't'],
            FanDirection::NotApplicable => seq!['N', '/', 'A'],
        }
    }

    /// The direction as the host daemon prints it.
    pub fn to_string(&self) -> (r: String)
        ensures
            r@ == self.text(),
    {
        proof {
            reveal_strlit("intake");
            reveal_strlit("exhaust");
            reveal_strlit("N/A");
        }
        match self {
            FanDirection::Intake => String::from_str("intake"),
            FanDirection::Exhaust => String::from_str("exhaust"),
            FanDirection::NotApplicable => String::from_str("N/A"),
        }
    }
}

/// The number of fault-relevant flags, over all trackers that share it, that
/// currently report trouble.
pub struct FaultCounter {
    count: u32,
}

impl View for FaultCounter {
    type V = nat;

    closed spec fn view(&self) -> nat {
        self.count as nat
    }
}

/// The counter after one flag went from `was_healthy` to `healthy`: one up on
/// healthy to unhealthy, one down (not below zero) on unhealthy to healthy.
pub open spec fn counter_after(count: nat, was_healthy: bool, healthy: bool) -> nat {
    if was_healthy && !healthy {
        if count >= u32::MAX { u32::MAX as nat } else { count + 1 }
    } else if !was_healthy && healthy {
        if count == 0 { 0 } else { (count - 1) as nat }
    } else {
        count
    }
}

impl FaultCounter {
    pub fn new() -> (r: FaultCounter)
        ensures
            r@ == 0,
    {
        FaultCounter { count: 0 }
    }

    pub fn get(&self) -> (r: u32)
        ensures
            r as nat == self@,
    {
        self.count
    }

    pub fn reset(&mut self)
        ensures
            final(self)@ == 0,
    {
        self.count = 0;
    }

    fn record(&mut self, was_healthy: bool, healthy: bool)
        ensures
            final(self)@ == counter_after(old(self)@, was_healthy, healthy),
    {
        if was_healthy && !healthy {
            self.count = self.count.saturating_add(1);
        } else if !was_healthy && healthy {
            self.count = self.count.saturating_sub(1);
        }
    }
}

/// What a polling loop last observed of one fan.
#[derive(Debug)]
pub struct FanStatus {
    pub presence: bool,
    pub under_speed: bool,
    pub over_speed: bool,
    pub fault_status: bool,
}

impl FanStatus {
    pub fn new() -> (r: FanStatus)
        ensures
            r.presence,
            !r.under_speed,
            !r.over_speed,
            r.fault_status,
    {
        FanStatus { presence: true, under_speed: false, over_speed: false, fault_status: true }
    }

    /// Records presence; says whether it changed. The shared counter follows
    /// the change.
    pub fn set_presence(&mut self, presence: bool, counter: &mut FaultCounter) -> (changed: bool)
        ensures
            changed == (old(self).presence != presence),
            final(self).presence == presence,
            final(self).under_speed == old(self).under_speed,
            final(self).over_speed == old(self).over_speed,
            final(self).fault_status == old(self).fault_status,
            final(counter)@ == counter_after(old(counter)@, old(self).presence, presence),
    {
        let was = self.presence;
        counter.record(was, presence);
        self.presence = presence;
        was != presence
    }

    /// Records the under-speed flag; says whether it changed.
    pub fn set_under_speed(&mut self, under_speed: bool) -> (changed: bool)
        ensures
            changed == (old(self).under_speed != under_speed),
            final(self).under_speed == under_speed,
            final(self).presence == old(self).presence,
            final(self).over_speed == old(self).over_speed,
            final(self).fault_status == old(self).fault_status,
    {
        let changed = self.under_speed != under_speed;
        self.under_speed = under_speed;
        changed
    }

    /// Records the over-speed flag; says whether it changed.
    pub fn set_over_speed(&mut self, over_speed: bool) -> (changed: bool)
        ensures
            changed == (old(self).over_speed != over_speed),
            final(self).over_speed == over_speed,
            final(self).presence == old(self).presence,
            final(self).under_speed == old(self).under_speed,
            final(self).fault_status == old(self).fault_status,
    {
        let changed = self.over_speed != over_speed;
        self.over_speed = over_speed;
        changed
    }

    /// Records the fault status (true when healthy); says whether it changed.
    /// The shared counter follows the change.
    pub fn set_fault_status(&mut self, fault_status: bool, counter: &mut FaultCounter) -> (changed: bool)
        ensures
            changed == (old(self).fault_status != fault_status),
            final(self).fault_status == fault_status,
            final(self).presence == old(self).presence,
            final(self).under_speed == old(self).under_speed,
            final(self).over_speed == old(self).over_speed,
            final(counter)@ == counter_after(old(counter)@, old(self).fault_status, fault_status),
    {
        let was = self.fault_status;
        counter.record(was, fault_status);
        self.fault_status = fault_status;
        was != fault_status
    }

    pub fn is_ok(&self) -> (r: bool)
        ensures
            r == (self.presence && !self.under_speed && !self.over_speed && self.fault_status),
    {
        self.presence && !self.under_speed && !self.over_speed && self.fault_status
    }

    pub fn get_bad_fan_count(counter: &FaultCounter) -> (r: u32)
        ensures
            r as nat == counter@,
    {
        counter.get()
    }

    pub fn reset_fan_counter(counter: &mut FaultCounter)
        ensures
            final(counter)@ == 0,
    {
        counter.reset();
    }
}

/// How many of `flags` report trouble.
pub open spec fn unhealthy_count(flags: Seq<bool>) -> nat
    decreases flags.len(),
{
    if flags.len() == 0 {
        0
    } else {
        unhealthy_count(flags.drop_last()) + if flags.last() { 0nat } else { 1nat }
    }
}

/// Fault-relevant flags (presence or fault status of any number of trackers),
/// the shared counter, and the healthy-to-unhealthy and unhealthy-to-healthy
/// transitions seen, after a sequence of updates `(slot, new value)`.
pub open spec fn replay(flags: Seq<bool>, count: nat, updates: Seq<(int, bool)>)
    -> (Seq<bool>, nat, nat, nat)
    decreases updates.len(),
{
    if updates.len() == 0 {
        (flags, count, 0, 0)
    } else {
        let (f, c, falls, rises) = replay(flags, count, updates.drop_last());
        let (i, b) = updates.last();
        if 0 <= i < f.len() {
            let fell: nat = if f[i] && !b { 1 } else { 0 };
            let rose: nat = if !f[i] && b { 1 } else { 0 };
            (f.update(i, b), counter_after(c, f[i], b), falls + fell, rises + rose)
        } else {
            (f, c, falls, rises)
        }
    }
}

proof fn lemma_unhealthy_bound(f: Seq<bool>)
    ensures
        unhealthy_count(f) <= f.len(),
    decreases f.len(),
{
    if f.len() > 0 {
        lemma_unhealthy_bound(f.drop_last());
    }
}

proof fn lemma_unhealthy_update(f: Seq<bool>, i: int, b: bool)
    requires
        0 <= i < f.len(),
    ensures
        unhealthy_count(f.update(i, b)) + (if f[i] { 0int } else { 1int })
            == unhealthy_count(f) + (if b { 0int } else { 1int }),
    decreases f.len(),
{
    let g = f.update(i, b);
    if i == f.len() - 1 {
        assert(g.drop_last() =~= f.drop_last());
    } else {
        assert(g.drop_last() =~= f.drop_last().update(i, b));
        lemma_unhealthy_update(f.drop_last(), i, b);
    }
}

proof fn lemma_replay_counts(flags: Seq<bool>, updates: Seq<(int, bool)>)
    requires
        flags.len() <= u32::MAX,
        unhealthy_count(flags) == 0,
    ensures
        ({
            let (f, c, falls, rises) = replay(flags, 0, updates);
            &&& f.len() == flags.len()
            &&& c == unhealthy_count(f)
            &&& c + rises == falls
        }),
    decreases updates.len(),
{
    if updates.len() > 0 {
        lemma_replay_counts(flags, updates.drop_last());
        let (f, c, falls, rises) = replay(flags, 0, updates.drop_last());
        let (i, b) = updates.last();
        if 0 <= i < f.len() {
            lemma_unhealthy_update(f, i, b);
            lemma_unhealthy_bound(f.update(i, b));
            lemma_unhealthy_bound(f);
            if !f[i] && b {
                assert(unhealthy_count(f) > 0);
            }
        }
    }
}

/// From a healthy start with the counter at zero, after any sequence of flag
/// updates spread over any number of trackers, the counter equals the number
/// of healthy-to-unhealthy transitions minus the unhealthy-to-healthy ones,
/// and that is the number of flags that report trouble at the end.
pub proof fn lemma_fault_counter_tracks_transitions(flags: Seq<bool>, updates: Seq<(int, bool)>)
    requires
        flags.len() <= u32::MAX,
        forall|i: int| 0 <= i < flags.len() ==> #[trigger] flags[i],
    ensures
        ({
            let (f, c, falls, rises) = replay(flags, 0, updates);
            &&& c == falls - rises
            &&& c == unhealthy_count(f)
        }),
{
    lemma_all_healthy(flags);
    lemma_replay_counts(flags, updates);
}

proof fn lemma_all_healthy(flags: Seq<bool>)
    requires
        forall|i: int| 0 <= i < flags.len() ==> #[trigger] flags[i],
    ensures
        unhealthy_count(flags) == 0,
    decreases flags.len(),
{
    if flags.len() > 0 {
        lemma_all_healthy(flags.drop_last());
        assert(flags[flags.len() - 1]);
    }
}

/// What a fault attribute's text says of a fan: healthy unless it reads as
/// a nonzero number; an unreadable attribute counts as healthy.
pub open spec fn healthy_from_fault(fault: Option<Seq<char>>) -> bool {
    match fault {
        Some(t) => match parse_unsigned(t, u32::MAX as nat) {
            Some(v) => v == 0,
            None => true,
        },
        None => true,
    }
}

/// The speed, as a percentage, that a tachometer attribute's text gives.
pub open spec fn speed_from_text(rpm: Seq<char>) -> Option<nat> {
    match parse_unsigned(rpm, u32::MAX as nat) {
        Some(v) => Some(rpm_percent(v)),
        None => None,
    }
}

pub open spec fn under_speed(speed: nat, target: nat) -> bool {
    speed + (SPEED_TOLERANCE as nat) < target
}

pub open spec fn over_speed(speed: nat, target: nat) -> bool {
    speed > (if target + (SPEED_TOLERANCE as nat) > u32::MAX { u32::MAX as nat } else {
        target + (SPEED_TOLERANCE as nat)
    })
}

pub open spec fn fallback_model() -> Seq<char> {
    seq!['M', 'e', 'l', 'l', 'a', 'n', 'o', 'x', ' ', 'F', 'a', 'n']
}

pub open spec fn not_available() -> Seq<char> {
    seq!['N', '/', 'A']
}

pub open spec fn unknown() -> Seq<char> {
    seq!['U', 'n', 'k', 'n', 'o', 'w', 'n']
}

/// A fan of a hardware-monitoring directory: its tachometer channel, and the
/// pwm channel that drives it, if one was paired with it.
pub struct MlnxFan {
    name: String,
    hwmon_path: String,
    fan_index: usize,
    pwm_index: Option<usize>,
}

impl MlnxFan {
    pub closed spec fn spec_name(&self) -> Seq<char> {
        self.name@
    }

    pub closed spec fn spec_path(&self) -> Seq<char> {
        self.hwmon_path@
    }

    pub closed spec fn spec_fan_index(&self) -> usize {
        self.fan_index
    }

    pub closed spec fn spec_pwm_index(&self) -> Option<usize> {
        self.pwm_index
    }

    pub fn new(name: String, hwmon_path: String, fan_index: usize, pwm_index: Option<usize>) -> (r: MlnxFan)
        ensures
            r.spec_name() == name@,
            r.spec_path() == hwmon_path@,
            r.spec_fan_index() == fan_index,
            r.spec_pwm_index() == pwm_index,
    {
        MlnxFan { name, hwmon_path, fan_index, pwm_index }
    }

    pub fn get_name(&self) -> (r: String)
        ensures
            r@ == self.spec_name(),
    {
        self.name.clone()
    }

    /// The directory that holds the fan's attributes.
    pub fn hwmon_path(&self) -> (r: &str)
        ensures
            r@ == self.spec_path(),
    {
        self.hwmon_path.as_str()
    }

    pub fn pwm_index(&self) -> (r: Option<usize>)
        ensures
            r == self.spec_pwm_index(),
    {
        self.pwm_index
    }

    /// `fan<N>_fault`.
    pub fn fault_file(&self) -> (r: String)
        ensures
            r@ == seq!['f', 'a', 'n'] + decimal(self.spec_fan_index() as nat) + seq!['_', 'f', 'a', 'u', 'l', 't'],
    {
        proof {
            reveal_strlit("fan");
            reveal_strlit("_fault");
        }
        let mut s = String::from_str("fan");
        push_decimal(&mut s, self.fan_index);
        s.append("_fault");
        s
    }

    /// `fan<N>_input`.
    pub fn input_file(&self) -> (r: String)
        ensures
            r@ == channel_name(ChannelKind::Fan, self.spec_fan_index() as nat),
    {
        channel_filename(ChannelKind::Fan, self.fan_index)
    }

    /// `pwm<M>`, for a fan paired with a pwm channel.
    pub fn pwm_file(&self) -> (r: Option<String>)
        ensures
            match self.spec_pwm_index() {
                Some(p) => r is Some && r->0@ == channel_name(ChannelKind::Pwm, p as nat),
                None => r is None,
            },
    {
        match self.pwm_index {
            Some(p) => Some(channel_filename(ChannelKind::Pwm, p)),
            None => None,
        }
    }

    /// Presence, from the text of the fault attribute (`None`: unreadable).
    pub fn get_presence(&self, fault: Option<&str>) -> (r: bool)
        ensures
            r == healthy_from_fault(match fault { Some(t) => Some(t@), None => None }),
    {
        match fault {
            Some(t) => match parse_u32(t) {
                Some(v) => v == 0,
                None => true,
            },
            None => true,
        }
    }

    /// Health status, from the text of the fault attribute, read as presence is.
    pub fn get_status(&self, fault: Option<&str>) -> (r: bool)
        ensures
            r == healthy_from_fault(match fault { Some(t) => Some(t@), None => None }),
    {
        match fault {
            Some(t) => match parse_u32(t) {
                Some(v) => v == 0,
                None => true,
            },
            None => true,
        }
    }

    /// Speed as a percentage of full scale, from the text of the tachometer
    /// attribute; `None` where it is no number.
    pub fn get_speed(&self, rpm: &str) -> (r: Option<u32>)
        ensures
            match r {
                Some(v) => speed_from_text(rpm@) == Some(v as nat),
                None => speed_from_text(rpm@) is None,
            },
    {
        match parse_u32(rpm) {
            Some(v) => Some(rpm_to_percentage(v)),
            None => None,
        }
    }

    /// Target speed: the paired pwm duty as a percentage, from the text of the
    /// pwm attribute (`None`: unreadable); without a pairing, the current speed.
    /// `None` where the pwm attribute is needed and cannot be read as a number.
    pub fn get_target_speed(&self, speed: u32, pwm: Option<&str>) -> (r: Option<u32>)
        ensures
            match self.spec_pwm_index() {
                None => r == Some(speed),
                Some(_) => match pwm {
                    Some(t) => match parse_unsigned(t@, u32::MAX as nat) {
                        Some(v) => r is Some && r->0 as nat == pwm_percent(v),
                        None => r is None,
                    },
                    None => r is None,
                },
            },
    {
        match self.pwm_index {
            None => Some(speed),
            Some(_) => match pwm {
                Some(t) => match parse_u32(t) {
                    Some(v) => Some(pwm_to_percentage(v)),
                    None => None,
                },
                None => None,
            },
        }
    }

    /// Whether the speed lies more than the tolerance below the target.
    pub fn is_under_speed(&self, speed: u32, target: u32) -> (r: bool)
        ensures
            r == under_speed(speed as nat, target as nat),
    {
        speed < target.saturating_sub(SPEED_TOLERANCE)
    }

    /// Whether the speed lies more than the tolerance above the target.
    pub fn is_over_speed(&self, speed: u32, target: u32) -> (r: bool)
        ensures
            r == over_speed(speed as nat, target as nat),
    {
        speed > target.saturating_add(SPEED_TOLERANCE)
    }

    /// Fans here cannot sense their direction; they report intake.
    pub fn get_direction(&self) -> (r: FanDirection)
        ensures
            r == FanDirection::Intake,
    {
        FanDirection::Intake
    }

    /// The driver name read from the directory's `name` attribute
    /// (`None`: unreadable), else a fixed label.
    pub fn get_model(&self, driver_name: Option<&str>) -> (r: String)
        ensures
            r@ == match driver_name {
                Some(n) => n@,
                None => fallback_model(),
            },
    {
        proof {
            reveal_strlit("Mellanox Fan");
        }
        match driver_name {
            Some(n) => n.to_owned(),
            None => String::from_str("Mellanox Fan"),
        }
    }

    pub fn get_serial(&self) -> (r: String)
        ensures
            r@ == not_available(),
    {
        proof {
            reveal_strlit("N/A");
        }
        String::from_str("N/A")
    }

    pub fn is_replaceable(&self) -> (r: bool)
        ensures
            r,
    {
        true
    }

    pub fn get_position_in_parent(&self) -> (r: usize)
        ensures
            r == self.spec_fan_index(),
    {
        self.fan_index
    }

    /// There is no LED to drive: setting one always succeeds and changes nothing.
    pub fn set_status_led(&self, color: LedColor) -> (r: bool)
        ensures
            r,
    {
        true
    }

    /// The LED colour that the health status, from the fault attribute's
    /// text, stands for.
    pub fn get_status_led(&self, fault: Option<&str>) -> (r: LedColor)
        ensures
            r == if healthy_from_fault(match fault { Some(t) => Some(t@), None => None }) {
                LedColor::Green
            } else {
                LedColor::Red
            },
    {
        if self.get_status(fault) { LedColor::Green } else { LedColor::Red }
    }
}

/// The pwm duty value that sets a fan to a speed percentage (capped at 100).
pub fn pwm_value_for(speed_percentage: u32) -> (r: u32)
    ensures
        r as nat == percent_pwm(speed_percentage as nat),
{
    percentage_to_pwm(speed_percentage)
}

/// A named group of fans.
pub struct FanDrawer {
    name: String,
    fans: Vec<MlnxFan>,
}

impl FanDrawer {
    pub closed spec fn spec_name(&self) -> Seq<char> {
        self.name@
    }

    pub closed spec fn spec_fans(&self) -> Seq<MlnxFan> {
        self.fans@
    }

    pub fn new(name: String, fans: Vec<MlnxFan>) -> (r: FanDrawer)
        ensures
            r.spec_name() == name@,
            r.spec_fans() == fans@,
    {
        FanDrawer { name, fans }
    }

    pub fn get_name(&self) -> (r: String)
        ensures
            r@ == self.spec_name(),
    {
        self.name.clone()
    }

    pub fn get_all_fans(&self) -> (r: &[MlnxFan])
        ensures
            r@ == self.spec_fans(),
    {
        self.fans.as_slice()
    }

    pub fn get_presence(&self) -> (r: bool)
        ensures
            r,
    {
        true
    }

    /// Healthy when every fan of the drawer is, given each fan's status in order.
    pub fn get_status(&self, fan_statuses: &[bool]) -> (r: bool)
        ensures
            r == forall|i: int| 0 <= i < fan_statuses@.len() ==> #[trigger] fan_statuses@[i],
    {
        let n = fan_statuses.len();
        let mut i: usize = 0;
        while i < n
            invariant
                i <= n,
                n == fan_statuses@.len(),
                forall|j: int| 0 <= j < i ==> #[trigger] fan_statuses@[j],
            decreases n - i,
        {
            if !fan_statuses[i] {
                return false;
            }
            i = i + 1;
        }
        true
    }

    pub fn get_model(&self) -> (r: String)
        ensures
            r@ == unknown(),
    {
        proof {
            reveal_strlit("Unknown");
        }
        String::from_str("Unknown")
    }

    pub fn get_serial(&self) -> (r: String)
        ensures
            r@ == unknown(),
    {
        proof {
            reveal_strlit("Unknown");
        }
        String::from_str("Unknown")
    }

    pub fn is_replaceable(&self) -> (r: bool)
        ensures
            r,
    {
        true
    }

    /// There is no LED to drive: setting one always succeeds and changes nothing.
    pub fn set_status_led(&self, color: LedColor) -> (r: bool)
        ensures
            r,
    {
        true
    }

    pub fn get_status_led(&self) -> (r: LedColor)
        ensures
            r == LedColor::Green,
    {
        LedColor::Green
    }
}

} // verus!
