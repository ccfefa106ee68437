use vstd::prelude::*;
use crate::channel::{scan_channels, views_of, ChannelInventory, sorted_from, indices_of, ChannelKind};
use crate::fan::{FanDrawer, MlnxFan};
use crate::thermal::{MlnxThermal, MAX_SEED, MIN_SEED};
use crate::units::{decimal, push_decimal};

verus! {

/// How the sensors of one hardware-monitoring directory are discovered.
#[derive(Debug, Clone, Copy, PartialEq, Eq, Structural)]
pub enum DiscoveryStrategy {
    /// The switch ASIC's bank: thermals, and fans paired with pwm channels.
    SwitchAsic,
    /// A dedicated fan controller: fans only, none paired.
    FanOnly,
    /// Any other chip: thermals only.
    Generic,
}

pub open spec fn occurs_at(s: Seq<char>, p: Seq<char>, i: int) -> bool {
    0 <= i && i + p.len() <= s.len() && s.subrange(i, i + p.len()) == p
}

pub open spec fn contains_text(s: Seq<char>, p: Seq<char>) -> bool {
    exists|i: int| occurs_at(s, p, i)
}

pub open spec fn asic_marker() -> Seq<char> {
    seq!['m', 'l', 'x', 's', 'w']
}

pub open spec fn fan_marker() -> Seq<char> {
    seq!['f', 'a', 'n']
}

pub open spec fn cooling_marker() -> Seq<char> {
    seq!['c', 'o', 'o', 'l', 'i', 'n', 'g']
}

/// The strategy for a directory's declared name; the first marker found, in
/// this order, decides.
pub open spec fn strategy_for(name: Seq<char>) -> DiscoveryStrategy {
    if contains_text(name, asic_marker()) {
        DiscoveryStrategy::SwitchAsic
    } else if contains_text(name, fan_marker()) || contains_text(name, cooling_marker()) {
        DiscoveryStrategy::FanOnly
    } else {
        DiscoveryStrategy::Generic
    }
}

fn occurs_at_exec(s: &str, n: usize, p: &str, m: usize, i: usize) -> (r: bool)
    requires
        n == s@.len(),
        m == p@.len(),
    ensures
        r == occurs_at(s@, p@, i as int),
{
    if m > n || i > n - m {
        return false;
    }
    let mut j: usize = 0;
    while j < m
        invariant
            j <= m,
            i + m <= n,
            n == s@.len(),
            m == p@.len(),
            forall|k: int| 0 <= k < j ==> s@[i + k] == p@[k],
        decreases m - j,
    {
        if s.get_char(i + j) != p.get_char(j) {
            assert(s@.subrange(i as int, i + m)[j as int] != p@[j as int]);
            return false;
        }
        j = j + 1;
    }
    assert(s@.subrange(i as int, i + m) =~= p@);
    true
}

/// Whether `p` occurs in `s`.
pub fn contains(s: &str, p: &str) -> (r: bool)
    ensures
        r == contains_text(s@, p@),
{
    let n = s.unicode_len();
    let m = p.unicode_len();
    if m > n {
        return false;
    }
    let mut i: usize = 0;
    while i <= n - m
        invariant
            m <= n,
            n == s@.len(),
            m == p@.len(),
            forall|k: int| 0 <= k < i ==> !occurs_at(s@, p@, k),
        decreases n - m + 1 - i,
    {
        if occurs_at_exec(s, n, p, m, i) {
            return true;
        }
        if i == n - m {
            assert forall|k: int| !occurs_at(s@, p@, k) by {
                if 0 <= k < i {
                }
            }
            return false;
        }
        i = i + 1;
    }
    false
}

/// Picks the discovery strategy for a directory's declared name.
pub fn classify(name: &str) -> (r: DiscoveryStrategy)
    ensures
        r == strategy_for(name@),
{
    proof {
        reveal_strlit("mlxsw");
        reveal_strlit("fan");
        reveal_strlit("cooling");
        assert("mlxsw"@ =~= asic_marker());
        assert("fan"@ =~= fan_marker());
        assert("cooling"@ =~= cooling_marker());
    }
    if contains(name, "mlxsw") {
        DiscoveryStrategy::SwitchAsic
    } else if contains(name, "fan") || contains(name, "cooling") {
        DiscoveryStrategy::FanOnly
    } else {
        DiscoveryStrategy::Generic
    }
}

/// The pwm channel paired with the `i`-th fan channel: the `i`-th pwm channel,
/// if there is one.
pub open spec fn paired_pwm(pwms: Seq<usize>, i: int) -> Option<usize> {
    if 0 <= i < pwms.len() { Some(pwms[i]) } else { None }
}

/// `new` is `old` followed by one thermal per index of `idx`, in order, named
/// `prefix` and the index.
pub open spec fn thermals_added(
    old: Seq<MlnxThermal>,
    new: Seq<MlnxThermal>,
    path: Seq<char>,
    prefix: Seq<char>,
    idx: Seq<usize>,
) -> bool {
    &&& new.len() == old.len() + idx.len()
    &&& new.subrange(0, old.len() as int) == old
    &&& forall|i: int| 0 <= i < idx.len() ==> {
        let t = #[trigger] new[old.len() + i];
        &&& t.spec_temp_index() == idx[i]
        &&& t.spec_path() == path
        &&& t.spec_name() == prefix + decimal(idx[i] as nat)
        &&& t.spec_min() == MIN_SEED
        &&& t.spec_max() == MAX_SEED
    }
}

/// `new` is `old` followed by one fan per index of `idx`, in order, named
/// `prefix` and the index, the `i`-th paired with the `i`-th of `pwms`.
pub open spec fn fans_added(
    old: Seq<MlnxFan>,
    new: Seq<MlnxFan>,
    path: Seq<char>,
    prefix: Seq<char>,
    idx: Seq<usize>,
    pwms: Seq<usize>,
) -> bool {
    &&& new.len() == old.len() + idx.len()
    &&& new.subrange(0, old.len() as int) == old
    &&& forall|i: int| 0 <= i < idx.len() ==> {
        let f = #[trigger] new[old.len() + i];
        &&& f.spec_fan_index() == idx[i]
        &&& f.spec_path() == path
        &&& f.spec_name() == prefix + decimal(idx[i] as nat)
        &&& f.spec_pwm_index() == paired_pwm(pwms, i)
    }
}

pub open spec fn thermal_prefix() -> Seq<char> {
    seq!['T', 'h', 'e', 'r', 'm', 'a', 'l', ' ']
}

pub open spec fn fan_prefix() -> Seq<char> {
    seq!['F', 'a', 'n', ' ']
}

/// What discovery adds for one directory, given its name, path and channels.
pub open spec fn discovered(
    old_fans: Seq<MlnxFan>,
    old_thermals: Seq<MlnxThermal>,
    fans: Seq<MlnxFan>,
    thermals: Seq<MlnxThermal>,
    path: Seq<char>,
    name: Seq<char>,
    temps: Seq<usize>,
    fan_idx: Seq<usize>,
    pwms: Seq<usize>,
) -> bool {
    match strategy_for(name) {
        DiscoveryStrategy::SwitchAsic => {
            &&& thermals_added(old_thermals, thermals, path, thermal_prefix(), temps)
            &&& fans_added(old_fans, fans, path, fan_prefix(), fan_idx, pwms)
        },
        DiscoveryStrategy::FanOnly => {
            &&& thermals == old_thermals
            &&& fans_added(old_fans, fans, path, name + seq![' '] + fan_prefix(), fan_idx, Seq::empty())
        },
        DiscoveryStrategy::Generic => {
            &&& thermals_added(old_thermals, thermals, path, name + seq![' '] + thermal_prefix(), temps)
            &&& fans == old_fans
        },
    }
}

fn label(prefix: &str, index: usize) -> (r: String)
    ensures
        r@ == prefix@ + decimal(index as nat),
{
    let mut s = prefix.to_owned();
    push_decimal(&mut s, index);
    s
}

/// For a directory whose name holds the switch-ASIC marker, discovery adds
/// exactly one fan per fan-speed channel file, in ascending index order, and
/// pairs the i-th of them with the i-th pwm channel in ascending order, or
/// with none where there are fewer pwm channels than fans.
pub proof fn lemma_asic_fans_paired(
    old_fans: Seq<MlnxFan>,
    old_thermals: Seq<MlnxThermal>,
    fans: Seq<MlnxFan>,
    thermals: Seq<MlnxThermal>,
    path: Seq<char>,
    name: Seq<char>,
    names: Seq<Seq<char>>,
    t: Seq<usize>,
    f: Seq<usize>,
    p: Seq<usize>,
)
    requires
        contains_text(name, asic_marker()),
        sorted_from(t, indices_of(names, ChannelKind::Temp)),
        sorted_from(f, indices_of(names, ChannelKind::Fan)),
        sorted_from(p, indices_of(names, ChannelKind::Pwm)),
        discovered(old_fans, old_thermals, fans, thermals, path, name, t, f, p),
    ensures
        fans.len() == old_fans.len() + indices_of(names, ChannelKind::Fan).len(),
        forall|i: int| 0 <= i < f.len() ==> {
            &&& (#[trigger] fans[old_fans.len() + i]).spec_fan_index() == f[i]
            &&& fans[old_fans.len() + i].spec_pwm_index() == if i < p.len() {
                Some(p[i])
            } else {
                None::<usize>
            }
        },
{
    f.to_multiset_ensures();
    indices_of(names, ChannelKind::Fan).to_multiset_ensures();
}

/// The registry of every fan, fan drawer and thermal that discovery found.
pub struct MlnxChassis {
    fans: Vec<MlnxFan>,
    fan_drawers: Vec<FanDrawer>,
    thermals: Vec<MlnxThermal>,
}

impl MlnxChassis {
    pub closed spec fn spec_fans(&self) -> Seq<MlnxFan> {
        self.fans@
    }

    pub closed spec fn spec_fan_drawers(&self) -> Seq<FanDrawer> {
        self.fan_drawers@
    }

    pub closed spec fn spec_thermals(&self) -> Seq<MlnxThermal> {
        self.thermals@
    }

    /// An empty registry, before any directory was processed.
    pub fn new() -> (r: MlnxChassis)
        ensures
            r.spec_fans().len() == 0,
            r.spec_fan_drawers().len() == 0,
            r.spec_thermals().len() == 0,
    {
        MlnxChassis { fans: Vec::new(), fan_drawers: Vec::new(), thermals: Vec::new() }
    }

    fn add_thermals(&mut self, hwmon_path: &str, prefix: &str, idx: &Vec<usize>)
        ensures
            thermals_added(old(self).thermals@, final(self).thermals@, hwmon_path@, prefix@, idx@),
            final(self).fans@ == old(self).fans@,
            final(self).fan_drawers@ == old(self).fan_drawers@,
    {
        let ghost start = self.thermals@;
        assert(self.thermals@.subrange(0, start.len() as int) =~= start);
        let n = idx.len();
        let mut i: usize = 0;
        while i < n
            invariant
                i <= n,
                n == idx@.len(),
                self.fans@ == old(self).fans@,
                self.fan_drawers@ == old(self).fan_drawers@,
                start == old(self).thermals@,
                thermals_added(start, self.thermals@, hwmon_path@, prefix@, idx@.subrange(0, i as int)),
            decreases n - i,
        {
            let t = MlnxThermal::new(label(prefix, idx[i]), hwmon_path.to_owned(), idx[i]);
            let ghost before = self.thermals@;
            self.thermals.push(t);
            proof {
                assert(self.thermals@.subrange(0, start.len() as int) =~= before.subrange(0, start.len() as int));
                assert forall|k: int| 0 <= k < i + 1 implies {
                    let t = #[trigger] self.thermals@[start.len() + k];
                    &&& t.spec_temp_index() == idx@.subrange(0, i + 1)[k]
                    &&& t.spec_path() == hwmon_path@
                    &&& t.spec_name() == prefix@ + decimal(idx@.subrange(0, i + 1)[k] as nat)
                    &&& t.spec_min() == MIN_SEED
                    &&& t.spec_max() == MAX_SEED
                } by {
                    if k < i {
                        assert(self.thermals@[start.len() + k] == before[start.len() + k]);
                        assert(idx@.subrange(0, i as int)[k] == idx@.subrange(0, i + 1)[k]);
                    }
                }
            }
            i = i + 1;
        }
        assert(idx@.subrange(0, n as int) =~= idx@);
    }

    fn add_fans(&mut self, hwmon_path: &str, prefix: &str, idx: &Vec<usize>, pwms: &Vec<usize>)
        ensures
            fans_added(old(self).fans@, final(self).fans@, hwmon_path@, prefix@, idx@, pwms@),
            final(self).thermals@ == old(self).thermals@,
            final(self).fan_drawers@ == old(self).fan_drawers@,
    {
        let ghost start = self.fans@;
        assert(self.fans@.subrange(0, start.len() as int) =~= start);
        let n = idx.len();
        let mut i: usize = 0;
        while i < n
            invariant
                i <= n,
                n == idx@.len(),
                self.thermals@ == old(self).thermals@,
                self.fan_drawers@ == old(self).fan_drawers@,
                start == old(self).fans@,
                fans_added(start, self.fans@, hwmon_path@, prefix@, idx@.subrange(0, i as int), pwms@),
            decreases n - i,
        {
            let pwm = if i < pwms.len() { Some(pwms[i]) } else { None };
            let f = MlnxFan::new(label(prefix, idx[i]), hwmon_path.to_owned(), idx[i], pwm);
            let ghost before = self.fans@;
            self.fans.push(f);
            proof {
                assert(self.fans@.subrange(0, start.len() as int) =~= before.subrange(0, start.len() as int));
                assert forall|k: int| 0 <= k < i + 1 implies {
                    let f = #[trigger] self.fans@[start.len() + k];
                    &&& f.spec_fan_index() == idx@.subrange(0, i + 1)[k]
                    &&& f.spec_path() == hwmon_path@
                    &&& f.spec_name() == prefix@ + decimal(idx@.subrange(0, i + 1)[k] as nat)
                    &&& f.spec_pwm_index() == paired_pwm(pwms@, k)
                } by {
                    if k < i {
                        assert(self.fans@[start.len() + k] == before[start.len() + k]);
                        assert(idx@.subrange(0, i as int)[k] == idx@.subrange(0, i + 1)[k]);
                    }
                }
            }
            i = i + 1;
        }
        assert(idx@.subrange(0, n as int) =~= idx@);
    }


    fn discover_mlxsw_sensors(&mut self, hwmon_path: &str, inv: &ChannelInventory)
        ensures
            thermals_added(old(self).thermals@, final(self).thermals@, hwmon_path@, thermal_prefix(), inv.temps@),
            fans_added(old(self).fans@, final(self).fans@, hwmon_path@, fan_prefix(), inv.fans@, inv.pwms@),
            final(self).fan_drawers@ == old(self).fan_drawers@,
    {
        proof {
            reveal_strlit("Thermal ");
            reveal_strlit("Fan ");
            assert("Thermal "@ =~= thermal_prefix());
            assert("Fan "@ =~= fan_prefix());
        }
        self.add_thermals(hwmon_path, "Thermal ", &inv.temps);
        self.add_fans(hwmon_path, "Fan ", &inv.fans, &inv.pwms);
    }

    fn discover_fans(&mut self, hwmon_path: &str, name: &str, inv: &ChannelInventory)
        ensures
            fans_added(old(self).fans@, final(self).fans@, hwmon_path@, name@ + seq![' '] + fan_prefix(), inv.fans@, Seq::empty()),
            final(self).thermals@ == old(self).thermals@,
            final(self).fan_drawers@ == old(self).fan_drawers@,
    {
        proof {
            reveal_strlit(" Fan ");
        }
        let mut prefix = name.to_owned();
        prefix.append(" Fan ");
        assert(prefix@ =~= name@ + seq![' '] + fan_prefix());
        let none: Vec<usize> = Vec::new();
        self.add_fans(hwmon_path, prefix.as_str(), &inv.fans, &none);
    }

    fn discover_generic_sensors(&mut self, hwmon_path: &str, name: &str, inv: &ChannelInventory)
        ensures
            thermals_added(old(self).thermals@, final(self).thermals@, hwmon_path@, name@ + seq![' '] + thermal_prefix(), inv.temps@),
            final(self).fans@ == old(self).fans@,
            final(self).fan_drawers@ == old(self).fan_drawers@,
    {
        proof {
            reveal_strlit(" Thermal ");
        }
        let mut prefix = name.to_owned();
        prefix.append(" Thermal ");
        assert(prefix@ =~= name@ + seq![' '] + thermal_prefix());
        self.add_thermals(hwmon_path, prefix.as_str(), &inv.temps);
    }

    /// Adds the sensors of one hardware-monitoring directory, given its path,
    /// its declared name and the names of its attribute files, after those
    /// already found.
    pub fn process_hwmon_device(&mut self, hwmon_path: &str, name: &str, filenames: &Vec<String>)
        ensures
            exists|t: Seq<usize>, f: Seq<usize>, p: Seq<usize>|
                {
                    &&& sorted_from(t, indices_of(views_of(filenames@), ChannelKind::Temp))
                    &&& sorted_from(f, indices_of(views_of(filenames@), ChannelKind::Fan))
                    &&& sorted_from(p, indices_of(views_of(filenames@), ChannelKind::Pwm))
                    &&& #[trigger] discovered(
                        old(self).spec_fans(),
                        old(self).spec_thermals(),
                        final(self).spec_fans(),
                        final(self).spec_thermals(),
                        hwmon_path@,
                        name@,
                        t,
                        f,
                        p,
                    )
                },
            final(self).spec_fan_drawers() == old(self).spec_fan_drawers(),
    {
        let inv = scan_channels(filenames);
        match classify(name) {
            DiscoveryStrategy::SwitchAsic => self.discover_mlxsw_sensors(hwmon_path, &inv),
            DiscoveryStrategy::FanOnly => self.discover_fans(hwmon_path, name, &inv),
            DiscoveryStrategy::Generic => self.discover_generic_sensors(hwmon_path, name, &inv),
        }
        assert(discovered(
            old(self).spec_fans(),
            old(self).spec_thermals(),
            self.spec_fans(),
            self.spec_thermals(),
            hwmon_path@,
            name@,
            inv.temps@,
            inv.fans@,
            inv.pwms@,
        ));
    }

    pub fn get_fans(&self) -> (r: &[MlnxFan])
        ensures
            r@ == self.spec_fans(),
    {
        self.fans.as_slice()
    }

    pub fn get_fan_drawers(&self) -> (r: &[FanDrawer])
        ensures
            r@ == self.spec_fan_drawers(),
    {
        self.fan_drawers.as_slice()
    }

    pub fn get_thermals(&self) -> (r: &[MlnxThermal])
        ensures
            r@ == self.spec_thermals(),
    {
        self.thermals.as_slice()
    }

    /// Hands the three collections over to the caller.
    pub fn into_components(self) -> (r: (Vec<MlnxFan>, Vec<FanDrawer>, Vec<MlnxThermal>))
        ensures
            r.0@ == self.spec_fans(),
            r.1@ == self.spec_fan_drawers(),
            r.2@ == self.spec_thermals(),
    {
        (self.fans, self.fan_drawers, self.thermals)
    }
}

} // verus!
