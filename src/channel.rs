use vstd::prelude::*;
use crate::units::{
    decimal, is_digit, lemma_decimal_is_digits, lemma_parse_decimal, parse_unsigned, parse_usize,
    push_decimal,
};

verus! {

/// The kind of a hardware-monitoring channel, as its attribute file names it.
#[derive(Debug, Clone, Copy, PartialEq, Eq, Structural)]
pub enum ChannelKind {
    Temp,
    Fan,
    Pwm,
}

pub open spec fn has_prefix(s: Seq<char>, p: Seq<char>) -> bool {
    p.len() <= s.len() && s.subrange(0, p.len() as int) == p
}

pub open spec fn has_suffix(s: Seq<char>, p: Seq<char>) -> bool {
    p.len() <= s.len() && s.subrange(s.len() - p.len(), s.len() as int) == p
}

pub open spec fn has_char(s: Seq<char>, c: char) -> bool {
    exists|i: int| 0 <= i < s.len() && s[i] == c
}

pub open spec fn temp_word() -> Seq<char> {
    seq!['t', 'e', 'm', 'p']
}

pub open spec fn fan_word() -> Seq<char> {
    seq!['f', 'a', 'n']
}

pub open spec fn pwm_word() -> Seq<char> {
    seq!['p', 'w', 'm']
}

pub open spec fn input_word() -> Seq<char> {
    seq!['_', 'i', 'n', 'p', 'u', 't']
}

/// The index that `text` denotes, as a `usize`.
pub open spec fn index_of(text: Seq<char>) -> Option<usize> {
    match parse_unsigned(text, usize::MAX as nat) {
        Some(v) => Some(v as usize),
        None => None,
    }
}

/// `<word><index>_input`, where the index text lies between word and suffix.
pub open spec fn input_index(name: Seq<char>, word: Seq<char>) -> Option<usize> {
    if name.len() >= word.len() + input_word().len() {
        index_of(name.subrange(word.len() as int, name.len() - input_word().len()))
    } else {
        None
    }
}

/// The channel that an attribute file name denotes: `temp<N>_input`,
/// `fan<N>_input` or `pwm<N>` (with no `_` anywhere). Other names denote none.
pub open spec fn channel_of(name: Seq<char>) -> Option<(ChannelKind, usize)> {
    if has_prefix(name, temp_word()) && has_suffix(name, input_word()) {
        match input_index(name, temp_word()) {
            Some(i) => Some((ChannelKind::Temp, i)),
            None => None,
        }
    } else if has_prefix(name, fan_word()) && has_suffix(name, input_word()) {
        match input_index(name, fan_word()) {
            Some(i) => Some((ChannelKind::Fan, i)),
            None => None,
        }
    } else if has_prefix(name, pwm_word()) && !has_char(name, '_') {
        match index_of(name.subrange(3, name.len() as int)) {
            Some(i) => Some((ChannelKind::Pwm, i)),
            None => None,
        }
    } else {
        None
    }
}

/// The attribute file name of a channel.
pub open spec fn channel_name(kind: ChannelKind, index: nat) -> Seq<char> {
    match kind {
        ChannelKind::Temp => temp_word() + decimal(index) + input_word(),
        ChannelKind::Fan => fan_word() + decimal(index) + input_word(),
        ChannelKind::Pwm => pwm_word() + decimal(index),
    }
}

fn starts_with(s: &str, p: &str) -> (r: bool)
    ensures
        r == has_prefix(s@, p@),
{
    let n = s.unicode_len();
    let m = p.unicode_len();
    if m > n {
        return false;
    }
    let mut i: usize = 0;
    while i < m
        invariant
            i <= m <= n,
            n == s@.len(),
            m == p@.len(),
            forall|j: int| 0 <= j < i ==> s@[j] == p@[j],
        decreases m - i,
    {
        if s.get_char(i) != p.get_char(i) {
            assert(s@.subrange(0, m as int)[i as int] != p@[i as int]);
            return false;
        }
        i = i + 1;
    }
    assert(s@.subrange(0, m as int) =~= p@);
    true
}

fn ends_with(s: &str, p: &str) -> (r: bool)
    ensures
        r == has_suffix(s@, p@),
{
    let n = s.unicode_len();
    let m = p.unicode_len();
    if m > n {
        return false;
    }
    let off = n - m;
    let mut i: usize = 0;
    while i < m
        invariant
            i <= m <= n,
            off == n - m,
            n == s@.len(),
            m == p@.len(),
            forall|j: int| 0 <= j < i ==> s@[off + j] == p@[j],
        decreases m - i,
    {
        if s.get_char(off + i) != p.get_char(i) {
            assert(s@.subrange(off as int, n as int)[i as int] != p@[i as int]);
            return false;
        }
        i = i + 1;
    }
    assert(s@.subrange(off as int, n as int) =~= p@);
    true
}

fn contains_char(s: &str, c: char) -> (r: bool)
    ensures
        r == has_char(s@, c),
{
    let n = s.unicode_len();
    let mut i: usize = 0;
    while i < n
        invariant
            i <= n,
            n == s@.len(),
            forall|j: int| 0 <= j < i ==> s@[j] != c,
        decreases n - i,
    {
        if s.get_char(i) == c {
            return true;
        }
        i = i + 1;
    }
    false
}

/// Reads the channel kind and index from an attribute file name.
pub fn parse_channel(name: &str) -> (r: Option<(ChannelKind, usize)>)
    ensures
        r == channel_of(name@),
{
    proof {
        reveal_strlit("temp");
        reveal_strlit("fan");
        reveal_strlit("pwm");
        reveal_strlit("_input");
        assert("temp"@ =~= temp_word());
        assert("fan"@ =~= fan_word());
        assert("pwm"@ =~= pwm_word());
        assert("_input"@ =~= input_word());
    }
    let n = name.unicode_len();
    if starts_with(name, "temp") && ends_with(name, "_input") {
        if n < 10 {
            return None;
        }
        let mid = name.substring_char(4, n - 6);
        match parse_usize(mid) {
            Some(i) => Some((ChannelKind::Temp, i)),
            None => None,
        }
    } else if starts_with(name, "fan") && ends_with(name, "_input") {
        if n < 9 {
            return None;
        }
        let mid = name.substring_char(3, n - 6);
        match parse_usize(mid) {
            Some(i) => Some((ChannelKind::Fan, i)),
            None => None,
        }
    } else if starts_with(name, "pwm") && !contains_char(name, '_') {
        let rest = name.substring_char(3, n);
        match parse_usize(rest) {
            Some(i) => Some((ChannelKind::Pwm, i)),
            None => None,
        }
    } else {
        None
    }
}

/// The attribute file name of a channel: `temp<N>_input`, `fan<N>_input` or `pwm<N>`.
pub fn channel_filename(kind: ChannelKind, index: usize) -> (r: String)
    ensures
        r@ == channel_name(kind, index as nat),
{
    proof {
        reveal_strlit("temp");
        reveal_strlit("fan");
        reveal_strlit("pwm");
        reveal_strlit("_input");
    }
    let mut s = match kind {
        ChannelKind::Temp => String::from_str("temp"),
        ChannelKind::Fan => String::from_str("fan"),
        ChannelKind::Pwm => String::from_str("pwm"),
    };
    push_decimal(&mut s, index);
    match kind {
        ChannelKind::Pwm => {},
        _ => s.append("_input"),
    }
    s
}

proof fn lemma_temp_round_trip(index: usize)
    ensures
        channel_of(channel_name(ChannelKind::Temp, index as nat)) == Some((ChannelKind::Temp, index)),
{
    let d = decimal(index as nat);
    lemma_decimal_is_digits(index as nat);
    lemma_parse_decimal(index as nat, usize::MAX as nat);
    let name = channel_name(ChannelKind::Temp, index as nat);
    assert(name.subrange(0, 4) =~= temp_word());
    assert(name.subrange(name.len() - 6, name.len() as int) =~= input_word());
    assert(name.subrange(4, name.len() - 6) =~= d);
}

proof fn lemma_fan_round_trip(index: usize)
    ensures
        channel_of(channel_name(ChannelKind::Fan, index as nat)) == Some((ChannelKind::Fan, index)),
{
    let d = decimal(index as nat);
    lemma_decimal_is_digits(index as nat);
    lemma_parse_decimal(index as nat, usize::MAX as nat);
    let name = channel_name(ChannelKind::Fan, index as nat);
    assert(name[0] == 'f');
    assert(!has_prefix(name, temp_word())) by {
        if has_prefix(name, temp_word()) {
            assert(name.subrange(0, 4)[0] == name[0]);
        }
    };
    assert(name.subrange(0, 3) =~= fan_word());
    assert(name.subrange(name.len() - 6, name.len() as int) =~= input_word());
    assert(name.subrange(3, name.len() - 6) =~= d);
}

proof fn lemma_pwm_round_trip(index: usize)
    ensures
        channel_of(channel_name(ChannelKind::Pwm, index as nat)) == Some((ChannelKind::Pwm, index)),
{
    let d = decimal(index as nat);
    lemma_decimal_is_digits(index as nat);
    lemma_parse_decimal(index as nat, usize::MAX as nat);
    let name = channel_name(ChannelKind::Pwm, index as nat);
    assert(name[0] == 'p');
    assert(!has_prefix(name, temp_word())) by {
        if has_prefix(name, temp_word()) {
            assert(name.subrange(0, 4)[0] == name[0]);
        }
    };
    assert(!has_prefix(name, fan_word())) by {
        if has_prefix(name, fan_word()) {
            assert(name.subrange(0, 3)[0] == name[0]);
        }
    };
    assert(name.subrange(0, 3) =~= pwm_word());
    assert(!has_char(name, '_')) by {
        if has_char(name, '_') {
            let i = choose|i: int| 0 <= i < name.len() && name[i] == '_';
            if i >= 3 {
                assert(name[i] == d[i - 3]);
                assert(is_digit(d[i - 3]));
            }
        }
    };
    assert(name.subrange(3, name.len() as int) =~= d);
}

/// A channel's file name, read back, gives the channel it was made from.
pub proof fn lemma_channel_round_trip(kind: ChannelKind, index: usize)
    ensures
        channel_of(channel_name(kind, index as nat)) == Some((kind, index)),
{
    match kind {
        ChannelKind::Temp => lemma_temp_round_trip(index),
        ChannelKind::Fan => lemma_fan_round_trip(index),
        ChannelKind::Pwm => lemma_pwm_round_trip(index),
    }
}

/// The channels one hardware-monitoring directory exposes, each list in
/// ascending index order.
pub struct ChannelInventory {
    pub temps: Vec<usize>,
    pub fans: Vec<usize>,
    pub pwms: Vec<usize>,
}

pub open spec fn views_of(names: Seq<String>) -> Seq<Seq<char>> {
    names.map_values(|s: String| s@)
}

/// The indices of the channels of `kind` among `names`, in listing order.
pub open spec fn indices_of(names: Seq<Seq<char>>, kind: ChannelKind) -> Seq<usize>
    decreases names.len(),
{
    if names.len() == 0 {
        Seq::empty()
    } else {
        let rest = indices_of(names.drop_last(), kind);
        match channel_of(names.last()) {
            Some((k, i)) => if k == kind { rest.push(i) } else { rest },
            None => rest,
        }
    }
}

pub open spec fn is_sorted(s: Seq<usize>) -> bool {
    forall|i: int, j: int| 0 <= i < j < s.len() ==> s[i] <= s[j]
}

/// `s` holds the values of `of`, each as often, in ascending order.
pub open spec fn sorted_from(s: Seq<usize>, of: Seq<usize>) -> bool {
    is_sorted(s) && s.to_multiset() == of.to_multiset()
}

impl ChannelInventory {
    pub open spec fn lists(&self, names: Seq<Seq<char>>) -> bool {
        &&& sorted_from(self.temps@, indices_of(names, ChannelKind::Temp))
        &&& sorted_from(self.fans@, indices_of(names, ChannelKind::Fan))
        &&& sorted_from(self.pwms@, indices_of(names, ChannelKind::Pwm))
    }
}

/// Puts `x` into the sorted list `v`, keeping it sorted.
fn insert_sorted(v: &mut Vec<usize>, x: usize)
    requires
        is_sorted(old(v)@),
    ensures
        is_sorted(final(v)@),
        final(v)@.to_multiset() == old(v)@.to_multiset().insert(x),
{
    let n = v.len();
    let mut i: usize = 0;
    while i < n && v[i] <= x
        invariant
            i <= n,
            n == v@.len(),
            forall|j: int| 0 <= j < i ==> v@[j] <= x,
        decreases n - i,
    {
        i = i + 1;
    }
    let ghost before = v@;
    v.insert(i, x);
    proof {
        let t = v@;
        before.insert_ensures(i as int, x);
        assert(t.remove(i as int) =~= before);
        t.to_multiset_ensures();
        assert(t.to_multiset().count(x) > 0);
        assert(t.to_multiset() =~= before.to_multiset().insert(x));
        assert forall|a: int, b: int| 0 <= a < b < t.len() implies t[a] <= t[b] by {
            if b < i {
            } else if a < i && b == i {
            } else if a < i {
                assert(t[b] == before[b - 1]);
            } else if a == i {
                assert(t[b] == before[b - 1]);
            } else {
                assert(t[a] == before[a - 1]);
                assert(t[b] == before[b - 1]);
            }
        }
    }
}

/// Lists the channels among the attribute file names of one directory;
/// names that denote no channel are skipped.
pub fn scan_channels(names: &Vec<String>) -> (r: ChannelInventory)
    ensures
        r.lists(views_of(names@)),
{
    let mut inv = ChannelInventory { temps: Vec::new(), fans: Vec::new(), pwms: Vec::new() };
    let n = names.len();
    let mut i: usize = 0;
    while i < n
        invariant
            i <= n,
            n == names@.len(),
            inv.lists(views_of(names@).subrange(0, i as int)),
        decreases n - i,
    {
        let ghost pre = views_of(names@).subrange(0, i as int);
        let ghost next = views_of(names@).subrange(0, i + 1);
        proof {
            assert(next.drop_last() =~= pre);
            assert(next.last() == names@[i as int]@);
            Seq::<usize>::empty().to_multiset_ensures();
        }
        match parse_channel(names[i].as_str()) {
            Some((ChannelKind::Temp, idx)) => {
                proof { indices_of(pre, ChannelKind::Temp).to_multiset_ensures(); }
                insert_sorted(&mut inv.temps, idx);
            },
            Some((ChannelKind::Fan, idx)) => {
                proof { indices_of(pre, ChannelKind::Fan).to_multiset_ensures(); }
                insert_sorted(&mut inv.fans, idx);
            },
            Some((ChannelKind::Pwm, idx)) => {
                proof { indices_of(pre, ChannelKind::Pwm).to_multiset_ensures(); }
                insert_sorted(&mut inv.pwms, idx);
            },
            None => {},
        }
        i = i + 1;
    }
    assert(views_of(names@).subrange(0, n as int) =~= views_of(names@));
    inv
}

} // verus!
