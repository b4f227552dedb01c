//! Settings kept by the bot's earlier versions, and their conversion.

use vstd::prelude::*;
use crate::text::{parse_u64, u64_text_value};

verus! {

/// The settings of the earlier versions, as they were exported.
#[derive(Debug, Clone)]
pub struct Legacy {
    pub settings: Vec<LegacySetting>,
    pub users: Vec<LegacyUser>,
    pub channels: Vec<LegacyChannel>,
}

/// A server's command prefix, with the server's id as text.
#[derive(Debug, Clone)]
pub struct LegacySetting {
    pub id: String,
    pub prefix: String,
}

/// A server's command prefix.
#[derive(Debug, Clone)]
pub struct GuildSettings {
    pub guild: u64,
    pub prefix: String,
}

impl GuildSettings {
    /// The settings of a server from its exported form; the id must be a number
    /// as `u64::from_str` reads it.
    pub fn from(s: LegacySetting) -> (r: GuildSettings)
        requires
            u64_text_value(s.id@) is Some,
        ensures
            u64_text_value(s.id@) == Some(r.guild as nat),
            r.prefix == s.prefix,
    {
        let guild = match parse_u64(s.id.as_str()) {
            Some(g) => g,
            None => 0,
        };
        GuildSettings { guild, prefix: s.prefix }
    }
}

/// The reminder times of the earlier versions, each set or not.
#[derive(Debug, Clone)]
pub struct LegacyUser {
    pub id: String,
    pub t_24h: Option<String>,
    pub t_12h: Option<String>,
    pub t_6h: Option<String>,
    pub t_3h: Option<String>,
    pub t_1h: Option<String>,
    pub t_30m: Option<String>,
    pub t_15m: Option<String>,
    pub t_5m: Option<String>,
    pub t_1m: Option<String>,
}

/// The reminder times of a channel in the earlier versions.
#[derive(Debug, Clone)]
pub struct LegacyChannel {
    pub id: String,
    pub t_24h: Option<String>,
    pub t_12h: Option<String>,
    pub t_6h: Option<String>,
    pub t_3h: Option<String>,
    pub t_1h: Option<String>,
    pub t_30m: Option<String>,
    pub t_15m: Option<String>,
    pub t_5m: Option<String>,
    pub t_1m: Option<String>,
}

/// The names of the reminder times that are set, from the longest to the shortest.
pub open spec fn set_times(flags: Seq<bool>) -> Seq<&'static str> {
    let names = seq!["24h", "12h", "6h", "3h", "1h", "30m", "15m", "5m", "1m"];
    Seq::new(9, |i: int| i).filter(|i: int| flags[i]).map_values(|i: int| names[i])
}

/// The names of the reminder times set in nine flags, in order.
fn times_of(flags: [bool; 9]) -> (r: Vec<&'static str>)
    ensures
        r@ == set_times(flags@),
{
    let names: [&'static str; 9] = ["24h", "12h", "6h", "3h", "1h", "30m", "15m", "5m", "1m"];
    let ghost idx = Seq::new(9, |i: int| i);
    let ghost keep = |i: int| flags@[i];
    let ghost name_of = |i: int| seq!["24h", "12h", "6h", "3h", "1h", "30m", "15m", "5m", "1m"][i];
    assert(names@ =~= seq!["24h", "12h", "6h", "3h", "1h", "30m", "15m", "5m", "1m"]);
    let mut r: Vec<&'static str> = Vec::new();
    let mut i: usize = 0;
    assert(idx.take(0).filter(keep) =~= Seq::<int>::empty());
    while i < 9
        invariant
            i <= 9,
            idx == Seq::new(9, |i: int| i),
            keep == (|i: int| flags@[i]),
            name_of == (|i: int| seq!["24h", "12h", "6h", "3h", "1h", "30m", "15m", "5m", "1m"][i]),
            names@ == seq!["24h", "12h", "6h", "3h", "1h", "30m", "15m", "5m", "1m"],
            r@ == idx.take(i as int).filter(keep).map_values(name_of),
        decreases 9 - i,
    {
        proof {
            assert(idx.take(i + 1) =~= idx.take(i as int).push(i as int));
            idx.take(i as int).lemma_filter_push(i as int, keep);
        }
        if flags[i] {
            r.push(names[i]);
        }
        proof {
            assert(r@ =~= idx.take(i + 1).filter(keep).map_values(name_of));
        }
        i = i + 1;
    }
    assert(idx.take(9) =~= idx);
    r
}

impl LegacyUser {
    /// The reminder times that are set, as [`set_times`] lists them.
    pub fn to_vec(&self) -> (r: Vec<&'static str>)
        ensures
            r@ == set_times(
                seq![
                    self.t_24h is Some,
                    self.t_12h is Some,
                    self.t_6h is Some,
                    self.t_3h is Some,
                    self.t_1h is Some,
                    self.t_30m is Some,
                    self.t_15m is Some,
                    self.t_5m is Some,
                    self.t_1m is Some,
                ],
            ),
    {
        let flags = [
            self.t_24h.is_some(),
            self.t_12h.is_some(),
            self.t_6h.is_some(),
            self.t_3h.is_some(),
            self.t_1h.is_some(),
            self.t_30m.is_some(),
            self.t_15m.is_some(),
            self.t_5m.is_some(),
            self.t_1m.is_some(),
        ];
        let r = times_of(flags);
        assert(flags@ =~= seq![
            self.t_24h is Some,
            self.t_12h is Some,
            self.t_6h is Some,
            self.t_3h is Some,
            self.t_1h is Some,
            self.t_30m is Some,
            self.t_15m is Some,
            self.t_5m is Some,
            self.t_1m is Some,
        ]);
        r
    }
}

impl LegacyChannel {
    /// The reminder times that are set, as [`set_times`] lists them.
    pub fn to_vec(&self) -> (r: Vec<&'static str>)
        ensures
            r@ == set_times(
                seq![
                    self.t_24h is Some,
                    self.t_12h is Some,
                    self.t_6h is Some,
                    self.t_3h is Some,
                    self.t_1h is Some,
                    self.t_30m is Some,
                    self.t_15m is Some,
                    self.t_5m is Some,
                    self.t_1m is Some,
                ],
            ),
    {
        let flags = [
            self.t_24h.is_some(),
            self.t_12h.is_some(),
            self.t_6h.is_some(),
            self.t_3h.is_some(),
            self.t_1h.is_some(),
            self.t_30m.is_some(),
            self.t_15m.is_some(),
            self.t_5m.is_some(),
            self.t_1m.is_some(),
        ];
        let r = times_of(flags);
        assert(flags@ =~= seq![
            self.t_24h is Some,
            self.t_12h is Some,
            self.t_6h is Some,
            self.t_3h is Some,
            self.t_1h is Some,
            self.t_30m is Some,
            self.t_15m is Some,
            self.t_5m is Some,
            self.t_1m is Some,
        ]);
        r
    }
}

} // verus!
