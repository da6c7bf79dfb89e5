//! Bot registry: which route reaches each bot account.
//!
//! The registry maps a bot identity to the route descriptor of the connector
//! that currently serves it. Writes are batch operations scoped to one owning
//! connector: a READY replaces that connector's whole contribution, and a
//! teardown removes it; other connectors' entries are never touched. A lookup
//! that finds nothing is a distinct "no route" outcome, apart from any
//! remote API error.

use vstd::prelude::*;

use crate::structs::{BotId, BotIdV, Login, Status};

verus! {

broadcast use vstd::std_specs::vec::group_vec_axioms;

/// How to reach the adapter behind one connector: host, port and an optional
/// bearer credential.
#[derive(Debug, PartialEq)]
pub struct NetSDKConfig {
    pub host: String,
    pub port: u16,
    pub authorize: Option<String>,
}

/// Mathematical view of a route descriptor.
pub ghost struct RouteV {
    pub host: Seq<char>,
    pub port: u16,
    pub authorize: Option<Seq<char>>,
}

impl View for NetSDKConfig {
    type V = RouteV;

    open spec fn view(&self) -> RouteV {
        RouteV { host: self.host@, port: self.port, authorize: self.authorize.deep_view() }
    }
}

impl DeepView for NetSDKConfig {
    type V = RouteV;

    open spec fn deep_view(&self) -> RouteV {
        self.view()
    }
}

impl Clone for NetSDKConfig {
    /// A clone has the same view as the original.
    fn clone(&self) -> (r: Self)
        ensures
            r@ == self@,
    {
        NetSDKConfig {
            host: self.host.clone(),
            port: self.port,
            authorize: crate::structs::clone_opt_string(&self.authorize),
        }
    }
}

/// One registry entry: a bot, the connector that contributed it, and the
/// route through which it is reachable.
#[derive(Debug, PartialEq)]
pub struct RegEntry {
    pub owner: u64,
    pub bot: BotId,
    pub route: NetSDKConfig,
}

/// Mathematical view of a registry entry.
pub ghost struct RegEntryV {
    pub owner: u64,
    pub bot: BotIdV,
    pub route: RouteV,
}

impl View for RegEntry {
    type V = RegEntryV;

    open spec fn view(&self) -> RegEntryV {
        RegEntryV { owner: self.owner, bot: self.bot@, route: self.route@ }
    }
}

impl DeepView for RegEntry {
    type V = RegEntryV;

    open spec fn deep_view(&self) -> RegEntryV {
        self.view()
    }
}

/// First entry for `b`, if any: the owning connector and the route.
pub open spec fn find_route(s: Seq<RegEntryV>, b: BotIdV) -> Option<(u64, RouteV)>
    decreases s.len(),
{
    if s.len() == 0 {
        None
    } else if s[0].bot == b {
        Some((s[0].owner, s[0].route))
    } else {
        find_route(s.drop_first(), b)
    }
}

/// No two entries claim the same bot.
pub open spec fn unique_bots(s: Seq<RegEntryV>) -> bool {
    forall|i: int, j: int| 0 <= i < j < s.len() ==> s[i].bot != s[j].bot
}

/// True when `bs` has a member equal to `b`.
pub open spec fn seq_contains_bot(bs: Seq<BotIdV>, b: BotIdV) -> bool {
    exists|i: int| 0 <= i < bs.len() && bs[i] == b
}

/// With unique bots, the entry at `i` is what a lookup of its bot finds.
pub proof fn lemma_find_present(s: Seq<RegEntryV>, i: int)
    requires
        unique_bots(s),
        0 <= i < s.len(),
    ensures
        find_route(s, s[i].bot) == Some((s[i].owner, s[i].route)),
    decreases i,
{
    if i > 0 {
        assert(s[0].bot != s[i].bot);
        assert(s.drop_first()[i - 1] == s[i]);
        assert forall|x: int, y: int| 0 <= x < y < s.drop_first().len() implies (
        #[trigger] s.drop_first()[x]).bot != (#[trigger] s.drop_first()[y]).bot by {
            assert(s.drop_first()[x] == s[x + 1]);
            assert(s.drop_first()[y] == s[y + 1]);
        }
        lemma_find_present(s.drop_first(), i - 1);
    }
}

/// A lookup of a bot no entry claims finds nothing.
pub proof fn lemma_find_absent(s: Seq<RegEntryV>, b: BotIdV)
    requires
        forall|i: int| 0 <= i < s.len() ==> (#[trigger] s[i]).bot != b,
    ensures
        find_route(s, b) is None,
    decreases s.len(),
{
    if s.len() > 0 {
        assert forall|i: int| 0 <= i < s.drop_first().len() implies (
        #[trigger] s.drop_first()[i]).bot != b by {
            assert(s.drop_first()[i] == s[i + 1]);
        }
        lemma_find_absent(s.drop_first(), b);
    }
}


/// The registry. Entries are held in insertion order; well-formedness says
/// that no bot is claimed twice, so a lookup has at most one answer.
pub struct Registry {
    entries: Vec<RegEntry>,
}

impl Registry {
    /// The entries, as a mathematical sequence.
    pub closed spec fn entries_view(&self) -> Seq<RegEntryV> {
        self.entries.deep_view()
    }

    /// Well-formedness: no bot is claimed by two entries.
    pub open spec fn wf(&self) -> bool {
        unique_bots(self.entries_view())
    }

    /// The route a lookup of `b` would find, with its owning connector.
    pub open spec fn find(&self, b: BotIdV) -> Option<(u64, RouteV)> {
        find_route(self.entries_view(), b)
    }

    /// An empty registry: every lookup fails.
    pub fn new() -> (r: Registry)
        ensures
            r.wf(),
            r.entries_view() == Seq::<RegEntryV>::empty(),
            forall|b: BotIdV| r.find(b) is None,
    {
        let r = Registry { entries: Vec::new() };
        proof {
            assert(r.entries_view() =~= Seq::<RegEntryV>::empty());
        }
        r
    }

    /// Look up the route for a bot. `None` is the distinct "no route"
    /// outcome: the bot is not reachable through any connector.
    pub fn lookup(&self, bot: &BotId) -> (r: Option<&NetSDKConfig>)
        ensures
            match r {
                Some(c) => self.find(bot@) matches Some((ow, rv)) && rv == c@,
                None => self.find(bot@) is None,
            },
    {
        let ghost s = self.entries_view();
        proof {
            assert(s.skip(0) =~= s);
        }
        let n = self.entries.len();
        for idx in 0..n
            invariant
                n == self.entries.len(),
                s == self.entries_view(),
                s.len() == n,
                find_route(s, bot@) == find_route(s.skip(idx as int), bot@),
        {
            proof {
                assert(s.skip(idx as int)[0] == s[idx as int]);
                assert(s[idx as int] == self.entries@[idx as int]@);
            }
            let e = &self.entries[idx];
            if e.bot.id.eq(&bot.id) && e.bot.platform.eq(&bot.platform) {
                return Some(&e.route);
            }
            proof {
                assert(s.skip(idx as int).drop_first() =~= s.skip(idx as int + 1));
            }
        }
        proof {
            assert(s.skip(n as int) =~= Seq::<RegEntryV>::empty());
        }
        None
    }
}


impl Clone for RegEntry {
    /// A clone has the same view as the original.
    fn clone(&self) -> (r: Self)
        ensures
            r@ == self@,
    {
        RegEntry { owner: self.owner, bot: self.bot.clone(), route: self.route.clone() }
    }
}

/// A lookup that succeeds does so because of an entry in the sequence.
pub proof fn lemma_find_gives_entry(s: Seq<RegEntryV>, b: BotIdV)
    requires
        find_route(s, b) is Some,
    ensures
        exists|j: int|
            0 <= j < s.len() && s[j] == (RegEntryV {
                owner: find_route(s, b).unwrap().0,
                bot: b,
                route: find_route(s, b).unwrap().1,
            }),
    decreases s.len(),
{
    if s[0].bot == b {
        assert(s[0] == (RegEntryV {
            owner: find_route(s, b).unwrap().0,
            bot: b,
            route: find_route(s, b).unwrap().1,
        }));
    } else {
        lemma_find_gives_entry(s.drop_first(), b);
        let j = choose|j: int|
            0 <= j < s.drop_first().len() && s.drop_first()[j] == (RegEntryV {
                owner: find_route(s.drop_first(), b).unwrap().0,
                bot: b,
                route: find_route(s.drop_first(), b).unwrap().1,
            });
        assert(s[j + 1] == s.drop_first()[j]);
    }
}


/// Test whether a list of bots contains one.
pub fn contains_bot(bots: &Vec<BotId>, b: &BotId) -> (r: bool)
    ensures
        r == seq_contains_bot(bots.deep_view(), b@),
{
    let n = bots.len();
    for i in 0..n
        invariant
            n == bots.len(),
            forall|k: int| 0 <= k < i ==> bots.deep_view()[k] != b@,
    {
        if bots[i].id.eq(&b.id) && bots[i].platform.eq(&b.platform) {
            proof {
                assert(bots.deep_view()[i as int] == b@);
            }
            return true;
        }
        proof {
            assert(bots.deep_view()[i as int] == bots@[i as int]@);
        }
    }
    false
}

/// Test whether any entry in a list claims a bot.
fn vec_claims_bot(v: &Vec<RegEntry>, b: &BotId) -> (r: bool)
    ensures
        r == exists|k: int| 0 <= k < v.deep_view().len() && (#[trigger] v.deep_view()[k]).bot == b@,
{
    let n = v.len();
    for i in 0..n
        invariant
            n == v.len(),
            forall|k: int| 0 <= k < i ==> (#[trigger] v.deep_view()[k]).bot != b@,
    {
        if v[i].bot.id.eq(&b.id) && v[i].bot.platform.eq(&b.platform) {
            proof {
                assert(v.deep_view()[i as int].bot == b@);
            }
            return true;
        }
        proof {
            assert(v.deep_view()[i as int] == v@[i as int]@);
        }
    }
    false
}

impl Registry {
    /// Replace one connector's whole contribution: every entry `owner`
    /// contributed is removed, then each bot in `bots` is routed through
    /// `route` under `owner`. A bot claimed until now by another connector is
    /// taken over; other connectors' remaining entries are untouched.
    #[verifier::loop_isolation(false)]
    #[verifier::rlimit(80)]
    #[verifier::spinoff_prover]
    pub fn replace_owner(&mut self, owner: u64, bots: &Vec<BotId>, route: &NetSDKConfig)
        requires
            old(self).wf(),
        ensures
            final(self).wf(),
            forall|b: BotIdV|
                #[trigger] final(self).find(b) == (if seq_contains_bot(bots.deep_view(), b) {
                    Some((owner, route@))
                } else {
                    match old(self).find(b) {
                        Some((ow, rv)) => if ow == owner {
                            None::<(u64, RouteV)>
                        } else {
                            Some((ow, rv))
                        },
                        None => None::<(u64, RouteV)>,
                    }
                }),
    {
        let ghost olds = self.entries_view();
        let ghost botsv = bots.deep_view();
        let mut kept: Vec<RegEntry> = Vec::new();
        let n = self.entries.len();
        for i in 0..n
            invariant
                self.entries_view() == olds,
                unique_bots(kept.deep_view()),
                forall|k: int|
                    0 <= k < kept.deep_view().len() ==> exists|j: int|
                        0 <= j < i && olds[j] == #[trigger] kept.deep_view()[k] && olds[j].owner
                            != owner && !seq_contains_bot(botsv, olds[j].bot),
                forall|j: int|
                    0 <= j < i && (#[trigger] olds[j]).owner != owner && !seq_contains_bot(
                        botsv,
                        olds[j].bot,
                    ) ==> exists|k: int|
                        0 <= k < kept.deep_view().len() && kept.deep_view()[k] == olds[j],
        {
            proof {
                assert(olds[i as int] == self.entries@[i as int]@);
            }
            let e = &self.entries[i];
            let redeclared = contains_bot(bots, &e.bot);
            if e.owner != owner && !redeclared {
                let ghost keptv = kept.deep_view();
                proof {
                    assert forall|k: int| 0 <= k < keptv.len() implies (
                    #[trigger] keptv[k]).bot != olds[i as int].bot by {
                        let j = choose|j: int|
                            0 <= j < i && olds[j] == keptv[k] && olds[j].owner != owner
                                && !seq_contains_bot(botsv, olds[j].bot);
                        assert(olds[j].bot != olds[i as int].bot);
                    }
                }
                kept.push(e.clone());
                proof {
                    assert(kept.deep_view() =~= keptv.push(olds[i as int]));
                    assert forall|j: int|
                        0 <= j < i + 1 && (#[trigger] olds[j]).owner != owner && !seq_contains_bot(
                            botsv,
                            olds[j].bot,
                        ) implies exists|k: int|
                        0 <= k < kept.deep_view().len() && kept.deep_view()[k] == olds[j] by {
                        if j < i {
                            let k = choose|k: int| 0 <= k < keptv.len() && keptv[k] == olds[j];
                            assert(kept.deep_view()[k] == olds[j]);
                        } else {
                            assert(kept.deep_view()[keptv.len() as int] == olds[i as int]);
                        }
                    }
                }
            }
        }
        let mut out = kept;
        let m = bots.len();
        for i in 0..m
            invariant
                unique_bots(out.deep_view()),
                forall|k: int|
                    0 <= k < out.deep_view().len() ==> (exists|j: int|
                        0 <= j < olds.len() && olds[j] == #[trigger] out.deep_view()[k]
                            && olds[j].owner != owner && !seq_contains_bot(botsv, olds[j].bot)) || (
                    out.deep_view()[k].owner == owner && out.deep_view()[k].route == route@
                        && seq_contains_bot(botsv, out.deep_view()[k].bot)),
                forall|j: int|
                    0 <= j < olds.len() && (#[trigger] olds[j]).owner != owner && !seq_contains_bot(
                        botsv,
                        olds[j].bot,
                    ) ==> exists|k: int|
                        0 <= k < out.deep_view().len() && out.deep_view()[k] == olds[j],
                forall|x: int|
                    #![trigger botsv[x]]
                    0 <= x < i ==> exists|k: int|
                        0 <= k < out.deep_view().len() && #[trigger] out.deep_view()[k] == (
                        RegEntryV { owner, bot: botsv[x], route: route@ }),
        {
            proof {
                assert(botsv[i as int] == bots@[i as int]@);
            }
            let ghost outv = out.deep_view();
            let present = vec_claims_bot(&out, &bots[i]);
            if !present {
                out.push(RegEntry { owner, bot: bots[i].clone(), route: route.clone() });
                proof {
                    assert(out.deep_view() =~= outv.push(
                        RegEntryV { owner, bot: botsv[i as int], route: route@ },
                    ));
                    assert(out.deep_view()[outv.len() as int] == (RegEntryV {
                        owner,
                        bot: botsv[i as int],
                        route: route@,
                    }));
                    assert forall|x: int| #![trigger botsv[x]] 0 <= x < i + 1 implies exists|k: int|
                        0 <= k < out.deep_view().len() && #[trigger] out.deep_view()[k] == (
                        RegEntryV { owner, bot: botsv[x], route: route@ }) by {
                        if x < i {
                            let k = choose|k: int|
                                0 <= k < outv.len() && #[trigger] outv[k] == (RegEntryV {
                                    owner,
                                    bot: botsv[x],
                                    route: route@,
                                });
                            assert(out.deep_view()[k] == outv[k]);
                        } else {
                            assert(out.deep_view()[outv.len() as int] == (RegEntryV {
                                owner,
                                bot: botsv[x],
                                route: route@,
                            }));
                        }
                    }
                    assert forall|j: int|
                        0 <= j < olds.len() && (#[trigger] olds[j]).owner != owner
                            && !seq_contains_bot(botsv, olds[j].bot) implies exists|k: int|
                        0 <= k < out.deep_view().len() && out.deep_view()[k] == olds[j] by {
                        let k = choose|k: int| 0 <= k < outv.len() && outv[k] == olds[j];
                        assert(out.deep_view()[k] == olds[j]);
                    }
                }
            } else {
                proof {
                    assert(out.deep_view() == outv);
                    let k0 = choose|k: int|
                        0 <= k < outv.len() && (#[trigger] outv[k]).bot == botsv[i as int];
                    assert(outv[k0].owner == owner && outv[k0].route == route@) by {
                        if !(outv[k0].owner == owner && outv[k0].route == route@) {
                            let j = choose|j: int|
                                0 <= j < olds.len() && olds[j] == outv[k0] && olds[j].owner
                                    != owner && !seq_contains_bot(botsv, olds[j].bot);
                            assert(seq_contains_bot(botsv, olds[j].bot)) by {
                                assert(botsv[i as int] == olds[j].bot);
                            }
                        }
                    }
                    assert(outv[k0] == (RegEntryV { owner, bot: botsv[i as int], route: route@ }));
                    assert forall|x: int| #![trigger botsv[x]] 0 <= x < i + 1 implies exists|k: int|
                        0 <= k < out.deep_view().len() && #[trigger] out.deep_view()[k] == (
                        RegEntryV { owner, bot: botsv[x], route: route@ }) by {
                        if x < i {
                            let k = choose|k: int|
                                0 <= k < outv.len() && #[trigger] outv[k] == (RegEntryV {
                                    owner,
                                    bot: botsv[x],
                                    route: route@,
                                });
                            assert(out.deep_view()[k] == outv[k]);
                        } else {
                            assert(out.deep_view()[k0] == (RegEntryV {
                                owner,
                                bot: botsv[x],
                                route: route@,
                            }));
                        }
                    }
                }
            }
        }
        self.entries = out;
        proof {
            assert(botsv.take(m as int) =~= botsv);
            let news = self.entries_view();
            assert forall|b: BotIdV|
                #[trigger] self.find(b) == (if seq_contains_bot(botsv, b) {
                    Some((owner, route@))
                } else {
                    match find_route(olds, b) {
                        Some((ow, rv)) => if ow == owner {
                            None::<(u64, RouteV)>
                        } else {
                            Some((ow, rv))
                        },
                        None => None::<(u64, RouteV)>,
                    }
                }) by {
                if seq_contains_bot(botsv, b) {
                    let x = choose|x: int| 0 <= x < botsv.len() && botsv[x] == b;
                    let k = choose|k: int|
                        0 <= k < news.len() && #[trigger] news[k] == (RegEntryV {
                            owner,
                            bot: botsv[x],
                            route: route@,
                        });
                    lemma_find_present(news, k);
                } else {
                    match find_route(olds, b) {
                        Some((ow, rv)) => {
                            lemma_find_gives_entry(olds, b);
                            let j0 = choose|j: int|
                                0 <= j < olds.len() && olds[j] == (RegEntryV {
                                    owner: ow,
                                    bot: b,
                                    route: rv,
                                });
                            if ow == owner {
                                assert forall|k: int| 0 <= k < news.len() implies (
                                #[trigger] news[k]).bot != b by {
                                    if news[k].bot == b {
                                        if news[k].owner == owner && news[k].route == route@
                                            && seq_contains_bot(botsv, news[k].bot) {
                                        } else {
                                            let j = choose|j: int|
                                                0 <= j < olds.len() && olds[j] == news[k]
                                                    && olds[j].owner != owner
                                                    && !seq_contains_bot(botsv, olds[j].bot);
                                            assert(olds[j].bot == b && olds[j0].bot == b);
                                            if j != j0 {
                                                assert(false);
                                            }
                                        }
                                    }
                                }
                                lemma_find_absent(news, b);
                            } else {
                                let k = choose|k: int|
                                    0 <= k < news.len() && news[k] == olds[j0];
                                lemma_find_present(news, k);
                            }
                        },
                        None => {
                            assert forall|j: int| 0 <= j < olds.len() implies (
                            #[trigger] olds[j]).bot != b by {
                                if olds[j].bot == b {
                                    lemma_find_present(olds, j);
                                }
                            }
                            assert forall|k: int| 0 <= k < news.len() implies (
                            #[trigger] news[k]).bot != b by {
                                if news[k].bot == b {
                                    if news[k].owner == owner && news[k].route == route@
                                        && seq_contains_bot(botsv, news[k].bot) {
                                    } else {
                                        let j = choose|j: int|
                                            0 <= j < olds.len() && olds[j] == news[k]
                                                && olds[j].owner != owner && !seq_contains_bot(
                                                botsv,
                                                olds[j].bot,
                                            );
                                    }
                                }
                            }
                            lemma_find_absent(news, b);
                        },
                    }
                }
            }
        }
    }

    /// Remove one connector's whole contribution, as on its teardown. Other
    /// connectors' entries are untouched.
    #[verifier::loop_isolation(false)]
    #[verifier::rlimit(80)]
    #[verifier::spinoff_prover]
    pub fn remove_owner(&mut self, owner: u64)
        requires
            old(self).wf(),
        ensures
            final(self).wf(),
            forall|b: BotIdV|
                #[trigger] final(self).find(b) == (match old(self).find(b) {
                    Some((ow, rv)) => if ow == owner {
                        None::<(u64, RouteV)>
                    } else {
                        Some((ow, rv))
                    },
                    None => None::<(u64, RouteV)>,
                }),
    {
        let ghost olds = self.entries_view();
        let mut kept: Vec<RegEntry> = Vec::new();
        let n = self.entries.len();
        for i in 0..n
            invariant
                self.entries_view() == olds,
                unique_bots(kept.deep_view()),
                forall|k: int|
                    0 <= k < kept.deep_view().len() ==> exists|j: int|
                        0 <= j < i && olds[j] == #[trigger] kept.deep_view()[k] && olds[j].owner
                            != owner,
                forall|j: int|
                    0 <= j < i && (#[trigger] olds[j]).owner != owner ==> exists|k: int|
                        0 <= k < kept.deep_view().len() && kept.deep_view()[k] == olds[j],
        {
            proof {
                assert(olds[i as int] == self.entries@[i as int]@);
            }
            let e = &self.entries[i];
            if e.owner != owner {
                let ghost keptv = kept.deep_view();
                proof {
                    assert forall|k: int| 0 <= k < keptv.len() implies (
                    #[trigger] keptv[k]).bot != olds[i as int].bot by {
                        let j = choose|j: int|
                            0 <= j < i && olds[j] == keptv[k] && olds[j].owner != owner;
                        assert(olds[j].bot != olds[i as int].bot);
                    }
                }
                kept.push(e.clone());
                proof {
                    assert(kept.deep_view() =~= keptv.push(olds[i as int]));
                    assert forall|j: int|
                        0 <= j < i + 1 && (#[trigger] olds[j]).owner != owner implies exists|
                        k: int,
                    | 0 <= k < kept.deep_view().len() && kept.deep_view()[k] == olds[j] by {
                        if j < i {
                            let k = choose|k: int| 0 <= k < keptv.len() && keptv[k] == olds[j];
                            assert(kept.deep_view()[k] == olds[j]);
                        } else {
                            assert(kept.deep_view()[keptv.len() as int] == olds[i as int]);
                        }
                    }
                }
            }
        }
        self.entries = kept;
        proof {
            let news = self.entries_view();
            assert forall|b: BotIdV|
                #[trigger] self.find(b) == (match find_route(olds, b) {
                    Some((ow, rv)) => if ow == owner {
                        None::<(u64, RouteV)>
                    } else {
                        Some((ow, rv))
                    },
                    None => None::<(u64, RouteV)>,
                }) by {
                match find_route(olds, b) {
                    Some((ow, rv)) => {
                        lemma_find_gives_entry(olds, b);
                        let j0 = choose|j: int|
                            0 <= j < olds.len() && olds[j] == (RegEntryV {
                                owner: ow,
                                bot: b,
                                route: rv,
                            });
                        if ow == owner {
                            assert forall|k: int| 0 <= k < news.len() implies (
                            #[trigger] news[k]).bot != b by {
                                if news[k].bot == b {
                                    let j = choose|j: int|
                                        0 <= j < olds.len() && olds[j] == news[k] && olds[j].owner
                                            != owner;
                                    assert(olds[j].bot == b && olds[j0].bot == b);
                                    if j != j0 {
                                        assert(false);
                                    }
                                }
                            }
                            lemma_find_absent(news, b);
                        } else {
                            let k = choose|k: int| 0 <= k < news.len() && news[k] == olds[j0];
                            lemma_find_present(news, k);
                        }
                    },
                    None => {
                        assert forall|j: int| 0 <= j < olds.len() implies (#[trigger] olds[j]).bot
                            != b by {
                            if olds[j].bot == b {
                                lemma_find_present(olds, j);
                            }
                        }
                        assert forall|k: int| 0 <= k < news.len() implies (#[trigger] news[k]).bot
                            != b by {
                            if news[k].bot == b {
                                let j = choose|j: int|
                                    0 <= j < olds.len() && olds[j] == news[k] && olds[j].owner
                                        != owner;
                            }
                        }
                        lemma_find_absent(news, b);
                    },
                }
            }
        }
    }

    /// A snapshot of every registered bot as an online login, in entry
    /// order, as a READY frame reports it to subscribers.
    pub fn get_logins(&self) -> (r: Vec<Login>)
        ensures
            r.deep_view().len() == self.entries_view().len(),
            forall|i: int|
                0 <= i < r.deep_view().len() ==> #[trigger] r.deep_view()[i] == (
                crate::structs::LoginV {
                    user: None,
                    self_id: Some(self.entries_view()[i].bot.id),
                    platform: Some(self.entries_view()[i].bot.platform),
                    status: Status::Online,
                }),
    {
        let mut r: Vec<Login> = Vec::new();
        let n = self.entries.len();
        for i in 0..n
            invariant
                n == self.entries.len(),
                r.deep_view().len() == i,
                forall|k: int|
                    0 <= k < i ==> #[trigger] r.deep_view()[k] == (crate::structs::LoginV {
                        user: None,
                        self_id: Some(self.entries_view()[k].bot.id),
                        platform: Some(self.entries_view()[k].bot.platform),
                        status: Status::Online,
                    }),
        {
            proof {
                assert(self.entries_view()[i as int] == self.entries@[i as int]@);
            }
            let e = &self.entries[i];
            let ghost prev = r.deep_view();
            r.push(
                Login {
                    user: None,
                    self_id: Some(e.bot.id.clone()),
                    platform: Some(e.bot.platform.clone()),
                    status: Status::Online,
                },
            );
            proof {
                assert(r.deep_view() =~= prev.push(
                    crate::structs::LoginV {
                        user: None,
                        self_id: Some(self.entries_view()[i as int].bot.id),
                        platform: Some(self.entries_view()[i as int].bot.platform),
                        status: Status::Online,
                    },
                ));
            }
        }
        r
    }
}

} // verus!
