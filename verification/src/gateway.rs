//! Downstream gateway decisions: answering subscriber signals, reading
//! identity headers, and fanning events out to subscribers.

use vstd::prelude::*;

use crate::codec::{Signal, SignalV};
use crate::registry::Registry;
use crate::structs::{BotId, Event, EventV, Login, LoginV, Status};
use vstd::string::StringExecFns;

verus! {

/// Where a downstream listener binds, with its optional expected credential.
#[derive(Debug, PartialEq)]
pub struct NetAPPConfig {
    pub host: String,
    pub port: u16,
    pub authorize: Option<String>,
}

impl Clone for NetAPPConfig {
    /// A clone has the same fields as the original, field for field.
    fn clone(&self) -> (r: Self)
        ensures
            r.host@ == self.host@,
            r.port == self.port,
            r.authorize.deep_view() == self.authorize.deep_view(),
    {
        NetAPPConfig {
            host: self.host.clone(),
            port: self.port,
            authorize: crate::structs::clone_opt_string(&self.authorize),
        }
    }
}

/// What the gateway does with one signal a subscriber sent.
#[derive(Debug, PartialEq)]
pub enum GatewayReply {
    /// Answer a PING with a PONG at once.
    Pong,
    /// Answer an IDENTIFY with a READY carrying this registry snapshot.
    Ready(Vec<Login>),
    /// Any other op from a subscriber is a protocol violation closing that
    /// connection alone.
    Violation,
}

/// Decide the gateway's reply to a signal a subscriber sent: PING is
/// answered with PONG, IDENTIFY with a READY carrying the full registry
/// snapshot as online logins, and any other op is a violation of that
/// connection.
pub fn gateway_step(sig: &Signal, reg: &Registry) -> (r: GatewayReply)
    ensures
        match sig@ {
            SignalV::Ping => r == GatewayReply::Pong,
            SignalV::Identify(_) => r matches GatewayReply::Ready(ls) && {
                &&& ls.deep_view().len() == reg.entries_view().len()
                &&& forall|i: int|
                    0 <= i < ls.deep_view().len() ==> #[trigger] ls.deep_view()[i] == (LoginV {
                        user: None,
                        self_id: Some(reg.entries_view()[i].bot.id),
                        platform: Some(reg.entries_view()[i].bot.platform),
                        status: Status::Online,
                    })
            },
            _ => r == GatewayReply::Violation,
        },
{
    match sig {
        Signal::Ping => GatewayReply::Pong,
        Signal::Identify(_) => GatewayReply::Ready(reg.get_logins()),
        _ => GatewayReply::Violation,
    }
}

/// Decide the gateway's reply to a subscriber's signal, given the registry
/// snapshot to announce: PING is answered with PONG, IDENTIFY with a READY
/// carrying exactly the given logins, and any other op is a violation of
/// that connection.
pub fn gateway_reply(sig: &Signal, logins: Vec<Login>) -> (r: GatewayReply)
    ensures
        match sig@ {
            SignalV::Ping => r == GatewayReply::Pong,
            SignalV::Identify(_) => r matches GatewayReply::Ready(ls) && ls.deep_view()
                == logins.deep_view(),
            _ => r == GatewayReply::Violation,
        },
{
    match sig {
        Signal::Ping => GatewayReply::Pong,
        Signal::Identify(_) => GatewayReply::Ready(logins),
        _ => GatewayReply::Violation,
    }
}

/// Build the bot identity from the API-call endpoint's identity headers, or
/// the HTTP answer that rejects the request: a missing or unreadable header
/// is a 400 with a message naming the missing part.
pub fn bot_id_from_headers(self_id: Option<String>, platform: Option<String>) -> (r: Result<
    BotId,
    (u16, String),
>)
    ensures
        match r {
            Ok(b) => self_id matches Some(i) && platform matches Some(p) && b@.id == i@
                && b@.platform == p@,
            Err(e) => e.0 == 400 && (self_id is None || platform is None) && (match self_id {
                None => e.1@ == "Self id missed or error"@,
                Some(_) => e.1@ == "Platform missed or error"@,
            }),
        },
{
    let id = match self_id {
        Some(i) => i,
        None => {
            return Err((400, String::from_str("Self id missed or error")));
        },
    };
    let platform = match platform {
        Some(p) => p,
        None => {
            return Err((400, String::from_str("Platform missed or error")));
        },
    };
    Ok(BotId { id, platform })
}

/// One subscriber's bounded delivery queue. When the queue is full, the
/// oldest queued event is dropped to make room for the newest, for that
/// subscriber alone: it falls behind silently rather than backpressuring the
/// producer.
#[derive(Debug, PartialEq)]
pub struct Subscriber {
    pub id: u64,
    pub cap: usize,
    pub queue: Vec<Event>,
}

/// Mathematical view of a subscriber queue.
pub ghost struct SubscriberV {
    pub id: u64,
    pub cap: usize,
    pub queue: Seq<EventV>,
}

impl View for Subscriber {
    type V = SubscriberV;

    open spec fn view(&self) -> SubscriberV {
        SubscriberV { id: self.id, cap: self.cap, queue: self.queue.deep_view() }
    }
}

impl DeepView for Subscriber {
    type V = SubscriberV;

    open spec fn deep_view(&self) -> SubscriberV {
        self.view()
    }
}

/// The queue of the first subscriber with this id; empty when none has it.
pub open spec fn first_queue(s: Seq<SubscriberV>, id: u64) -> Seq<EventV>
    decreases s.len(),
{
    if s.len() == 0 {
        Seq::empty()
    } else if s[0].id == id {
        s[0].queue
    } else {
        first_queue(s.drop_first(), id)
    }
}

/// The broadcast fan-out set: every subscriber currently connected.
pub struct FanOut {
    pub subs: Vec<Subscriber>,
}

impl FanOut {
    /// A fan-out set with no subscribers.
    pub fn new() -> (r: FanOut)
        ensures
            r.subs.deep_view() == Seq::<SubscriberV>::empty(),
    {
        let r = FanOut { subs: Vec::new() };
        proof {
            assert(r.subs.deep_view() =~= Seq::<SubscriberV>::empty());
        }
        r
    }

    /// Add a subscriber with a bounded queue.
    pub fn subscribe(&mut self, id: u64, cap: usize)
        ensures
            final(self).subs.deep_view() == old(self).subs.deep_view().push(
                SubscriberV { id, cap, queue: Seq::empty() },
            ),
    {
        let ghost prev = self.subs.deep_view();
        let q: Vec<Event> = Vec::new();
        proof {
            assert(q.deep_view() =~= Seq::<EventV>::empty());
        }
        self.subs.push(Subscriber { id, cap, queue: q });
        proof {
            assert(self.subs.deep_view() =~= prev.push(
                SubscriberV { id, cap, queue: Seq::empty() },
            ));
        }
    }

    /// Remove every subscriber with this id, as when its connection
    /// terminates; every other subscriber stays, in order, untouched.
    #[verifier::loop_isolation(false)]
    pub fn unsubscribe(&mut self, id: u64)
        ensures
            final(self).subs.deep_view() == old(self).subs.deep_view().filter(
                |s: SubscriberV| s.id != id,
            ),
    {
        let ghost olds = self.subs.deep_view();
        let ghost pred = |s: SubscriberV| s.id != id;
        let mut kept: Vec<Subscriber> = Vec::new();
        let n = self.subs.len();
        proof {
            assert(olds.take(0).filter(pred) =~= kept.deep_view());
        }
        for i in 0..n
            invariant
                n == self.subs.len(),
                self.subs.deep_view() == olds,
                olds.len() == n,
                kept.deep_view() =~= olds.take(i as int).filter(pred),
        {
            proof {
                assert(olds[i as int] == self.subs@[i as int]@);
                assert(olds.take(i as int + 1) =~= olds.take(i as int) + seq![olds[i as int]]);
                Seq::<SubscriberV>::filter_distributes_over_add(
                    olds.take(i as int),
                    seq![olds[i as int]],
                    pred,
                );
                reveal_with_fuel(Seq::filter, 2);
                assert(seq![olds[i as int]].drop_last() =~= Seq::<SubscriberV>::empty());
                assert(seq![olds[i as int]].last() == olds[i as int]);
                assert(seq![olds[i as int]].filter(pred) =~= (if pred(olds[i as int]) {
                    seq![olds[i as int]]
                } else {
                    Seq::<SubscriberV>::empty()
                }));
            }
            let src = &self.subs[i];
            let ghost keptv = kept.deep_view();
            if src.id != id {
                let q2 = clone_events(&src.queue);
                kept.push(Subscriber { id: src.id, cap: src.cap, queue: q2 });
                proof {
                    assert(kept.deep_view() =~= keptv.push(olds[i as int]));
                    assert(keptv.push(olds[i as int]) =~= keptv + seq![olds[i as int]]);
                }
            }
        }
        proof {
            assert(olds.take(n as int) =~= olds);
        }
        self.subs = kept;
    }

    /// Take everything queued for the subscriber with this id, oldest
    /// first, leaving its queue empty; every other subscriber is untouched.
    /// With no such subscriber nothing is returned and nothing changes.
    #[verifier::loop_isolation(false)]
    #[verifier::rlimit(80)]
    #[verifier::spinoff_prover]
    pub fn take_queue(&mut self, id: u64) -> (r: Vec<Event>)
        ensures
            r.deep_view() == first_queue(old(self).subs.deep_view(), id),
            final(self).subs.deep_view().len() == old(self).subs.deep_view().len(),
            forall|i: int|
                0 <= i < old(self).subs.deep_view().len() ==> #[trigger] final(self).subs.deep_view()[i] == (if old(self).subs.deep_view()[i].id == id {
                    SubscriberV {
                        id,
                        cap: old(self).subs.deep_view()[i].cap,
                        queue: Seq::empty(),
                    }
                } else {
                    old(self).subs.deep_view()[i]
                }),
    {
        let ghost olds = self.subs.deep_view();
        proof {
            assert(olds.skip(0) =~= olds);
        }
        let mut res: Vec<Event> = Vec::new();
        let mut taken = false;
        let mut out: Vec<Subscriber> = Vec::new();
        let n = self.subs.len();
        proof {
            assert(res.deep_view() =~= Seq::<EventV>::empty());
        }
        for i in 0..n
            invariant
                n == self.subs.len(),
                self.subs.deep_view() == olds,
                olds.len() == n,
                out.deep_view().len() == i,
                forall|k: int|
                    0 <= k < i ==> #[trigger] out.deep_view()[k] == (if olds[k].id == id {
                        SubscriberV { id, cap: olds[k].cap, queue: Seq::empty() }
                    } else {
                        olds[k]
                    }),
                first_queue(olds, id) == (if taken {
                    res.deep_view()
                } else {
                    first_queue(olds.skip(i as int), id)
                }),
                !taken ==> res.deep_view() == Seq::<EventV>::empty(),
        {
            proof {
                assert(olds[i as int] == self.subs@[i as int]@);
                assert(olds.skip(i as int)[0] == olds[i as int]);
                assert(olds.skip(i as int).drop_first() =~= olds.skip(i as int + 1));
            }
            let src = &self.subs[i];
            let ghost prev = out.deep_view();
            if src.id == id {
                if !taken {
                    res = clone_events(&src.queue);
                    taken = true;
                }
                let q: Vec<Event> = Vec::new();
                proof {
                    assert(q.deep_view() =~= Seq::<EventV>::empty());
                }
                out.push(Subscriber { id: src.id, cap: src.cap, queue: q });
                proof {
                    assert(out.deep_view() =~= prev.push(
                        SubscriberV { id, cap: olds[i as int].cap, queue: Seq::empty() },
                    ));
                }
            } else {
                out.push(
                    Subscriber { id: src.id, cap: src.cap, queue: clone_events(&src.queue) },
                );
                proof {
                    assert(out.deep_view() =~= prev.push(olds[i as int]));
                }
            }
        }
        proof {
            assert(olds.skip(n as int) =~= Seq::<SubscriberV>::empty());
        }
        self.subs = out;
        res
    }

    /// Deliver one event to every subscriber. Delivery never fails and
    /// never stalls the caller: with no subscribers nothing changes; a
    /// subscriber with room queues the event; a subscriber whose queue is
    /// full drops its oldest queued event to make room, so it lags rather
    /// than blocking anyone.
    #[verifier::rlimit(80)]
    #[verifier::spinoff_prover]
    pub fn broadcast(&mut self, e: &Event)
        ensures
            final(self).subs.deep_view().len() == old(self).subs.deep_view().len(),
            forall|i: int|
                0 <= i < old(self).subs.deep_view().len() ==> #[trigger] final(self).subs.deep_view()[i] == (if old(self).subs.deep_view()[i].queue.len() < old(self).subs.deep_view()[i].cap {
                    SubscriberV {
                        id: old(self).subs.deep_view()[i].id,
                        cap: old(self).subs.deep_view()[i].cap,
                        queue: old(self).subs.deep_view()[i].queue.push(e@),
                    }
                } else if old(self).subs.deep_view()[i].queue.len() > 0 {
                    SubscriberV {
                        id: old(self).subs.deep_view()[i].id,
                        cap: old(self).subs.deep_view()[i].cap,
                        queue: old(self).subs.deep_view()[i].queue.drop_first().push(e@),
                    }
                } else {
                    old(self).subs.deep_view()[i]
                }),
    {
        let ghost olds = self.subs.deep_view();
        let n = self.subs.len();
        let mut out: Vec<Subscriber> = Vec::new();
        for i in 0..n
            invariant
                n == self.subs.len(),
                self.subs.deep_view() == olds,
                olds.len() == n,
                out.deep_view().len() == i,
                forall|k: int|
                    0 <= k < i ==> #[trigger] out.deep_view()[k] == (if olds[k].queue.len()
                        < olds[k].cap {
                        SubscriberV {
                            id: olds[k].id,
                            cap: olds[k].cap,
                            queue: olds[k].queue.push(e@),
                        }
                    } else if olds[k].queue.len() > 0 {
                        SubscriberV {
                            id: olds[k].id,
                            cap: olds[k].cap,
                            queue: olds[k].queue.drop_first().push(e@),
                        }
                    } else {
                        olds[k]
                    }),
        {
            proof {
                assert(olds[i as int] == self.subs@[i as int]@);
            }
            let src = &self.subs[i];
            let mut queue = clone_events(&src.queue);
            if queue.len() < src.cap {
                queue.push(e.clone());
                proof {
                    assert(queue.deep_view() =~= olds[i as int].queue.push(e@));
                }
            } else if queue.len() > 0 {
                let ghost qfull = queue.deep_view();
                queue.remove(0);
                proof {
                    assert forall|k: int| 0 <= k < queue.deep_view().len() implies #[trigger] queue
                        .deep_view()[k] == qfull.drop_first()[k] by {
                        assert(queue@[k] == queue@[k]);
                    }
                    assert(queue.deep_view() =~= qfull.drop_first());
                }
                queue.push(e.clone());
                proof {
                    assert(queue.deep_view() =~= olds[i as int].queue.drop_first().push(e@));
                }
            }
            let ghost prev = out.deep_view();
            out.push(Subscriber { id: src.id, cap: src.cap, queue });
            proof {
                assert(out.deep_view() =~= prev.push(
                    if olds[i as int].queue.len() < olds[i as int].cap {
                        SubscriberV {
                            id: olds[i as int].id,
                            cap: olds[i as int].cap,
                            queue: olds[i as int].queue.push(e@),
                        }
                    } else if olds[i as int].queue.len() > 0 {
                        SubscriberV {
                            id: olds[i as int].id,
                            cap: olds[i as int].cap,
                            queue: olds[i as int].queue.drop_first().push(e@),
                        }
                    } else {
                        olds[i as int]
                    },
                ));
            }
        }
        self.subs = out;
    }
}

/// A clone of an event list keeps its view, element for element.
pub fn clone_events(v: &Vec<Event>) -> (r: Vec<Event>)
    ensures
        r.deep_view() == v.deep_view(),
{
    let mut r: Vec<Event> = Vec::new();
    let n = v.len();
    for i in 0..n
        invariant
            n == v.len(),
            r.deep_view().len() == i,
            forall|k: int| 0 <= k < i ==> #[trigger] r.deep_view()[k] == v.deep_view()[k],
    {
        let ghost prev = r.deep_view();
        r.push(v[i].clone());
        proof {
            assert(r.deep_view() =~= prev.push(v@[i as int]@));
            assert(v.deep_view()[i as int] == v@[i as int]@);
        }
    }
    proof {
        assert(r.deep_view() =~= v.deep_view());
    }
    r
}

} // verus!
