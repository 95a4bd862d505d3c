//! The coordinator's wire values: a small tree model of the structured
//! messages exchanged with the node and the kernel, the three outbound poke
//! payloads, and the decoding of the two inbound effect kinds.
//!
//! An atom is either a number or a text whose bytes name a tag or carry a
//! key; a cell pairs two values.  The shell that talks to the node converts
//! these trees one-for-one into its own message representation.

use vstd::prelude::*;

use crate::config::{MiningKeyConfig, MiningKeyConfigView};

verus! {

/// The wires under which the driver pokes the node.
pub enum MiningWire {
    Mined,
    Candidate,
    SetPubKey,
    Enable,
}

impl MiningWire {
    /// The tag word of this wire.
    pub fn verb(&self) -> (r: &'static str)
        ensures
            r@ == match self {
                MiningWire::Mined => "mined"@,
                MiningWire::SetPubKey => "setpubkey"@,
                MiningWire::Candidate => "candidate"@,
                MiningWire::Enable => "enable"@,
            },
    {
        match self {
            MiningWire::Mined => "mined",
            MiningWire::SetPubKey => "setpubkey",
            MiningWire::Candidate => "candidate",
            MiningWire::Enable => "enable",
        }
    }

    /// The header of a message on this wire: the source `miner`, version
    /// one, and the verb as the single tag.
    pub fn to_wire(&self) -> (r: (&'static str, u64, Vec<String>))
        ensures
            r.0@ == "miner"@,
            r.1 == 1,
            r.2@.len() == 1,
            r.2@[0]@ == match self {
                MiningWire::Mined => "mined"@,
                MiningWire::SetPubKey => "setpubkey"@,
                MiningWire::Candidate => "candidate"@,
                MiningWire::Enable => "enable"@,
            },
    {
        let mut tags: Vec<String> = Vec::new();
        tags.push(String::from_str(self.verb()));
        ("miner", 1, tags)
    }
}

/// A structured wire value: a numeric atom, a text atom, or a pair.
#[derive(Debug)]
pub enum Noun {
    Num(u64),
    Text(String),
    Cell(Box<Noun>, Box<Noun>),
}

/// The mathematical shape of a wire value.
pub enum NounView {
    Num(u64),
    Text(Seq<char>),
    Cell(Box<NounView>, Box<NounView>),
}

impl View for Noun {
    type V = NounView;

    open spec fn view(&self) -> NounView
        decreases self,
    {
        match self {
            Noun::Num(n) => NounView::Num(*n),
            Noun::Text(s) => NounView::Text(s@),
            Noun::Cell(h, t) => NounView::Cell(Box::new((**h)@), Box::new((**t)@)),
        }
    }
}

impl Noun {
    /// Pairs two values.
    pub fn cell(head: Noun, tail: Noun) -> (r: Noun)
        ensures
            r@ == NounView::Cell(Box::new(head@), Box::new(tail@)),
    {
        Noun::Cell(Box::new(head), Box::new(tail))
    }

    /// A text atom holding a copy of `s`.
    pub fn text(s: &str) -> (r: Noun)
        ensures
            r@ == NounView::Text(s@),
    {
        Noun::Text(s.to_owned())
    }

    /// A deep copy.
    pub fn duplicate(&self) -> (r: Noun)
        ensures
            r@ == self@,
        decreases self,
    {
        match self {
            Noun::Num(n) => Noun::Num(*n),
            Noun::Text(s) => Noun::Text(s.clone()),
            Noun::Cell(h, t) => Noun::Cell(Box::new(h.duplicate()), Box::new(t.duplicate())),
        }
    }

    /// Structural equality of two wire values.
    pub fn same(&self, other: &Noun) -> (r: bool)
        ensures
            r == (self@ == other@),
        decreases self,
    {
        match (self, other) {
            (Noun::Num(a), Noun::Num(b)) => a == b,
            (Noun::Text(a), Noun::Text(b)) => {
                let eq = a.eq(b);
                proof {
                    if a@ == b@ {
                        assert(self@ == other@);
                    }
                }
                eq
            },
            (Noun::Cell(h1, t1), Noun::Cell(h2, t2)) => {
                let heads = h1.same(h2);
                let tails = t1.same(t2);
                proof {
                    if h1@ == h2@ && t1@ == t2@ {
                        assert(self@ == other@);
                    }
                }
                heads && tails
            },
            _ => false,
        }
    }
}

/// The shape of every outbound poke: `[command <verb> <payload>]`.
pub open spec fn poke_view(verb: Seq<char>, payload: NounView) -> NounView {
    NounView::Cell(
        Box::new(NounView::Text("command"@)),
        Box::new(NounView::Cell(Box::new(NounView::Text(verb)), Box::new(payload))),
    )
}

/// A nil-terminated key list, built by prepending, so the first key of the
/// input ends up deepest.
pub open spec fn keys_list_view(keys: Seq<Seq<char>>) -> NounView
    decreases keys.len(),
{
    if keys.len() == 0 {
        NounView::Num(0)
    } else {
        NounView::Cell(
            Box::new(NounView::Text(keys.last())),
            Box::new(keys_list_view(keys.drop_last())),
        )
    }
}

/// The `[share m keylist]` triple of one configuration entry.
pub open spec fn config_noun_view(c: MiningKeyConfigView) -> NounView {
    NounView::Cell(
        Box::new(NounView::Num(c.share)),
        Box::new(NounView::Cell(Box::new(NounView::Num(c.m)), Box::new(keys_list_view(c.keys)))),
    )
}

/// A nil-terminated list of configuration triples, built by prepending, so
/// the first entry of the input ends up deepest.
pub open spec fn configs_list_view(cfgs: Seq<MiningKeyConfigView>) -> NounView
    decreases cfgs.len(),
{
    if cfgs.len() == 0 {
        NounView::Num(0)
    } else {
        NounView::Cell(
            Box::new(config_noun_view(cfgs.last())),
            Box::new(configs_list_view(cfgs.drop_last())),
        )
    }
}

/// The views of a vector of configuration entries.
pub open spec fn config_views(cfgs: Seq<MiningKeyConfig>) -> Seq<MiningKeyConfigView> {
    cfgs.map_values(|c: MiningKeyConfig| c@)
}

/// The `set-mining-key` poke: the single public key as its payload.
pub fn set_mining_key_poke(pubkey: &str) -> (r: Noun)
    ensures
        r@ == poke_view("set-mining-key"@, NounView::Text(pubkey@)),
{
    Noun::cell(
        Noun::text("command"),
        Noun::cell(Noun::text("set-mining-key"), Noun::text(pubkey)),
    )
}

/// The `enable-mining` poke; the flag is inverted on the wire: `0` enables,
/// `1` disables.
pub fn enable_mining_poke(enable: bool) -> (r: Noun)
    ensures
        r@ == poke_view(
            "enable-mining"@,
            NounView::Num(
                if enable {
                    0
                } else {
                    1
                },
            ),
        ),
{
    let flag: u64 = if enable {
        0
    } else {
        1
    };
    Noun::cell(Noun::text("command"), Noun::cell(Noun::text("enable-mining"), Noun::Num(flag)))
}

/// The `set-mining-key-advanced` poke: the nil-terminated list of
/// `[share m keylist]` triples, in reverse insertion order.
pub fn set_mining_key_advanced_poke(configs: &Vec<MiningKeyConfig>) -> (r: Noun)
    ensures
        r@ == poke_view("set-mining-key-advanced"@, configs_list_view(config_views(configs@))),
{
    let mut list = Noun::Num(0);
    let n = configs.len();
    let mut i: usize = 0;
    proof {
        assert(config_views(configs@).take(0) =~= Seq::<MiningKeyConfigView>::empty());
    }
    while i < n
        invariant
            i <= n,
            n == configs@.len(),
            list@ == configs_list_view(config_views(configs@).take(i as int)),
        decreases n - i,
    {
        let mut keys_noun = Noun::Num(0);
        let m = configs[i].keys.len();
        let mut j: usize = 0;
        proof {
            assert(configs@[i as int]@.keys.take(0) =~= Seq::<Seq<char>>::empty());
        }
        while j < m
            invariant
                j <= m,
                i < n,
                n == configs@.len(),
                m == configs@[i as int].keys@.len(),
                keys_noun@ == keys_list_view(configs@[i as int]@.keys.take(j as int)),
            decreases m - j,
        {
            keys_noun = Noun::cell(Noun::text(configs[i].keys[j].as_str()), keys_noun);
            proof {
                let keys = configs@[i as int]@.keys;
                assert(keys.take(j + 1).drop_last() =~= keys.take(j as int));
                assert(keys.take(j + 1).last() == keys[j as int]);
            }
            j = j + 1;
        }
        proof {
            assert(configs@[i as int]@.keys.take(m as int) =~= configs@[i as int]@.keys);
        }
        let tuple = Noun::cell(
            Noun::Num(configs[i].share),
            Noun::cell(Noun::Num(configs[i].m), keys_noun),
        );
        list = Noun::cell(tuple, list);
        proof {
            let views = config_views(configs@);
            assert(views.take(i + 1).drop_last() =~= views.take(i as int));
            assert(views.take(i + 1).last() == views[i as int]);
        }
        i = i + 1;
    }
    proof {
        assert(config_views(configs@).take(n as int) =~= config_views(configs@));
    }
    Noun::cell(Noun::text("command"), Noun::cell(Noun::text("set-mining-key-advanced"), list))
}

/// Whether a kernel effect is a `command` effect: a cell whose head is the
/// text atom `command`.
pub open spec fn is_command_effect(v: NounView) -> bool {
    match v {
        NounView::Cell(h, _) => *h == NounView::Text("command"@),
        _ => false,
    }
}

/// The first `command` effect of a stream, if any.
pub open spec fn first_command(effects: Seq<Noun>) -> Option<NounView>
    decreases effects.len(),
{
    if effects.len() == 0 {
        None
    } else if is_command_effect(effects[0]@) {
        Some(effects[0]@)
    } else {
        first_command(effects.drop_first())
    }
}

/// Decides whether one effect is a `command` effect.
fn effect_has_command_head(effect: &Noun, tag: &String) -> (r: bool)
    requires
        tag@ == "command"@,
    ensures
        r == is_command_effect(effect@),
{
    match effect {
        Noun::Cell(h, _) => {
            proof {
                assert(effect@ matches NounView::Cell(hv, _) && *hv == (*h)@);
            }
            match &**h {
                Noun::Text(s) => {
                    proof {
                        assert((*h)@ == NounView::Text(s@));
                    }
                    s.eq(tag)
                },
                _ => false,
            }
        },
        _ => false,
    }
}

/// Scans an effect stream for its first `command` effect and copies it;
/// any number of other effects are passed over.
pub fn find_command_effect(effects: &Vec<Noun>) -> (r: Option<Noun>)
    ensures
        (r is Some) == (first_command(effects@) is Some),
        r matches Some(n) ==> first_command(effects@) == Some(n@),
{
    let tag = String::from_str("command");
    let n = effects.len();
    let mut i: usize = 0;
    proof {
        assert(effects@.skip(0) =~= effects@);
    }
    while i < n
        invariant
            i <= n,
            n == effects@.len(),
            tag@ == "command"@,
            first_command(effects@) == first_command(effects@.skip(i as int)),
            forall|j: int| 0 <= j < i ==> !is_command_effect(effects@[j]@),
        decreases n - i,
    {
        let found = effect_has_command_head(&effects[i], &tag);
        if found {
            proof {
                assert(effects@.skip(i as int)[0] == effects@[i as int]);
            }
            return Some(effects[i].duplicate());
        }
        proof {
            assert(effects@.skip(i as int).drop_first() =~= effects@.skip(i + 1));
            assert(effects@.skip(i as int)[0] == effects@[i as int]);
        }
        i = i + 1;
    }
    proof {
        assert(effects@.skip(n as int) =~= Seq::<Noun>::empty());
    }
    None
}

/// The candidate carried by a `mine` effect: the tail of a cell whose head
/// is the text atom `mine`.
pub open spec fn mine_payload(v: NounView) -> Option<NounView> {
    match v {
        NounView::Cell(h, t) => if *h == NounView::Text("mine"@) {
            Some(*t)
        } else {
            None
        },
        _ => None,
    }
}

/// Recognises a `mine` effect and copies its candidate out.
pub fn mine_candidate(effect: &Noun) -> (r: Option<Noun>)
    ensures
        (r is Some) == (mine_payload(effect@) is Some),
        r matches Some(n) ==> mine_payload(effect@) == Some(n@),
{
    let tag = String::from_str("mine");
    match effect {
        Noun::Cell(h, t) => {
            proof {
                assert(effect@ == NounView::Cell(Box::new((*h)@), Box::new((*t)@)));
            }
            match &**h {
                Noun::Text(s) => {
                    proof {
                        assert((*h)@ == NounView::Text(s@));
                    }
                    if s.eq(&tag) {
                        Some(t.duplicate())
                    } else {
                        None
                    }
                },
                _ => None,
            }
        },
        _ => None,
    }
}

} // verus!
