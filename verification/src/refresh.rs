//! Keeping the lists of addresses up to date: what is asked of the cluster, in what order, and
//! what becomes of the answers.
use vstd::prelude::*;

use crate::address::{same_addresses, SocketAddr};
use crate::base58::base58_text;
use crate::cluster::{
    fallback_list_is_never_empty, is_fallback_list, jito_addresses, node_address,
    only_jito_nodes_are_chosen, select_fallback_addresses, select_jito_addresses,
    select_tpu_addresses, tpu_addresses, ClusterNode, FUTURE_SLOTS_COUNT,
};
use crate::rpc::CommitmentLevel;
use crate::text::{join, texts};

verus! {

/// `solana_sdk::pubkey::Pubkey` as it displays itself: its 32 bytes in base58.
#[verifier::external_body]
fn pubkey_text(key: [u8; 32]) -> (text: String)
    ensures
        text@ == base58_text(key@),
{
    solana_sdk::pubkey::Pubkey::from(key).to_string()
}

/// How a list of public keys is written, each of them in base58.
pub open spec fn pubkeys_base58(keys: Seq<[u8; 32]>) -> Seq<Seq<char>> {
    keys.map_values(|key: [u8; 32]| base58_text(key@))
}

/// Writes a list of public keys as texts.
pub fn pubkey_texts(keys: &Vec<[u8; 32]>) -> (written: Vec<String>)
    ensures
        texts(written@) == pubkeys_base58(keys@),
{
    let mut written: Vec<String> = Vec::new();
    let mut i: usize = 0;
    while i < keys.len()
        invariant
            i <= keys.len(),
            written.len() == i,
            forall|k: int| 0 <= k < i ==> #[trigger] written@[k]@ == base58_text(keys@[k]@),
        decreases keys.len() - i,
    {
        written.push(pubkey_text(keys[i]));
        i = i + 1;
    }
    assert(texts(written@) =~= pubkeys_base58(keys@));
    written
}

/// A question to the cluster.
#[derive(Debug, Clone, Copy, PartialEq, Eq, Structural)]
pub enum ClusterQuery {
    /// Which slot is the current one, in a state that is as certain as `commitment` says?
    Slot { commitment: CommitmentLevel },
    /// Who leads `limit` slots, from the slot `start` on?
    SlotLeaders { start: u64, limit: u64 },
    /// Which nodes are there?
    ClusterNodes,
}

/// An answer to a [`ClusterQuery`].
#[derive(Debug, PartialEq)]
pub enum ClusterReply {
    Slot(u64),
    SlotLeaders(Vec<[u8; 32]>),
    ClusterNodes(Vec<ClusterNode>),
    /// The question could not be answered; why.
    Failed(String),
}

/// Whether `reply` is an answer to `query`.
pub open spec fn answers(reply: ClusterReply, query: ClusterQuery) -> bool {
    match reply {
        ClusterReply::Slot(_) => query is Slot,
        ClusterReply::SlotLeaders(_) => query is SlotLeaders,
        ClusterReply::ClusterNodes(_) => query is ClusterNodes,
        ClusterReply::Failed(_) => true,
    }
}

/// How far a renewal of the leaders' addresses has come.
#[derive(Debug, PartialEq)]
pub enum TpuRefresh {
    /// The current slot is asked for.
    Slot,
    /// The leaders from this slot on are asked for.
    Leaders { slot: u64 },
    /// The nodes are asked for, to find these leaders among them.
    Nodes { leaders: Vec<[u8; 32]> },
    /// The nodes are asked for, to do without leaders.
    Fallback,
}

/// What follows an answer.
#[derive(Debug, PartialEq)]
pub enum TpuStep {
    /// The renewal goes on.
    Continue(TpuRefresh),
    /// The renewal has found these addresses.
    Found(Vec<SocketAddr>),
    /// The renewal has failed; why.
    Failed(String),
}

impl TpuRefresh {
    /// The question that is open.
    pub open spec fn open_query(&self) -> ClusterQuery {
        match *self {
            TpuRefresh::Slot => ClusterQuery::Slot { commitment: CommitmentLevel::Processed },
            TpuRefresh::Leaders { slot } => ClusterQuery::SlotLeaders {
                start: slot,
                limit: FUTURE_SLOTS_COUNT as u64,
            },
            TpuRefresh::Nodes { .. } => ClusterQuery::ClusterNodes,
            TpuRefresh::Fallback => ClusterQuery::ClusterNodes,
        }
    }

    /// How many questions are left at most.
    pub open spec fn questions_left(&self) -> nat {
        match *self {
            TpuRefresh::Slot => 4,
            TpuRefresh::Leaders { .. } => 3,
            TpuRefresh::Nodes { .. } => 2,
            TpuRefresh::Fallback => 1,
        }
    }

    /// The question to ask.
    pub fn query(&self) -> (query: ClusterQuery)
        ensures
            query == self.open_query(),
    {
        match self {
            TpuRefresh::Slot => ClusterQuery::Slot { commitment: CommitmentLevel::Processed },
            TpuRefresh::Leaders { slot } => ClusterQuery::SlotLeaders {
                start: *slot,
                limit: FUTURE_SLOTS_COUNT as u64,
            },
            TpuRefresh::Nodes { .. } => ClusterQuery::ClusterNodes,
            TpuRefresh::Fallback => ClusterQuery::ClusterNodes,
        }
    }

    /// Takes the answer to the question that is open.
    ///
    /// Where the slot, the leaders or the nodes cannot be had, the renewal falls back on doing
    /// without leaders; only where the nodes cannot be had then, it fails. It is over after four
    /// answers at most, and what it finds is never empty.
    pub fn step(self, reply: ClusterReply) -> (step: TpuStep)
        requires
            answers(reply, self.open_query()),
        ensures
            is_tpu_step(self, reply, step),
            step matches TpuStep::Continue(next) ==> next.questions_left() < self.questions_left(),
            step matches TpuStep::Found(found) ==> found@.len() > 0,
    {
        match (self, reply) {
            (TpuRefresh::Slot, ClusterReply::Slot(slot)) => TpuStep::Continue(
                TpuRefresh::Leaders { slot },
            ),
            (TpuRefresh::Leaders { .. }, ClusterReply::SlotLeaders(leaders)) => TpuStep::Continue(
                TpuRefresh::Nodes { leaders },
            ),
            (TpuRefresh::Nodes { leaders }, ClusterReply::ClusterNodes(nodes)) => {
                let names = pubkey_texts(&leaders);
                TpuStep::Found(select_tpu_addresses(&names, &nodes))
            },
            (TpuRefresh::Fallback, ClusterReply::ClusterNodes(nodes)) => {
                let found = select_fallback_addresses(&nodes);
                proof {
                    fallback_list_is_never_empty(found@, nodes@);
                }
                TpuStep::Found(found)
            },
            (TpuRefresh::Fallback, ClusterReply::Failed(error)) => TpuStep::Failed(error),
            // The question was not answered; no other reply is left.
            _ => TpuStep::Continue(TpuRefresh::Fallback),
        }
    }
}

/// `step` is what follows the answer `reply` to a renewal that has come as far as `state`.
pub open spec fn is_tpu_step(state: TpuRefresh, reply: ClusterReply, step: TpuStep) -> bool {
    match (state, reply) {
        (TpuRefresh::Slot, ClusterReply::Slot(slot)) => step == TpuStep::Continue(
            TpuRefresh::Leaders { slot },
        ),
        (TpuRefresh::Leaders { .. }, ClusterReply::SlotLeaders(leaders)) => step
            == TpuStep::Continue(TpuRefresh::Nodes { leaders }),
        (TpuRefresh::Nodes { leaders }, ClusterReply::ClusterNodes(nodes)) => {
            step matches TpuStep::Found(found) && found@ == tpu_addresses(
                pubkeys_base58(leaders@),
                nodes@,
            )
        },
        (TpuRefresh::Fallback, ClusterReply::ClusterNodes(nodes)) => {
            step matches TpuStep::Found(found) && is_fallback_list(found@, nodes@)
        },
        (TpuRefresh::Fallback, ClusterReply::Failed(error)) => step == TpuStep::Failed(error),
        (_, ClusterReply::Failed(_)) => step == TpuStep::Continue(TpuRefresh::Fallback),
        _ => false,
    }
}

/// A renewal that has come as far as `state` and is answered `replies`, one after the other,
/// arrives at `last`.
pub open spec fn is_tpu_run(state: TpuRefresh, replies: Seq<ClusterReply>, last: TpuStep) -> bool
    decreases replies.len(),
{
    &&& replies.len() > 0
    &&& if replies.len() == 1 {
        is_tpu_step(state, replies[0], last)
    } else {
        exists|next: TpuRefresh| #[trigger]
            is_tpu_step(state, replies[0], TpuStep::Continue(next)) && is_tpu_run(
                next,
                replies.drop_first(),
                last,
            )
    }
}

/// A renewal is over after four answers at most, whatever the answers are.
pub proof fn tpu_renewal_is_over_soon(
    state: TpuRefresh,
    replies: Seq<ClusterReply>,
    last: TpuStep,
)
    requires
        is_tpu_run(state, replies, last),
    ensures
        replies.len() <= state.questions_left() <= 4,
        replies.len() == state.questions_left() ==> !(last is Continue),
    decreases replies.len(),
{
    if replies.len() > 1 {
        let next = choose|next: TpuRefresh| #[trigger]
            is_tpu_step(state, replies[0], TpuStep::Continue(next)) && is_tpu_run(
                next,
                replies.drop_first(),
                last,
            );
        tpu_renewal_is_over_soon(next, replies.drop_first(), last);
    }
}

/// A renewal to which every question is answered finds the list for the leaders and the nodes
/// that it was told.
pub proof fn tpu_renewal_goes_by_the_leaders(
    slot: u64,
    leaders: Vec<[u8; 32]>,
    nodes: Vec<ClusterNode>,
    last: TpuStep,
)
    requires
        is_tpu_run(
            TpuRefresh::Slot,
            seq![
                ClusterReply::Slot(slot),
                ClusterReply::SlotLeaders(leaders),
                ClusterReply::ClusterNodes(nodes),
            ],
            last,
        ),
    ensures
        last matches TpuStep::Found(found) && found@ == tpu_addresses(
            pubkeys_base58(leaders@),
            nodes@,
        ),
{
    let replies = seq![
        ClusterReply::Slot(slot),
        ClusterReply::SlotLeaders(leaders),
        ClusterReply::ClusterNodes(nodes),
    ];
    reveal_with_fuel(is_tpu_run, 3);
    assert(replies.drop_first()[0] == replies[1]);
    assert(replies.drop_first().drop_first()[0] == replies[2]);
}

/// A renewal does without leaders once a question is not answered, and fails only where the nodes
/// cannot be had then either: never on the first answer, and never after one failure alone.
pub proof fn tpu_renewal_survives_one_failure(
    state: TpuRefresh,
    replies: Seq<ClusterReply>,
    last: TpuStep,
)
    requires
        is_tpu_run(state, replies, last),
        last is Failed,
    ensures
        replies.last() is Failed,
        !(state is Fallback) ==> replies.len() >= 2 && replies[replies.len() - 2] is Failed,
    decreases replies.len(),
{
    if replies.len() > 1 {
        let rest = replies.drop_first();
        let next = choose|next: TpuRefresh| #[trigger]
            is_tpu_step(state, replies[0], TpuStep::Continue(next)) && is_tpu_run(next, rest, last);
        tpu_renewal_survives_one_failure(next, rest, last);
        assert(rest.last() == replies.last());
        if rest.len() == 1 {
            assert(replies[replies.len() - 2] == replies[0]);
        } else {
            assert(replies[replies.len() - 2] == rest[rest.len() - 2]);
        }
    }
}

/// How far a renewal of the Jito leaders' addresses has come.
#[derive(Debug, PartialEq)]
pub enum JitoRefresh {
    /// The current slot is asked for.
    Slot,
    /// The leaders from this slot on are asked for.
    Leaders { slot: u64 },
    /// The nodes are asked for, to find these leaders among them.
    Nodes { leaders: Vec<[u8; 32]> },
}

/// What follows an answer.
#[derive(Debug, PartialEq)]
pub enum JitoStep {
    /// The renewal goes on.
    Continue(JitoRefresh),
    /// The renewal has found these addresses.
    Found(Vec<SocketAddr>),
    /// The renewal has failed; why.
    Failed(String),
}

impl JitoRefresh {
    /// The question that is open.
    pub open spec fn open_query(&self) -> ClusterQuery {
        match *self {
            JitoRefresh::Slot => ClusterQuery::Slot { commitment: CommitmentLevel::Processed },
            JitoRefresh::Leaders { slot } => ClusterQuery::SlotLeaders {
                start: slot,
                limit: (FUTURE_SLOTS_COUNT * 2) as u64,
            },
            JitoRefresh::Nodes { .. } => ClusterQuery::ClusterNodes,
        }
    }

    /// How many questions are left at most.
    pub open spec fn questions_left(&self) -> nat {
        match *self {
            JitoRefresh::Slot => 3,
            JitoRefresh::Leaders { .. } => 2,
            JitoRefresh::Nodes { .. } => 1,
        }
    }

    /// What is said where the question that is open is not answered.
    pub open spec fn complaint(&self) -> Seq<char> {
        match *self {
            JitoRefresh::Slot => "Failed to get current slot: "@,
            JitoRefresh::Leaders { .. } => "Failed to get slot leaders: "@,
            JitoRefresh::Nodes { .. } => "Failed to get cluster nodes: "@,
        }
    }

    /// The question to ask.
    pub fn query(&self) -> (query: ClusterQuery)
        ensures
            query == self.open_query(),
    {
        match self {
            JitoRefresh::Slot => ClusterQuery::Slot { commitment: CommitmentLevel::Processed },
            JitoRefresh::Leaders { slot } => ClusterQuery::SlotLeaders {
                start: *slot,
                limit: (FUTURE_SLOTS_COUNT * 2) as u64,
            },
            JitoRefresh::Nodes { .. } => ClusterQuery::ClusterNodes,
        }
    }

    /// Takes the answer to the question that is open.
    ///
    /// `jito` is the list of Jito validators: only leaders that are on it are looked for. The
    /// renewal fails where a question cannot be answered or no such leader has an address. It is
    /// over after three answers at most, and what it finds is never empty.
    pub fn step(self, reply: ClusterReply, jito: &Vec<String>) -> (step: JitoStep)
        requires
            answers(reply, self.open_query()),
        ensures
            is_jito_step(self, reply, texts(jito@), step),
            step matches JitoStep::Continue(next) ==> next.questions_left() < self.questions_left(),
            step matches JitoStep::Found(found) ==> found@.len() > 0,
    {
        match (self, reply) {
            (JitoRefresh::Slot, ClusterReply::Slot(slot)) => JitoStep::Continue(
                JitoRefresh::Leaders { slot },
            ),
            (JitoRefresh::Leaders { .. }, ClusterReply::SlotLeaders(leaders)) => JitoStep::Continue(
                JitoRefresh::Nodes { leaders },
            ),
            (JitoRefresh::Nodes { leaders }, ClusterReply::ClusterNodes(nodes)) => {
                let names = pubkey_texts(&leaders);
                match select_jito_addresses(&names, jito, &nodes) {
                    Ok(found) => JitoStep::Found(found),
                    Err(message) => JitoStep::Failed(message),
                }
            },
            (JitoRefresh::Slot, ClusterReply::Failed(error)) => JitoStep::Failed(
                join("Failed to get current slot: ", error.as_str()),
            ),
            (JitoRefresh::Leaders { .. }, ClusterReply::Failed(error)) => JitoStep::Failed(
                join("Failed to get slot leaders: ", error.as_str()),
            ),
            (JitoRefresh::Nodes { .. }, ClusterReply::Failed(error)) => JitoStep::Failed(
                join("Failed to get cluster nodes: ", error.as_str()),
            ),
            // No other reply answers the question that is open.
            _ => JitoStep::Failed(String::new()),
        }
    }
}

/// `step` is what follows the answer `reply` to a renewal that has come as far as `state`, where
/// `jito` is the list of Jito validators.
pub open spec fn is_jito_step(
    state: JitoRefresh,
    reply: ClusterReply,
    jito: Seq<Seq<char>>,
    step: JitoStep,
) -> bool {
    match (state, reply) {
        (JitoRefresh::Slot, ClusterReply::Slot(slot)) => step == JitoStep::Continue(
            JitoRefresh::Leaders { slot },
        ),
        (JitoRefresh::Leaders { .. }, ClusterReply::SlotLeaders(leaders)) => step
            == JitoStep::Continue(JitoRefresh::Nodes { leaders }),
        (JitoRefresh::Nodes { leaders }, ClusterReply::ClusterNodes(nodes)) => {
            let addresses = jito_addresses(pubkeys_base58(leaders@), jito, nodes@);
            if addresses.len() > 0 {
                step matches JitoStep::Found(found) && found@ == addresses
            } else {
                step matches JitoStep::Failed(message) && message@
                    == "No Jito leader TPU addresses found"@
            }
        },
        (_, ClusterReply::Failed(error)) => {
            step matches JitoStep::Failed(message) && message@ == state.complaint() + error@
        },
        _ => false,
    }
}

/// A renewal that has come as far as `state` and is answered `replies`, one after the other,
/// arrives at `last`, where `jito` is the list of Jito validators.
pub open spec fn is_jito_run(
    state: JitoRefresh,
    replies: Seq<ClusterReply>,
    jito: Seq<Seq<char>>,
    last: JitoStep,
) -> bool
    decreases replies.len(),
{
    &&& replies.len() > 0
    &&& if replies.len() == 1 {
        is_jito_step(state, replies[0], jito, last)
    } else {
        exists|next: JitoRefresh| #[trigger]
            is_jito_step(state, replies[0], jito, JitoStep::Continue(next)) && is_jito_run(
                next,
                replies.drop_first(),
                jito,
                last,
            )
    }
}

/// A renewal is over after three answers at most, whatever the answers are, and with the first
/// question that is not answered.
pub proof fn jito_renewal_is_over_soon(
    state: JitoRefresh,
    replies: Seq<ClusterReply>,
    jito: Seq<Seq<char>>,
    last: JitoStep,
)
    requires
        is_jito_run(state, replies, jito, last),
    ensures
        replies.len() <= state.questions_left() <= 3,
        replies.len() == state.questions_left() ==> !(last is Continue),
        forall|i: int|
            0 <= i < replies.len() && #[trigger] replies[i] is Failed ==> i == replies.len() - 1
                && last is Failed,
    decreases replies.len(),
{
    if replies.len() > 1 {
        let rest = replies.drop_first();
        let next = choose|next: JitoRefresh| #[trigger]
            is_jito_step(state, replies[0], jito, JitoStep::Continue(next)) && is_jito_run(
            next,
            rest,
            jito,
            last,
        );
        jito_renewal_is_over_soon(next, rest, jito, last);
        assert forall|i: int|
            0 <= i < replies.len() && #[trigger] replies[i] is Failed implies i == replies.len() - 1
            && last is Failed by {
            if i > 0 {
                assert(rest[i - 1] == replies[i]);
            }
        }
    }
}

/// A renewal to which every question is answered finds the first Jito leaders among the nodes
/// that it was told, and fails where none of them has an address.
pub proof fn jito_renewal_goes_by_the_leaders(
    slot: u64,
    leaders: Vec<[u8; 32]>,
    nodes: Vec<ClusterNode>,
    jito: Seq<Seq<char>>,
    last: JitoStep,
)
    requires
        is_jito_run(
            JitoRefresh::Slot,
            seq![
                ClusterReply::Slot(slot),
                ClusterReply::SlotLeaders(leaders),
                ClusterReply::ClusterNodes(nodes),
            ],
            jito,
            last,
        ),
    ensures
        ({
            let addresses = jito_addresses(pubkeys_base58(leaders@), jito, nodes@);
            &&& addresses.len() > 0 ==> (last matches JitoStep::Found(found) && found@ == addresses)
            &&& addresses.len() == 0 ==> last is Failed
        }),
{
    let replies = seq![
        ClusterReply::Slot(slot),
        ClusterReply::SlotLeaders(leaders),
        ClusterReply::ClusterNodes(nodes),
    ];
    reveal_with_fuel(is_jito_run, 3);
    assert(replies.drop_first()[0] == replies[1]);
    assert(replies.drop_first().drop_first()[0] == replies[2]);
}

/// A renewal finds only real Jito nodes: each address is that of a node whose key is a leader's
/// and on the list of Jito validators.
pub proof fn jito_renewal_finds_only_jito_nodes(
    leaders: Vec<[u8; 32]>,
    nodes: Vec<ClusterNode>,
    jito: Seq<Seq<char>>,
    found: Vec<SocketAddr>,
    position: int,
)
    requires
        is_jito_step(
            JitoRefresh::Nodes { leaders },
            ClusterReply::ClusterNodes(nodes),
            jito,
            JitoStep::Found(found),
        ),
        0 <= position < found@.len(),
    ensures
        exists|leader: int, node: int|
            0 <= leader < leaders@.len() && 0 <= node < nodes@.len() && base58_text(
                (#[trigger] leaders@[leader])@,
            ) == (#[trigger] nodes@[node]).pubkey@ && jito.contains(nodes@[node].pubkey@)
                && node_address(nodes@[node]) == Some(found@[position]),
{
    let names = pubkeys_base58(leaders@);
    only_jito_nodes_are_chosen(names, jito, nodes@, position);
    let node = choose|i: int|
        0 <= i < nodes@.len() && names.contains((#[trigger] nodes@[i]).pubkey@) && jito.contains(
            nodes@[i].pubkey@,
        ) && node_address(nodes@[i]) == Some(jito_addresses(names, jito, nodes@)[position]);
    let leader = names.index_of(nodes@[node].pubkey@);
    assert(names[leader] == base58_text(leaders@[leader]@));
}

/// Puts the addresses that a renewal has found in place of those in `table`, and tells whether
/// that changes anything.
pub fn update_addresses(table: &mut Vec<SocketAddr>, found: Vec<SocketAddr>) -> (changed: bool)
    ensures
        final(table)@ == found@,
        changed == (old(table)@ != found@),
{
    if same_addresses(table, &found) {
        false
    } else {
        *table = found;
        true
    }
}

/// The keys of a list are written one for one, in their order, each in base58.
pub proof fn keys_are_written_one_for_one(keys: Seq<[u8; 32]>)
    ensures
        pubkeys_base58(keys).len() == keys.len(),
        forall|i: int|
            0 <= i < keys.len() ==> #[trigger] pubkeys_base58(keys)[i] == base58_text(keys[i]@),
{
}

/// A reply answers a question of its kind, and a failure answers any.
pub proof fn replies_answer_questions_of_their_kind(reply: ClusterReply, query: ClusterQuery)
    ensures
        answers(reply, query) <==> match (reply, query) {
            (ClusterReply::Slot(_), ClusterQuery::Slot { .. }) => true,
            (ClusterReply::SlotLeaders(_), ClusterQuery::SlotLeaders { .. }) => true,
            (ClusterReply::ClusterNodes(_), ClusterQuery::ClusterNodes) => true,
            (ClusterReply::Failed(_), _) => true,
            _ => false,
        },
{
}

/// A renewal asks for the slot that is processed, then for the leaders of ten slots from that very
/// slot on, then for the nodes, and finds the list for those leaders among those nodes.
pub proof fn tpu_renewal_asks_from_the_slot_on(
    slot: u64,
    leaders: Vec<[u8; 32]>,
    nodes: Vec<ClusterNode>,
    first: TpuStep,
    second: TpuStep,
    third: TpuStep,
)
    requires
        is_tpu_step(TpuRefresh::Slot, ClusterReply::Slot(slot), first),
        first matches TpuStep::Continue(state) ==> is_tpu_step(
            state,
            ClusterReply::SlotLeaders(leaders),
            second,
        ),
        second matches TpuStep::Continue(state) ==> is_tpu_step(
            state,
            ClusterReply::ClusterNodes(nodes),
            third,
        ),
    ensures
        TpuRefresh::Slot.open_query() == (ClusterQuery::Slot {
            commitment: CommitmentLevel::Processed,
        }),
        first matches TpuStep::Continue(state) && state.open_query() == (ClusterQuery::SlotLeaders {
            start: slot,
            limit: 10,
        }),
        second matches TpuStep::Continue(state) && state.open_query() == ClusterQuery::ClusterNodes,
        third matches TpuStep::Found(found) && found@ == tpu_addresses(
            pubkeys_base58(leaders@),
            nodes@,
        ),
{
}

/// The question that is open is that of the state that a renewal has come to.
pub proof fn tpu_state_tells_the_question(state: TpuRefresh)
    ensures
        match state {
            TpuRefresh::Slot => state.open_query() == (ClusterQuery::Slot {
                commitment: CommitmentLevel::Processed,
            }),
            TpuRefresh::Leaders { slot } => state.open_query() == (ClusterQuery::SlotLeaders {
                start: slot,
                limit: 10,
            }),
            TpuRefresh::Nodes { .. } => state.open_query() is ClusterNodes,
            TpuRefresh::Fallback => state.open_query() is ClusterNodes,
        },
{
}

/// Where a question is not answered, whichever it is, the nodes are asked for to do without
/// leaders: the renewal then finds the list of all nodes, and it fails, in the words of the last
/// failure, only where that question is not answered either.
pub proof fn tpu_renewal_falls_back_on_all_nodes(
    state: TpuRefresh,
    error: String,
    reply: ClusterReply,
    first: TpuStep,
    second: TpuStep,
)
    requires
        is_tpu_step(state, ClusterReply::Failed(error), first),
        first matches TpuStep::Continue(next) ==> is_tpu_step(next, reply, second),
    ensures
        state is Fallback ==> first == TpuStep::Failed(error),
        !(state is Fallback) ==> {
            &&& first matches TpuStep::Continue(next) && next.open_query()
                == ClusterQuery::ClusterNodes
            &&& reply matches ClusterReply::ClusterNodes(nodes) ==> (
            second matches TpuStep::Found(found) && is_fallback_list(found@, nodes@))
            &&& reply matches ClusterReply::Failed(again) ==> second == TpuStep::Failed(again)
        },
{
}

/// A renewal asks for the slot that is processed, then for the leaders of twenty slots from that
/// very slot on, then for the nodes, and finds the Jito leaders among those nodes, or fails where
/// there is none.
pub proof fn jito_renewal_asks_from_the_slot_on(
    slot: u64,
    leaders: Vec<[u8; 32]>,
    nodes: Vec<ClusterNode>,
    jito: Seq<Seq<char>>,
    first: JitoStep,
    second: JitoStep,
    third: JitoStep,
)
    requires
        is_jito_step(JitoRefresh::Slot, ClusterReply::Slot(slot), jito, first),
        first matches JitoStep::Continue(state) ==> is_jito_step(
            state,
            ClusterReply::SlotLeaders(leaders),
            jito,
            second,
        ),
        second matches JitoStep::Continue(state) ==> is_jito_step(
            state,
            ClusterReply::ClusterNodes(nodes),
            jito,
            third,
        ),
    ensures
        JitoRefresh::Slot.open_query() == (ClusterQuery::Slot {
            commitment: CommitmentLevel::Processed,
        }),
        first matches JitoStep::Continue(state) && state.open_query() == (ClusterQuery::SlotLeaders {
            start: slot,
            limit: 20,
        }),
        second matches JitoStep::Continue(state) && state.open_query() == ClusterQuery::ClusterNodes,
        ({
            let addresses = jito_addresses(pubkeys_base58(leaders@), jito, nodes@);
            &&& addresses.len() > 0 ==> (third matches JitoStep::Found(found) && found@ == addresses)
            &&& addresses.len() == 0 ==> (third matches JitoStep::Failed(message) && message@
                == "No Jito leader TPU addresses found"@)
        }),
{
}

/// The question that is open is that of the state that a renewal has come to.
pub proof fn jito_state_tells_the_question(state: JitoRefresh)
    ensures
        match state {
            JitoRefresh::Slot => state.open_query() == (ClusterQuery::Slot {
                commitment: CommitmentLevel::Processed,
            }),
            JitoRefresh::Leaders { slot } => state.open_query() == (ClusterQuery::SlotLeaders {
                start: slot,
                limit: 20,
            }),
            JitoRefresh::Nodes { .. } => state.open_query() is ClusterNodes,
        },
{
}

/// Where a question is not answered, the renewal fails and tells which question it was and why it
/// was not answered.
pub proof fn jito_renewal_tells_what_failed(
    state: JitoRefresh,
    error: String,
    jito: Seq<Seq<char>>,
    step: JitoStep,
)
    requires
        is_jito_step(state, ClusterReply::Failed(error), jito, step),
    ensures
        step matches JitoStep::Failed(message) && message@ == match state {
            JitoRefresh::Slot => "Failed to get current slot: "@ + error@,
            JitoRefresh::Leaders { .. } => "Failed to get slot leaders: "@ + error@,
            JitoRefresh::Nodes { .. } => "Failed to get cluster nodes: "@ + error@,
        },
{
}

} // verus!
