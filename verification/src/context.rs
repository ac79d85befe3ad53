//! The canonical data of one block, fetched once from the truth endpoint
//! and reused for every probe of that block.

use vstd::prelude::*;
use crate::json::{Json, JsonV, jv_get, arr_view};
use crate::spec_parse_hex;

verus! {

/// What one transaction contributes to the probe arguments: its hash and
/// position, the sender's address, and — when its receipt exposes logs —
/// the first log's emitting address and the last log's first topic.
pub struct TxContext {
    pub hash: String,
    pub sender: String,
    pub index: u64,
    pub first_log_address: Option<String>,
    pub last_log_topic: Option<String>,
}

/// The mathematical value of a [`TxContext`].
#[verifier::ext_equal]
pub struct TxContextV {
    pub hash: Seq<char>,
    pub sender: Seq<char>,
    pub index: u64,
    pub first_log_address: Option<Seq<char>>,
    pub last_log_topic: Option<Seq<char>>,
}

/// The value of an optional string.
pub open spec fn opt_view(o: Option<String>) -> Option<Seq<char>> {
    match o {
        Some(s) => Some(s@),
        None => None,
    }
}

impl View for TxContext {
    type V = TxContextV;

    open spec fn view(&self) -> TxContextV {
        TxContextV {
            hash: self.hash@,
            sender: self.sender@,
            index: self.index,
            first_log_address: opt_view(self.first_log_address),
            last_log_topic: opt_view(self.last_log_topic),
        }
    }
}

/// The canonical data of one block: its number, hash and the transactions
/// whose probes will run.
pub struct BlockContext {
    pub number: u64,
    pub hash: String,
    pub txs: Vec<TxContext>,
}

/// The mathematical value of a [`BlockContext`].
#[verifier::ext_equal]
pub struct BlockContextV {
    pub number: u64,
    pub hash: Seq<char>,
    pub txs: Seq<TxContextV>,
}

impl View for BlockContext {
    type V = BlockContextV;

    open spec fn view(&self) -> BlockContextV {
        BlockContextV {
            number: self.number,
            hash: self.hash@,
            txs: Seq::new(
                self.txs@.len(),
                |i: int|
                    if 0 <= i < self.txs@.len() {
                        self.txs@[i]@
                    } else {
                        TxContextV {
                            hash: Seq::empty(),
                            sender: Seq::empty(),
                            index: 0,
                            first_log_address: None,
                            last_log_topic: None,
                        }
                    },
            ),
        }
    }
}

/// A transaction's identity as the truth block lists it.
pub struct TxBasic {
    pub hash: String,
    pub sender: String,
}

/// The mathematical value of a [`TxBasic`].
#[verifier::ext_equal]
pub struct TxBasicV {
    pub hash: Seq<char>,
    pub sender: Seq<char>,
}

impl View for TxBasic {
    type V = TxBasicV;

    open spec fn view(&self) -> TxBasicV {
        TxBasicV { hash: self.hash@, sender: self.sender@ }
    }
}

/// The values of a list of transaction identities.
pub open spec fn tx_basics_view(s: Seq<TxBasic>) -> Seq<TxBasicV> {
    Seq::new(
        s.len(),
        |i: int|
            if 0 <= i < s.len() {
                s[i]@
            } else {
                TxBasicV { hash: Seq::empty(), sender: Seq::empty() }
            },
    )
}

/// What one entry of the block's transaction list must hold: the
/// transaction's hash and its sender's address.
pub open spec fn spec_tx_basic(v: JsonV) -> Option<TxBasicV> {
    match (jv_get(v, "hash"@), jv_get(v, "from"@)) {
        (Some(JsonV::Str(h)), Some(JsonV::Str(f))) => Some(TxBasicV { hash: h, sender: f }),
        _ => None,
    }
}

/// The transaction identities from position `i` on; nothing when any entry
/// is malformed.
pub open spec fn spec_txs_from(items: Seq<JsonV>, i: nat) -> Option<Seq<TxBasicV>>
    decreases items.len() - i,
{
    if i >= items.len() {
        Some(Seq::empty())
    } else {
        match (spec_tx_basic(items[i as int]), spec_txs_from(items, i + 1)) {
            (Some(t), Some(rest)) => Some(seq![t] + rest),
            _ => None,
        }
    }
}

/// What the truth endpoint's block must hold for block number `n`: its
/// hash, a `number` field that denotes `n`, and a well-formed transaction
/// list. Anything else is a fatal fetch failure.
pub open spec fn spec_parse_block(v: JsonV, n: u64) -> Option<(Seq<char>, Seq<TxBasicV>)> {
    match (jv_get(v, "hash"@), jv_get(v, "number"@), jv_get(v, "transactions"@)) {
        (Some(JsonV::Str(h)), Some(JsonV::Str(ns)), Some(JsonV::Arr(txs))) => if spec_parse_hex(ns)
            == Some(n) {
            match spec_txs_from(txs, 0) {
                Some(ts) => Some((h, ts)),
                None => None,
            }
        } else {
            None
        },
        _ => None,
    }
}

/// Reads one transaction entry.
fn tx_basic(v: &Json) -> (r: Option<TxBasic>)
    ensures
        match r {
            Some(t) => spec_tx_basic(v@) == Some(t@),
            None => spec_tx_basic(v@) is None,
        },
{
    let h = match v.get("hash") {
        Some(Json::Str(h)) => h.clone(),
        _ => {
            return None;
        },
    };
    let f = match v.get("from") {
        Some(Json::Str(f)) => f.clone(),
        _ => {
            return None;
        },
    };
    Some(TxBasic { hash: h, sender: f })
}

/// Reads the truth endpoint's block for number `n`: its hash and its
/// transaction identities, or nothing when the reply is malformed.
pub fn parse_block(v: &Json, n: u64) -> (r: Option<(String, Vec<TxBasic>)>)
    ensures
        match r {
            Some(p) => spec_parse_block(v@, n) == Some((p.0@, tx_basics_view(p.1@))),
            None => spec_parse_block(v@, n) is None,
        },
{
    let h = match v.get("hash") {
        Some(Json::Str(h)) => h.clone(),
        _ => {
            return None;
        },
    };
    let ns = match v.get("number") {
        Some(Json::Str(ns)) => ns,
        _ => {
            return None;
        },
    };
    match crate::parse_hex(ns.as_str()) {
        Some(m) => {
            if m != n {
                return None;
            }
        },
        None => {
            return None;
        },
    }
    let items = match v.get("transactions") {
        Some(Json::Arr(items)) => items,
        _ => {
            return None;
        },
    };
    let ghost av = arr_view(items@);
    let mut out: Vec<TxBasic> = Vec::new();
    let mut i: usize = 0;
    while i < items.len()
        invariant
            i <= items@.len(),
            av == arr_view(items@),
            jv_get(v@, "hash"@) == Some(JsonV::Str(h@)),
            jv_get(v@, "number"@) is Some,
            jv_get(v@, "number"@)->0 is Str,
            spec_parse_hex(jv_get(v@, "number"@)->0->Str_0) == Some(n),
            jv_get(v@, "transactions"@) == Some(JsonV::Arr(av)),
            out@.len() == i,
            forall|k: int| 0 <= k < i ==> spec_tx_basic(av[k]) == Some((#[trigger] out@[k])@),
        decreases items@.len() - i,
    {
        match tx_basic(&items[i]) {
            Some(t) => {
                out.push(t);
            },
            None => {
                proof {
                    lemma_txs_prefix_none(av, i as nat);
                }
                return None;
            },
        }
        i += 1;
    }
    proof {
        lemma_txs_prefix_some(av, tx_basics_view(out@));
    }
    Some((h, out))
}

/// A malformed entry anywhere makes the whole list malformed.
proof fn lemma_txs_prefix_none(items: Seq<JsonV>, i: nat)
    requires
        i < items.len(),
        spec_tx_basic(items[i as int]) is None,
    ensures
        spec_txs_from(items, 0) is None,
{
    lemma_txs_from_none(items, 0, i);
}

/// Helper: the malformed entry poisons every earlier suffix.
proof fn lemma_txs_from_none(items: Seq<JsonV>, k: nat, i: nat)
    requires
        k <= i < items.len(),
        spec_tx_basic(items[i as int]) is None,
    ensures
        spec_txs_from(items, k) is None,
    decreases i - k,
{
    if k < i {
        lemma_txs_from_none(items, k + 1, i);
    }
}

/// A list whose entries all parse yields exactly those entries.
proof fn lemma_txs_prefix_some(items: Seq<JsonV>, ts: Seq<TxBasicV>)
    requires
        ts.len() == items.len(),
        forall|k: int| 0 <= k < items.len() ==> spec_tx_basic(items[k]) == Some(#[trigger] ts[k]),
    ensures
        spec_txs_from(items, 0) == Some(ts),
{
    lemma_txs_from_some(items, ts, 0);
    assert(ts.skip(0) =~= ts);
}

/// Helper: the suffix from `k` yields the matching suffix of the entries.
proof fn lemma_txs_from_some(items: Seq<JsonV>, ts: Seq<TxBasicV>, k: nat)
    requires
        k <= items.len(),
        ts.len() == items.len(),
        forall|j: int| 0 <= j < items.len() ==> spec_tx_basic(items[j]) == Some(#[trigger] ts[j]),
    ensures
        spec_txs_from(items, k) == Some(ts.skip(k as int)),
    decreases items.len() - k,
{
    if k >= items.len() {
        assert(ts.skip(k as int) =~= Seq::empty());
    } else {
        lemma_txs_from_some(items, ts, k + 1);
        assert(seq![ts[k as int]] + ts.skip(k as int + 1) =~= ts.skip(k as int));
    }
}

/// What a transaction receipt contributes: nothing at all when the truth
/// endpoint has no receipt (a null reply); otherwise the first log's
/// emitting address and the last log's first topic, where present. A
/// receipt without a well-formed log list is a fatal fetch failure.
pub open spec fn spec_parse_receipt(v: JsonV) -> Option<(Option<Seq<char>>, Option<Seq<char>>)> {
    if v is Null {
        Some((None, None))
    } else {
        match jv_get(v, "logs"@) {
            Some(JsonV::Arr(logs)) => if logs.len() == 0 {
                Some((None, None))
            } else {
                match (jv_get(logs[0], "address"@), jv_get(logs[logs.len() - 1], "topics"@)) {
                    (Some(JsonV::Str(addr)), Some(JsonV::Arr(topics))) => if topics.len() == 0 {
                        Some((Some(addr), None))
                    } else {
                        match topics[0] {
                            JsonV::Str(t) => Some((Some(addr), Some(t))),
                            _ => None,
                        }
                    },
                    _ => None,
                }
            },
            _ => None,
        }
    }
}

/// Reads a transaction receipt reply from the truth endpoint.
pub fn parse_receipt(v: &Json) -> (r: Option<(Option<String>, Option<String>)>)
    ensures
        match r {
            Some(p) => spec_parse_receipt(v@) == Some((opt_view(p.0), opt_view(p.1))),
            None => spec_parse_receipt(v@) is None,
        },
{
    if let Json::Null = v {
        return Some((None, None));
    }
    let logs = match v.get("logs") {
        Some(Json::Arr(logs)) => logs,
        _ => {
            return None;
        },
    };
    if logs.len() == 0 {
        return Some((None, None));
    }
    let addr = match logs[0].get("address") {
        Some(Json::Str(a)) => a.clone(),
        _ => {
            return None;
        },
    };
    let topics = match logs[logs.len() - 1].get("topics") {
        Some(Json::Arr(topics)) => topics,
        _ => {
            return None;
        },
    };
    if topics.len() == 0 {
        return Some((Some(addr), None));
    }
    proof {
        assert(!(v@ is Null));
        assert(jv_get(v@, "logs"@) == Some(JsonV::Arr(arr_view(logs@))));
        assert(arr_view(logs@).len() == logs@.len());
        assert(jv_get(arr_view(logs@)[0], "address"@) == Some(JsonV::Str(addr@)));
        assert(jv_get(arr_view(logs@)[logs@.len() - 1], "topics"@) == Some(
            JsonV::Arr(arr_view(topics@)),
        ));
        assert(arr_view(topics@).len() == topics@.len() > 0);
    }
    match &topics[0] {
        Json::Str(t) => {
            proof {
                assert(arr_view(topics@)[0] == JsonV::Str(t@));
                assert(spec_parse_receipt(v@) == Some(
                    (Some::<Seq<char>>(addr@), Some::<Seq<char>>(t@)),
                ));
            }
            Some((Some(addr), Some(t.clone())))
        },
        _ => {
            proof {
                assert(!(arr_view(topics@)[0] is Str));
                assert(spec_parse_receipt(v@) is None);
            }
            None
        },
    }
}

} // verus!
