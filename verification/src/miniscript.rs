//! The abstract-syntax side: the script node model that the context
//! validation engine inspects, and the script resource limits.
//!
//! The concrete node type that descriptor trees are compiled into lives
//! outside this crate; what the validation engine reads of it is modelled
//! here as plain data: the node's syntactic shape, its correctness class,
//! and the precomputed extension metrics (serialized cost, worst-case
//! operation count, worst-case satisfaction size, worst-case stack element
//! counts).

pub mod context;

use vstd::prelude::*;

verus! {

/// Maximum number of non-push operations per script, at consensus level.
pub const MAX_OPS_PER_SCRIPT: usize = 201;

/// Maximum number of public keys in a legacy multi-key check.
pub const MAX_PUBKEYS_PER_MULTISIG: usize = 20;

/// Maximum size of a scriptSig accepted by relay policy, in bytes.
pub const MAX_SCRIPTSIG_SIZE: usize = 1650;

/// Maximum size of a single script element (and of a redeem script), in bytes.
pub const MAX_SCRIPT_ELEMENT_SIZE: usize = 520;

/// Maximum script size at consensus level, in bytes.
pub const MAX_SCRIPT_SIZE: usize = 10_000;

/// Maximum number of stack elements during script execution.
pub const MAX_STACK_SIZE: usize = 1000;

/// Maximum witness script size accepted by relay policy, in bytes.
pub const MAX_STANDARD_P2WSH_SCRIPT_SIZE: usize = 3600;

/// Maximum number of witness stack items accepted by relay policy.
pub const MAX_STANDARD_P2WSH_STACK_ITEMS: usize = 100;

/// What the validation engine reads of a public key: its encoding class,
/// how many derivation-path alternatives it expands to, and a label used in
/// diagnostics.
#[derive(Debug, Clone, PartialEq, Eq)]
pub struct Key {
    /// Whether the key uses the uncompressed encoding.
    pub uncompressed: bool,
    /// Whether the key is an x-only key.
    pub x_only: bool,
    /// The number of derivation-path alternatives of a multipath key;
    /// `0` or `1` means an ordinary single-path key.
    pub der_paths: usize,
    /// A human-readable description for diagnostics.
    pub name: String,
}

/// The syntactic correctness class of a node; a complete locking condition
/// has class `B`.
#[derive(Debug, Clone, Copy, PartialEq, Eq, Structural)]
pub enum Base {
    /// Base: pushes nonzero on satisfaction, zero on dissatisfaction.
    B,
    /// Key: a public key awaiting its check.
    K,
    /// Verify: aborts on dissatisfaction.
    V,
    /// Wrapped: consumes one stack element from below.
    W,
}

/// The precomputed extension metrics of a node, as supplied by the external
/// compiler. A `None` means the node cannot be satisfied at all.
#[derive(Debug, Clone, Copy, PartialEq, Eq)]
pub struct ExtData {
    /// The byte size of the serialized script.
    pub pk_cost: usize,
    /// The worst-case number of operations on any satisfaction path.
    pub ops_count: Option<usize>,
    /// Worst-case satisfaction size as a (witness-stack, script-sig) pair
    /// of byte counts.
    pub max_sat_size: Option<(usize, usize)>,
    /// Worst-case number of witness stack elements on any satisfaction
    /// path, the witness script not counted.
    pub stack_elem_count_sat: Option<usize>,
    /// Worst-case number of execution-stack elements on any satisfaction
    /// path.
    pub exec_stack_elem_count_sat: Option<usize>,
}

/// A `k`-of-`n` list of keys, as held by the multi-key fragments.
#[derive(Debug, Clone, PartialEq, Eq)]
pub struct KeyThreshold {
    /// The threshold value `k`.
    pub k: usize,
    /// The keys, in order.
    pub keys: Vec<Key>,
}

/// The syntactic shape of a node, as far as the validation engine reads
/// it: the fragments it discriminates carry their data, and every other
/// fragment is `Other` with its child nodes.
pub enum Terminal {
    /// A raw public-key check.
    PkK(Key),
    /// A public-key-hash check on a known key.
    PkH(Key),
    /// A public-key-hash check on a bare hash whose key is not known.
    RawPkH,
    /// The check wrapper turning a key into a condition.
    Check(Box<Miniscript>),
    /// The duplicate-and-branch wrapper.
    DupIf(Box<Miniscript>),
    /// An alternative encoded through branch ordering.
    OrI(Box<Miniscript>, Box<Miniscript>),
    /// The legacy multi-key check.
    Multi(KeyThreshold),
    /// The batched-signature multi-key check of the newest context.
    MultiA(KeyThreshold),
    /// Any other fragment, with its child nodes.
    Other(Vec<Miniscript>),
}

/// A compiled script node: its shape, its correctness class and its
/// extension metrics.
pub struct Miniscript {
    /// The node's syntactic shape.
    pub node: Terminal,
    /// The correctness class of the node.
    pub base: Base,
    /// The node's precomputed extension metrics.
    pub ext: ExtData,
}

/// All keys of a node's whole tree, in visiting order.
pub open spec fn keys_of(ms: Miniscript) -> Seq<Key>
    decreases ms,
{
    keys_of_terminal(ms.node)
}

/// All keys of a shape, in visiting order.
pub open spec fn keys_of_terminal(t: Terminal) -> Seq<Key>
    decreases t,
{
    match t {
        Terminal::PkK(k) => seq![k],
        Terminal::PkH(k) => seq![k],
        Terminal::RawPkH => Seq::empty(),
        Terminal::Check(sub) => keys_of(*sub),
        Terminal::DupIf(sub) => keys_of(*sub),
        Terminal::OrI(a, b) => keys_of(*a) + keys_of(*b),
        Terminal::Multi(th) => th.keys@,
        Terminal::MultiA(th) => th.keys@,
        Terminal::Other(children) => keys_of_seq(children@),
    }
}

/// All keys of a sequence of nodes, in order.
pub open spec fn keys_of_seq(ms: Seq<Miniscript>) -> Seq<Key>
    decreases ms,
{
    if ms.len() == 0 {
        Seq::empty()
    } else {
        keys_of(ms[0]) + keys_of_seq(ms.drop_first())
    }
}

/// The size a witness item occupies in a script-sig push: one byte where
/// the item re-encodes as a single small-number opcode, and otherwise the
/// item plus its push-length prefix.
pub open spec fn push_len(item: Seq<u8>) -> int {
    let l = item.len() as int;
    if l == 0 {
        1
    } else if l == 1 && (1 <= item[0] <= 16 || item[0] == 0x81) {
        1
    } else if l < 76 {
        1 + l
    } else if l <= 255 {
        2 + l
    } else if l <= 65535 {
        3 + l
    } else {
        5 + l
    }
}

/// The byte size of the script-sig that pushes the given witness items in
/// order.
pub open spec fn scriptsig_len_spec(w: Seq<Seq<u8>>) -> int
    decreases w,
{
    if w.len() == 0 {
        0
    } else {
        push_len(w[0]) + scriptsig_len_spec(w.drop_first())
    }
}

/// A script-sig is never shorter than later items alone.
proof fn lemma_scriptsig_len_skip(w: Seq<Seq<u8>>, i: int)
    requires
        0 <= i <= w.len(),
    ensures
        scriptsig_len_spec(w) == scriptsig_len_spec(w.take(i)) + scriptsig_len_spec(w.skip(i)),
        scriptsig_len_spec(w.take(i)) >= 0,
    decreases i,
{
    if i == 0 {
        assert(w.take(0) =~= Seq::<Seq<u8>>::empty());
        assert(w.skip(0) =~= w);
    } else {
        lemma_scriptsig_len_skip(w.drop_first(), i - 1);
        assert(w.take(i).drop_first() =~= w.drop_first().take(i - 1));
        assert(w.take(i)[0] == w[0]);
        assert(w.skip(i) =~= w.drop_first().skip(i - 1));
    }
}

/// The byte size of the script-sig built by pushing each witness item.
///
/// This models what the external script builder produces when a witness is
/// rendered as a legacy script-sig; only the size is of interest here.
pub(crate) fn scriptsig_length(witness: &[Vec<u8>]) -> (r: usize)
    requires
        scriptsig_len_spec(witness.deep_view()) <= usize::MAX,
    ensures
        r == scriptsig_len_spec(witness.deep_view()),
{
    let ghost w = witness.deep_view();
    let n = witness.len();
    proof {
        assert(w.len() == n);
    }
    let mut total: usize = 0;
    let mut i: usize = 0;
    while i < n
        invariant
            0 <= i <= n,
            n == w.len(),
            w == witness.deep_view(),
            scriptsig_len_spec(w) <= usize::MAX,
            total == scriptsig_len_spec(w.take(i as int)),
        decreases n - i,
    {
        let item = vstd::slice::slice_index_get(witness, i);
        let l = item.len();
        proof {
            assert(w[i as int] == item@);
            lemma_scriptsig_len_skip(w, i as int);
            lemma_scriptsig_len_skip(w, i + 1);
            assert(w.take(i + 1).drop_last() =~= w.take(i as int));
            assert(scriptsig_len_spec(w.take(i + 1)) == scriptsig_len_spec(w.take(i as int))
                + push_len(w[i as int])) by {
                lemma_scriptsig_len_take_succ(w, i as int);
            }
            assert(scriptsig_len_spec(w.skip(i + 1)) >= 0) by {
                lemma_scriptsig_len_nonneg(w.skip(i + 1));
            }
        }
        let add: usize = if l == 0 {
            1
        } else if l == 1 && (1 <= item[0] && item[0] <= 16 || item[0] == 0x81) {
            1
        } else if l < 76 {
            1 + l
        } else if l <= 255 {
            2 + l
        } else if l <= 65535 {
            3 + l
        } else {
            5 + l
        };
        total = total + add;
        i += 1;
    }
    proof {
        assert(w.take(n as int) =~= w);
    }
    total
}

/// The contribution of each item is at least one byte.
proof fn lemma_scriptsig_len_nonneg(w: Seq<Seq<u8>>)
    ensures
        scriptsig_len_spec(w) >= 0,
    decreases w,
{
    if w.len() > 0 {
        lemma_scriptsig_len_nonneg(w.drop_first());
    }
}

/// Taking one more item adds exactly its push size.
proof fn lemma_scriptsig_len_take_succ(w: Seq<Seq<u8>>, i: int)
    requires
        0 <= i < w.len(),
    ensures
        scriptsig_len_spec(w.take(i + 1)) == scriptsig_len_spec(w.take(i)) + push_len(w[i]),
    decreases i,
{
    if i == 0 {
        reveal_with_fuel(scriptsig_len_spec, 3);
        assert(w.take(1).drop_first() =~= Seq::<Seq<u8>>::empty());
        assert(w.take(0) =~= Seq::<Seq<u8>>::empty());
        assert(w.take(1)[0] == w[0]);
    } else {
        lemma_scriptsig_len_take_succ(w.drop_first(), i - 1);
        assert(w.take(i + 1).drop_first() =~= w.drop_first().take(i));
        assert(w.take(i).drop_first() =~= w.drop_first().take(i - 1));
        assert(w.take(i + 1)[0] == w[0]);
        assert(w.take(i)[0] == w[0]);
        assert(w.drop_first()[i - 1] == w[i]);
    }
}

} // verus!
