//! The context validation engine: a closed capability contract implemented
//! by a fixed set of context markers, each supplying its own numeric
//! limits, key-compatibility rules and malleability rules.

use vstd::prelude::*;

use crate::miniscript::{
    keys_of, scriptsig_len_spec, Base, Key, Miniscript, Terminal, MAX_OPS_PER_SCRIPT,
    MAX_SCRIPTSIG_SIZE, MAX_SCRIPT_ELEMENT_SIZE, MAX_SCRIPT_SIZE, MAX_STACK_SIZE,
    MAX_STANDARD_P2WSH_SCRIPT_SIZE, MAX_STANDARD_P2WSH_STACK_ITEMS,
};

verus! {

/// Error for script-context validation.
#[derive(Debug, Clone, PartialEq, Eq)]
pub enum ScriptContextError {
    /// The key-hash check is malleable under this context's rules, because
    /// the satisfaction cost cannot be estimated for uncompressed keys.
    MalleablePkH,
    /// The branch-ordering alternative is malleable under this context's
    /// rules, which allow a non-minimal branch encoding.
    MalleableOrI,
    /// The duplicate-and-branch wrapper is malleable under this context's
    /// rules, which allow a non-minimal branch encoding.
    MalleableDupIf,
    /// Only compressed keys are allowed; carries the offending key.
    CompressedOnly(String),
    /// X-only keys are not allowed here; carries the offending key and the
    /// name of the current context.
    XOnlyKeysNotAllowed(String, &'static str),
    /// Uncompressed keys are not allowed in this context.
    UncompressedKeysNotAllowed,
    /// A satisfaction path has more witness items than the limit.
    MaxWitnessItemsExceeded {
        /// How many items the path has.
        actual: usize,
        /// The context's ceiling.
        limit: usize,
    },
    /// A satisfaction path has more operations than the limit.
    MaxOpCountExceeded {
        /// How many operations the path has.
        actual: usize,
        /// The context's ceiling.
        limit: usize,
    },
    /// The serialized witness script would exceed this context's ceiling.
    MaxWitnessScriptSizeExceeded {
        /// The context's ceiling.
        max: usize,
        /// The serialized size.
        got: usize,
    },
    /// The serialized redeem script would exceed this context's ceiling.
    MaxRedeemScriptSizeExceeded {
        /// The context's ceiling.
        max: usize,
        /// The serialized size.
        got: usize,
    },
    /// The serialized bare script would exceed this context's ceiling.
    MaxBareScriptSizeExceeded {
        /// The context's ceiling.
        max: usize,
        /// The serialized size.
        got: usize,
    },
    /// A script-sig would exceed the relay-policy size ceiling.
    MaxScriptSigSizeExceeded {
        /// The script-sig size.
        actual: usize,
        /// The ceiling.
        limit: usize,
    },
    /// The node cannot be satisfied under the current context.
    ImpossibleSatisfaction,
    /// The legacy multi-key fragment is disabled in the newest context.
    TaprootMultiDisabled,
    /// Combined stack and execution-stack size would exceed the limit on
    /// some execution path.
    StackSizeLimitExceeded {
        /// The combined size.
        actual: usize,
        /// The ceiling.
        limit: usize,
    },
    /// The batched-signature fragment is only allowed in the newest
    /// context.
    MultiANotAllowed,
}

/// The mathematical shape of a [`ScriptContextError`]: the same variants,
/// with key descriptions and context names as character sequences.
pub enum ScriptContextErrorV {
    /// See [`ScriptContextError::MalleablePkH`].
    MalleablePkH,
    /// See [`ScriptContextError::MalleableOrI`].
    MalleableOrI,
    /// See [`ScriptContextError::MalleableDupIf`].
    MalleableDupIf,
    /// See [`ScriptContextError::CompressedOnly`].
    CompressedOnly(Seq<char>),
    /// See [`ScriptContextError::XOnlyKeysNotAllowed`].
    XOnlyKeysNotAllowed(Seq<char>, Seq<char>),
    /// See [`ScriptContextError::UncompressedKeysNotAllowed`].
    UncompressedKeysNotAllowed,
    /// See [`ScriptContextError::MaxWitnessItemsExceeded`].
    MaxWitnessItemsExceeded {
        /// How many items the path has.
        actual: usize,
        /// The context's ceiling.
        limit: usize,
    },
    /// See [`ScriptContextError::MaxOpCountExceeded`].
    MaxOpCountExceeded {
        /// How many operations the path has.
        actual: usize,
        /// The context's ceiling.
        limit: usize,
    },
    /// See [`ScriptContextError::MaxWitnessScriptSizeExceeded`].
    MaxWitnessScriptSizeExceeded {
        /// The context's ceiling.
        max: usize,
        /// The serialized size.
        got: usize,
    },
    /// See [`ScriptContextError::MaxRedeemScriptSizeExceeded`].
    MaxRedeemScriptSizeExceeded {
        /// The context's ceiling.
        max: usize,
        /// The serialized size.
        got: usize,
    },
    /// See [`ScriptContextError::MaxBareScriptSizeExceeded`].
    MaxBareScriptSizeExceeded {
        /// The context's ceiling.
        max: usize,
        /// The serialized size.
        got: usize,
    },
    /// See [`ScriptContextError::MaxScriptSigSizeExceeded`].
    MaxScriptSigSizeExceeded {
        /// The script-sig size.
        actual: usize,
        /// The ceiling.
        limit: usize,
    },
    /// See [`ScriptContextError::ImpossibleSatisfaction`].
    ImpossibleSatisfaction,
    /// See [`ScriptContextError::TaprootMultiDisabled`].
    TaprootMultiDisabled,
    /// See [`ScriptContextError::StackSizeLimitExceeded`].
    StackSizeLimitExceeded {
        /// The combined size.
        actual: usize,
        /// The ceiling.
        limit: usize,
    },
    /// See [`ScriptContextError::MultiANotAllowed`].
    MultiANotAllowed,
}

impl View for ScriptContextError {
    type V = ScriptContextErrorV;

    open spec fn view(&self) -> ScriptContextErrorV {
        match self {
            ScriptContextError::MalleablePkH => ScriptContextErrorV::MalleablePkH,
            ScriptContextError::MalleableOrI => ScriptContextErrorV::MalleableOrI,
            ScriptContextError::MalleableDupIf => ScriptContextErrorV::MalleableDupIf,
            ScriptContextError::CompressedOnly(pk) => ScriptContextErrorV::CompressedOnly(pk@),
            ScriptContextError::XOnlyKeysNotAllowed(pk, ctx) => {
                ScriptContextErrorV::XOnlyKeysNotAllowed(pk@, ctx@)
            },
            ScriptContextError::UncompressedKeysNotAllowed => {
                ScriptContextErrorV::UncompressedKeysNotAllowed
            },
            ScriptContextError::MaxWitnessItemsExceeded { actual, limit } => {
                ScriptContextErrorV::MaxWitnessItemsExceeded { actual: *actual, limit: *limit }
            },
            ScriptContextError::MaxOpCountExceeded { actual, limit } => {
                ScriptContextErrorV::MaxOpCountExceeded { actual: *actual, limit: *limit }
            },
            ScriptContextError::MaxWitnessScriptSizeExceeded { max, got } => {
                ScriptContextErrorV::MaxWitnessScriptSizeExceeded { max: *max, got: *got }
            },
            ScriptContextError::MaxRedeemScriptSizeExceeded { max, got } => {
                ScriptContextErrorV::MaxRedeemScriptSizeExceeded { max: *max, got: *got }
            },
            ScriptContextError::MaxBareScriptSizeExceeded { max, got } => {
                ScriptContextErrorV::MaxBareScriptSizeExceeded { max: *max, got: *got }
            },
            ScriptContextError::MaxScriptSigSizeExceeded { actual, limit } => {
                ScriptContextErrorV::MaxScriptSigSizeExceeded { actual: *actual, limit: *limit }
            },
            ScriptContextError::ImpossibleSatisfaction => {
                ScriptContextErrorV::ImpossibleSatisfaction
            },
            ScriptContextError::TaprootMultiDisabled => ScriptContextErrorV::TaprootMultiDisabled,
            ScriptContextError::StackSizeLimitExceeded { actual, limit } => {
                ScriptContextErrorV::StackSizeLimitExceeded { actual: *actual, limit: *limit }
            },
            ScriptContextError::MultiANotAllowed => ScriptContextErrorV::MultiANotAllowed,
        }
    }
}

/// The shape of a whole validation result.
pub open spec fn ctx_result_view(r: Result<(), ScriptContextError>) -> Result<
    (),
    ScriptContextErrorV,
> {
    match r {
        Ok(()) => Ok(()),
        Err(e) => Err(e@),
    }
}

/// Signature algorithm type.
#[derive(Debug, Clone, Copy, Hash, PartialEq, Eq, Structural)]
pub enum SigType {
    /// An ECDSA signature.
    Ecdsa,
    /// A Schnorr signature.
    Schnorr,
}

/// Accumulator of the multipath-key scan: either no multipath key was seen
/// yet, or every one seen so far had the same count, or two different
/// counts appeared.
#[derive(Debug, Clone, Copy, PartialEq, Eq, Structural)]
pub enum MultipathLenChecker {
    /// No multipath key seen yet.
    SinglePath,
    /// Every multipath key seen so far expands to this many alternatives.
    MultipathLen(usize),
    /// Two multipath keys with different counts were seen.
    LenMismatch,
}

/// One step of the multipath scan: single-path keys leave the state alone;
/// a multipath key either fixes the count, confirms it, or exposes a
/// mismatch.
pub open spec fn mp_step(st: MultipathLenChecker, k: Key) -> MultipathLenChecker {
    let n = k.der_paths;
    if n == 0 || n == 1 {
        st
    } else {
        match st {
            MultipathLenChecker::SinglePath => MultipathLenChecker::MultipathLen(n),
            MultipathLenChecker::MultipathLen(len) => {
                if len != n {
                    MultipathLenChecker::LenMismatch
                } else {
                    st
                }
            },
            MultipathLenChecker::LenMismatch => st,
        }
    }
}

/// The multipath scan over a sequence of keys, left to right.
pub open spec fn mp_fold(keys: Seq<Key>, st: MultipathLenChecker) -> MultipathLenChecker
    decreases keys,
{
    if keys.len() == 0 {
        st
    } else {
        mp_fold(keys.drop_first(), mp_step(st, keys[0]))
    }
}

/// Scanning a concatenation scans the parts in order.
proof fn lemma_mp_fold_concat(a: Seq<Key>, b: Seq<Key>, st: MultipathLenChecker)
    ensures
        mp_fold(a + b, st) == mp_fold(b, mp_fold(a, st)),
    decreases a,
{
    if a.len() == 0 {
        assert(a + b =~= b);
    } else {
        assert((a + b).drop_first() =~= a.drop_first() + b);
        assert((a + b)[0] == a[0]);
        lemma_mp_fold_concat(a.drop_first(), b, mp_step(st, a[0]));
    }
}

/// Scanning a single key is one step.
proof fn lemma_mp_fold_single(k: Key, st: MultipathLenChecker)
    ensures
        mp_fold(seq![k], st) == mp_step(st, k),
{
    reveal_with_fuel(mp_fold, 2);
    assert(seq![k].drop_first() =~= Seq::<Key>::empty());
    assert(seq![k][0] == k);
}

/// One exec step of the multipath scan.
fn mp_step_exec(st: MultipathLenChecker, k: &Key) -> (r: MultipathLenChecker)
    ensures
        r == mp_step(st, *k),
{
    let n = k.der_paths;
    if n == 0 || n == 1 {
        st
    } else {
        match st {
            MultipathLenChecker::SinglePath => MultipathLenChecker::MultipathLen(n),
            MultipathLenChecker::MultipathLen(len) => {
                if len != n {
                    MultipathLenChecker::LenMismatch
                } else {
                    st
                }
            },
            MultipathLenChecker::LenMismatch => st,
        }
    }
}

/// Taking one more node appends exactly its keys.
proof fn lemma_keys_of_seq_take_succ(ms: Seq<Miniscript>, i: int)
    requires
        0 <= i < ms.len(),
    ensures
        crate::miniscript::keys_of_seq(ms.take(i + 1)) == crate::miniscript::keys_of_seq(
            ms.take(i),
        ) + keys_of(ms[i]),
    decreases i,
{
    if i == 0 {
        reveal_with_fuel(crate::miniscript::keys_of_seq, 3);
        assert(ms.take(1).drop_first() =~= Seq::<Miniscript>::empty());
        assert(ms.take(0) =~= Seq::<Miniscript>::empty());
        assert(ms.take(1)[0] == ms[0]);
        assert(crate::miniscript::keys_of_seq(ms.take(1)) =~= crate::miniscript::keys_of_seq(
            ms.take(0),
        ) + keys_of(ms[0]));
    } else {
        lemma_keys_of_seq_take_succ(ms.drop_first(), i - 1);
        assert(ms.take(i + 1).drop_first() =~= ms.drop_first().take(i));
        assert(ms.take(i).drop_first() =~= ms.drop_first().take(i - 1));
        assert(ms.take(i + 1)[0] == ms[0]);
        assert(ms.take(i)[0] == ms[0]);
        assert(ms.drop_first()[i - 1] == ms[i]);
        assert(crate::miniscript::keys_of_seq(ms.take(i + 1)) =~= crate::miniscript::keys_of_seq(
            ms.take(i),
        ) + keys_of(ms[i]));
    }
}

/// Runs the multipath scan over every key of a node's whole tree, in
/// visiting order.
fn multipath_fold(ms: &Miniscript, st: MultipathLenChecker) -> (r: MultipathLenChecker)
    ensures
        r == mp_fold(keys_of(*ms), st),
    decreases *ms,
{
    match &ms.node {
        Terminal::PkK(pk) => {
            proof {
                lemma_mp_fold_single(*pk, st);
            }
            mp_step_exec(st, pk)
        },
        Terminal::PkH(pk) => {
            proof {
                lemma_mp_fold_single(*pk, st);
            }
            mp_step_exec(st, pk)
        },
        Terminal::RawPkH => st,
        Terminal::Check(sub) => multipath_fold(sub, st),
        Terminal::DupIf(sub) => multipath_fold(sub, st),
        Terminal::OrI(a, b) => {
            let s1 = multipath_fold(a, st);
            let s2 = multipath_fold(b, s1);
            proof {
                lemma_mp_fold_concat(keys_of(**a), keys_of(**b), st);
            }
            s2
        },
        Terminal::Multi(th) => mp_fold_keys(&th.keys, st),
        Terminal::MultiA(th) => mp_fold_keys(&th.keys, st),
        Terminal::Other(children) => {
            proof {
                assert(decreases_to!(*ms => ms.node));
                assert(decreases_to!(ms.node => *children));
                assert(decreases_to!(*children => children@));
            }
            let mut acc = st;
            let mut i: usize = 0;
            let n = children.len();
            proof {
                assert(children@.take(0) =~= Seq::<Miniscript>::empty());
                assert(mp_fold(crate::miniscript::keys_of_seq(children@.take(0)), st) == st);
            }
            while i < n
                invariant
                    0 <= i <= n,
                    n == children@.len(),
                    acc == mp_fold(crate::miniscript::keys_of_seq(children@.take(i as int)), st),
                    keys_of(*ms) == crate::miniscript::keys_of_seq(children@),
                    decreases_to!(*ms => children@),
                decreases n - i,
            {
                proof {
                    assert(decreases_to!(children@ => children@[i as int]));
                }
                let next = multipath_fold(&children[i], acc);
                proof {
                    lemma_keys_of_seq_take_succ(children@, i as int);
                    lemma_mp_fold_concat(
                        crate::miniscript::keys_of_seq(children@.take(i as int)),
                        keys_of(children@[i as int]),
                        st,
                    );
                }
                acc = next;
                i += 1;
            }
            proof {
                assert(children@.take(n as int) =~= children@);
            }
            acc
        },
    }
}

/// Runs the multipath scan over a key list, in order.
fn mp_fold_keys(keys: &Vec<Key>, st: MultipathLenChecker) -> (r: MultipathLenChecker)
    ensures
        r == mp_fold(keys@, st),
{
    let mut acc = st;
    let mut i: usize = 0;
    let n = keys.len();
    proof {
        assert(keys@.take(0) =~= Seq::<Key>::empty());
    }
    while i < n
        invariant
            0 <= i <= n,
            n == keys@.len(),
            acc == mp_fold(keys@.take(i as int), st),
        decreases n - i,
    {
        let next = mp_step_exec(acc, &keys[i]);
        proof {
            assert(keys@.take(i + 1) =~= keys@.take(i as int) + seq![keys@[i as int]]);
            lemma_mp_fold_concat(keys@.take(i as int), seq![keys@[i as int]], st);
            lemma_mp_fold_single(keys@[i as int], acc);
        }
        acc = next;
        i += 1;
    }
    proof {
        assert(keys@.take(n as int) =~= keys@);
    }
    acc
}

/// The first failure among a key list under a key gate, if any.
pub open spec fn spec_check_keys(
    keys: Seq<Key>,
    check: spec_fn(Key) -> Result<(), ScriptContextErrorV>,
) -> Result<(), ScriptContextErrorV>
    decreases keys,
{
    if keys.len() == 0 {
        Ok(())
    } else {
        match check(keys[0]) {
            Err(e) => Err(e),
            Ok(()) => spec_check_keys(keys.drop_first(), check),
        }
    }
}

/// The standard top-level type check: the root must have the complete
/// locking-condition class, and all multipath keys of the whole tree must
/// expand to the same number of alternatives.
pub open spec fn spec_standard_top_level_type_check(ms: Miniscript) -> Result<(), crate::Error> {
    if ms.base != Base::B {
        Err(crate::Error::NonTopLevel)
    } else if mp_fold(keys_of(ms), MultipathLenChecker::SinglePath)
        == MultipathLenChecker::LenMismatch {
        Err(crate::Error::MultipathDescLenMismatch)
    } else {
        Ok(())
    }
}

/// Runs the standard top-level type check.
fn standard_top_level_type_check(ms: &Miniscript) -> (r: Result<(), crate::Error>)
    ensures
        r == spec_standard_top_level_type_check(*ms),
{
    if ms.base != Base::B {
        return Err(crate::Error::NonTopLevel);
    }
    let st = multipath_fold(ms, MultipathLenChecker::SinglePath);
    if st == MultipathLenChecker::LenMismatch {
        return Err(crate::Error::MultipathDescLenMismatch);
    }
    Ok(())
}

/// The capability contract of a script context.
///
/// Each context marker supplies its own numeric limits, key-compatibility
/// rules and malleability rules through the leaf checks; the composed
/// pipelines are shared, so no context can skip a stage.
pub trait ScriptContext: crate::sealed::Sealed + Sized {
    /// The meaning of the context's malleability gate.
    spec fn spec_check_terminal_non_malleable(frag: Terminal) -> Result<(), ScriptContextErrorV>;

    /// The meaning of the context's witness gate.
    spec fn spec_check_witness(witness: Seq<Seq<u8>>) -> Result<(), ScriptContextErrorV>;

    /// What the witness gate demands of the machine: the rendered
    /// script-sig size must be representable.
    spec fn spec_witness_ok(witness: Seq<Seq<u8>>) -> bool;

    /// The meaning of the context's key gate.
    spec fn spec_check_pk(pk: Key) -> Result<(), ScriptContextErrorV>;

    /// Whether the key-length and satisfaction-size metadata are defined
    /// for this context.
    spec fn spec_metrics_defined() -> bool;

    /// The context's worst-case satisfaction size of a node.
    spec fn spec_max_satisfaction_size(ms: Miniscript) -> Option<usize>;

    /// The meaning of the context's single-node consensus check.
    spec fn spec_check_global_consensus_validity(ms: Miniscript) -> Result<
        (),
        ScriptContextErrorV,
    >;

    /// The meaning of the context's single-node relay-policy check.
    spec fn spec_check_global_policy_validity(ms: Miniscript) -> Result<(), ScriptContextErrorV>;

    /// What the satisfaction-path checks demand of the machine: the counts
    /// they combine must be representable.
    spec fn spec_local_limits_ok(ms: Miniscript) -> bool;

    /// The meaning of the context's satisfaction-path consensus check.
    spec fn spec_check_local_consensus_validity(ms: Miniscript) -> Result<(), ScriptContextErrorV>;

    /// The meaning of the context's satisfaction-path policy check.
    spec fn spec_check_local_policy_validity(ms: Miniscript) -> Result<(), ScriptContextErrorV>;

    /// The meaning of the context's top-level type check.
    spec fn spec_top_level_type_check(ms: Miniscript) -> Result<(), crate::Error>;

    /// The meaning of the context's root-shape restriction.
    spec fn spec_other_top_level_checks(ms: Miniscript) -> Result<(), crate::Error>;

    /// The context's signature algorithm.
    spec fn spec_sig_type() -> SigType;

    /// The context's serialized length of a key.
    spec fn spec_pk_len(pk: Key) -> usize;

    /// The context's diagnostic name.
    spec fn spec_name() -> Seq<char>;


    /// Rejects fragment shapes that admit several valid encodings under
    /// this context's rules. This does not recurse into children.
    fn check_terminal_non_malleable(frag: &Terminal) -> (r: Result<(), ScriptContextError>)
        ensures
            ctx_result_view(r) == Self::spec_check_terminal_non_malleable(*frag),
    ;

    /// Checks whether a satisfaction witness is valid under this context.
    fn check_witness(witness: &[Vec<u8>]) -> (r: Result<(), ScriptContextError>)
        requires
            Self::spec_witness_ok(witness.deep_view()),
        ensures
            ctx_result_view(r) == Self::spec_check_witness(witness.deep_view()),
    ;

    /// The context's key-type gate.
    fn check_pk(pk: &Key) -> (r: Result<(), ScriptContextError>)
        ensures
            ctx_result_view(r) == Self::spec_check_pk(*pk),
    ;

    /// The context's worst-case satisfaction size of a node, or `None` if
    /// the node cannot be satisfied.
    fn max_satisfaction_size(ms: &Miniscript) -> (r: Option<usize>)
        requires
            Self::spec_metrics_defined(),
        ensures
            r == Self::spec_max_satisfaction_size(*ms),
    ;

    /// The single-node consensus check: key types at this node, disallowed
    /// fragment kinds, and the serialized-size ceiling. Does not recurse.
    fn check_global_consensus_validity(ms: &Miniscript) -> (r: Result<(), ScriptContextError>)
        ensures
            ctx_result_view(r) == Self::spec_check_global_consensus_validity(*ms),
    ;

    /// The single-node relay-policy check. Does not recurse.
    fn check_global_policy_validity(ms: &Miniscript) -> (r: Result<(), ScriptContextError>)
        ensures
            ctx_result_view(r) == Self::spec_check_global_policy_validity(*ms),
    ;

    /// The satisfaction-path consensus check.
    fn check_local_consensus_validity(ms: &Miniscript) -> (r: Result<(), ScriptContextError>)
        requires
            Self::spec_local_limits_ok(*ms),
        ensures
            ctx_result_view(r) == Self::spec_check_local_consensus_validity(*ms),
    ;

    /// The satisfaction-path policy check.
    fn check_local_policy_validity(ms: &Miniscript) -> (r: Result<(), ScriptContextError>)
        requires
            Self::spec_local_limits_ok(*ms),
        ensures
            ctx_result_view(r) == Self::spec_check_local_policy_validity(*ms),
    ;

    /// The global pipeline: consensus, then policy.
    fn check_global_validity(ms: &Miniscript) -> (r: Result<(), ScriptContextError>)
        ensures
            ctx_result_view(r) == (match Self::spec_check_global_consensus_validity(*ms) {
                Err(e) => Err(e),
                Ok(()) => Self::spec_check_global_policy_validity(*ms),
            }),
    {
        match Self::check_global_consensus_validity(ms) {
            Err(e) => {
                return Err(e);
            },
            Ok(()) => {},
        }
        Self::check_global_policy_validity(ms)
    }

    /// The local pipeline: both global checks, then both satisfaction-path
    /// checks, consensus before policy throughout.
    fn check_local_validity(ms: &Miniscript) -> (r: Result<(), ScriptContextError>)
        requires
            Self::spec_local_limits_ok(*ms),
        ensures
            ctx_result_view(r) == (match Self::spec_check_global_consensus_validity(*ms) {
                Err(e) => Err(e),
                Ok(()) => match Self::spec_check_global_policy_validity(*ms) {
                    Err(e) => Err(e),
                    Ok(()) => match Self::spec_check_local_consensus_validity(*ms) {
                        Err(e) => Err(e),
                        Ok(()) => Self::spec_check_local_policy_validity(*ms),
                    },
                },
            }),
    {
        match Self::check_global_consensus_validity(ms) {
            Err(e) => {
                return Err(e);
            },
            Ok(()) => {},
        }
        match Self::check_global_policy_validity(ms) {
            Err(e) => {
                return Err(e);
            },
            Ok(()) => {},
        }
        match Self::check_local_consensus_validity(ms) {
            Err(e) => {
                return Err(e);
            },
            Ok(()) => {},
        }
        Self::check_local_policy_validity(ms)
    }

    /// The top-level type check: the root's correctness class, and the
    /// multipath-key count agreement over the whole tree.
    fn top_level_type_check(ms: &Miniscript) -> (r: Result<(), crate::Error>)
        ensures
            r == Self::spec_top_level_type_check(*ms),
    ;

    /// The context-specific root-shape restriction.
    fn other_top_level_checks(ms: &Miniscript) -> (r: Result<(), crate::Error>)
        ensures
            r == Self::spec_other_top_level_checks(*ms),
    ;

    /// The top-level pipeline: the type check, then the root restriction.
    fn top_level_checks(ms: &Miniscript) -> (r: Result<(), crate::Error>)
        ensures
            r == (match Self::spec_top_level_type_check(*ms) {
                Err(e) => Err(e),
                Ok(()) => Self::spec_other_top_level_checks(*ms),
            }),
    {
        match Self::top_level_type_check(ms) {
            Err(e) => {
                return Err(e);
            },
            Ok(()) => {},
        }
        Self::other_top_level_checks(ms)
    }

    /// The type of signature required for satisfaction under this context.
    fn sig_type() -> (r: SigType)
        ensures
            r == Self::spec_sig_type(),
    ;

    /// The length of a public key when serialized under this context,
    /// serialization prefix included.
    fn pk_len(pk: &Key) -> (r: usize)
        requires
            Self::spec_metrics_defined(),
        ensures
            r == Self::spec_pk_len(*pk),
    ;

    /// A human-readable context name for diagnostics.
    fn name_str() -> (r: &'static str)
        ensures
            r@ == Self::spec_name(),
    ;
}

/// Checks every key of a list under the legacy key gate, reporting the
/// first failure.
fn legacy_check_keys(keys: &Vec<Key>) -> (r: Result<(), ScriptContextError>)
    ensures
        ctx_result_view(r) == spec_check_keys(keys@, |k: Key| Legacy::spec_check_pk(k)),
{
    let ghost check = |k: Key| Legacy::spec_check_pk(k);
    let mut i: usize = 0;
    let n = keys.len();
    proof {
        assert(keys@.skip(0) =~= keys@);
    }
    while i < n
        invariant
            0 <= i <= n,
            n == keys@.len(),
            check == (|k: Key| Legacy::spec_check_pk(k)),
            spec_check_keys(keys@, check) == spec_check_keys(keys@.skip(i as int), check),
        decreases n - i,
    {
        proof {
            assert(keys@.skip(i as int).drop_first() =~= keys@.skip(i + 1));
            assert(keys@.skip(i as int)[0] == keys@[i as int]);
            assert(check(keys@[i as int]) == Legacy::spec_check_pk(keys@[i as int]));
            assert(spec_check_keys(keys@.skip(i as int), check) == (match check(
                keys@.skip(i as int)[0],
            ) {
                Err(e) => Err(e),
                Ok(()) => spec_check_keys(keys@.skip(i as int).drop_first(), check),
            }));
        }
        match Legacy::check_pk(&keys[i]) {
            Err(e) => {
                return Err(e);
            },
            Ok(()) => {},
        }
        i += 1;
    }
    proof {
        assert(keys@.skip(n as int) =~= Seq::<Key>::empty());
    }
    Ok(())
}

/// Legacy script context, for pay-to-script-hash scripts.
///
/// A marker with no values: contexts are selected purely through static
/// dispatch and are never instantiated.
#[derive(Debug, Clone)]
pub struct Legacy {
    _private: bool,
}

impl crate::sealed::Sealed for Legacy {

}

impl ScriptContext for Legacy {
    open spec fn spec_check_terminal_non_malleable(frag: Terminal) -> Result<
        (),
        ScriptContextErrorV,
    > {
        match frag {
            Terminal::PkH(_) => Err(ScriptContextErrorV::MalleablePkH),
            Terminal::RawPkH => Err(ScriptContextErrorV::MalleablePkH),
            Terminal::OrI(_, _) => Err(ScriptContextErrorV::MalleableOrI),
            Terminal::DupIf(_) => Err(ScriptContextErrorV::MalleableDupIf),
            _ => Ok(()),
        }
    }

    fn check_terminal_non_malleable(frag: &Terminal) -> Result<(), ScriptContextError> {
        match frag {
            Terminal::PkH(_) => Err(ScriptContextError::MalleablePkH),
            Terminal::RawPkH => Err(ScriptContextError::MalleablePkH),
            Terminal::OrI(_, _) => Err(ScriptContextError::MalleableOrI),
            Terminal::DupIf(_) => Err(ScriptContextError::MalleableDupIf),
            _ => Ok(()),
        }
    }

    open spec fn spec_check_witness(witness: Seq<Seq<u8>>) -> Result<(), ScriptContextErrorV> {
        if scriptsig_len_spec(witness) > MAX_SCRIPTSIG_SIZE as int {
            Err(ScriptContextErrorV::MaxScriptSigSizeExceeded {
                actual: scriptsig_len_spec(witness) as usize,
                limit: MAX_SCRIPTSIG_SIZE,
            })
        } else {
            Ok(())
        }
    }

    open spec fn spec_witness_ok(witness: Seq<Seq<u8>>) -> bool {
        scriptsig_len_spec(witness) <= usize::MAX
    }

    fn check_witness(witness: &[Vec<u8>]) -> Result<(), ScriptContextError> {
        let script_sig_len = crate::miniscript::scriptsig_length(witness);
        if script_sig_len > MAX_SCRIPTSIG_SIZE {
            return Err(ScriptContextError::MaxScriptSigSizeExceeded {
                actual: script_sig_len,
                limit: MAX_SCRIPTSIG_SIZE,
            });
        }
        Ok(())
    }

    open spec fn spec_check_pk(pk: Key) -> Result<(), ScriptContextErrorV> {
        if pk.x_only {
            Err(ScriptContextErrorV::XOnlyKeysNotAllowed(pk.name@, Self::spec_name()))
        } else {
            Ok(())
        }
    }

    // Only compressed and uncompressed keys are allowed here; x-only keys
    // are rejected.
    fn check_pk(pk: &Key) -> Result<(), ScriptContextError> {
        if pk.x_only {
            Err(ScriptContextError::XOnlyKeysNotAllowed(pk.name.clone(), Self::name_str()))
        } else {
            Ok(())
        }
    }

    open spec fn spec_metrics_defined() -> bool {
        true
    }

    open spec fn spec_max_satisfaction_size(ms: Miniscript) -> Option<usize> {
        match ms.ext.max_sat_size {
            Some(x) => Some(x.1),
            None => None,
        }
    }

    fn max_satisfaction_size(ms: &Miniscript) -> Option<usize> {
        // The script-sig cost is the second element of the pair.
        match ms.ext.max_sat_size {
            Some(x) => Some(x.1),
            None => None,
        }
    }

    open spec fn spec_check_global_consensus_validity(ms: Miniscript) -> Result<
        (),
        ScriptContextErrorV,
    > {
        let node_checked = match ms.node {
            Terminal::PkK(pk) => Self::spec_check_pk(pk),
            Terminal::Multi(th) => spec_check_keys(th.keys@, |k: Key| Self::spec_check_pk(k)),
            Terminal::MultiA(_) => Err(ScriptContextErrorV::MultiANotAllowed),
            _ => Ok(()),
        };
        match node_checked {
            Ok(()) => {
                if ms.ext.pk_cost > MAX_SCRIPT_ELEMENT_SIZE {
                    Err(ScriptContextErrorV::MaxRedeemScriptSizeExceeded {
                        max: MAX_SCRIPT_ELEMENT_SIZE,
                        got: ms.ext.pk_cost,
                    })
                } else {
                    Ok(())
                }
            },
            Err(e) => Err(e),
        }
    }

    fn check_global_consensus_validity(ms: &Miniscript) -> Result<(), ScriptContextError> {
        // First check the node itself, then the serialized size.
        let node_checked = match &ms.node {
            Terminal::PkK(pk) => Self::check_pk(pk),
            Terminal::Multi(th) => legacy_check_keys(&th.keys),
            Terminal::MultiA(_) => Err(ScriptContextError::MultiANotAllowed),
            _ => Ok(()),
        };
        match node_checked {
            Ok(()) => {
                if ms.ext.pk_cost > MAX_SCRIPT_ELEMENT_SIZE {
                    Err(ScriptContextError::MaxRedeemScriptSizeExceeded {
                        max: MAX_SCRIPT_ELEMENT_SIZE,
                        got: ms.ext.pk_cost,
                    })
                } else {
                    Ok(())
                }
            },
            Err(e) => Err(e),
        }
    }

    open spec fn spec_check_global_policy_validity(ms: Miniscript) -> Result<
        (),
        ScriptContextErrorV,
    > {
        Ok(())
    }

    fn check_global_policy_validity(ms: &Miniscript) -> Result<(), ScriptContextError> {
        Ok(())
    }

    open spec fn spec_local_limits_ok(ms: Miniscript) -> bool {
        true
    }

    open spec fn spec_check_local_consensus_validity(ms: Miniscript) -> Result<
        (),
        ScriptContextErrorV,
    > {
        match ms.ext.ops_count {
            None => Err(ScriptContextErrorV::ImpossibleSatisfaction),
            Some(op_count) => {
                if op_count > MAX_OPS_PER_SCRIPT {
                    Err(ScriptContextErrorV::MaxOpCountExceeded {
                        actual: op_count,
                        limit: MAX_OPS_PER_SCRIPT,
                    })
                } else {
                    Ok(())
                }
            },
        }
    }

    fn check_local_consensus_validity(ms: &Miniscript) -> Result<(), ScriptContextError> {
        match ms.ext.ops_count {
            None => Err(ScriptContextError::ImpossibleSatisfaction),
            Some(op_count) => {
                if op_count > MAX_OPS_PER_SCRIPT {
                    Err(ScriptContextError::MaxOpCountExceeded {
                        actual: op_count,
                        limit: MAX_OPS_PER_SCRIPT,
                    })
                } else {
                    Ok(())
                }
            },
        }
    }

    open spec fn spec_check_local_policy_validity(ms: Miniscript) -> Result<
        (),
        ScriptContextErrorV,
    > {
        match Self::spec_max_satisfaction_size(ms) {
            None => Err(ScriptContextErrorV::ImpossibleSatisfaction),
            Some(size) => {
                if size > MAX_SCRIPTSIG_SIZE {
                    Err(ScriptContextErrorV::MaxScriptSigSizeExceeded {
                        actual: size,
                        limit: MAX_SCRIPTSIG_SIZE,
                    })
                } else {
                    Ok(())
                }
            },
        }
    }

    fn check_local_policy_validity(ms: &Miniscript) -> Result<(), ScriptContextError> {
        // Legacy scripts permit up to a thousand stack elements; with the
        // consensus ceiling on redeem-script size that count cannot be
        // reached, so only the script-sig size is checked.
        proof {
            assert(Self::spec_metrics_defined());
        }
        match Self::max_satisfaction_size(ms) {
            None => Err(ScriptContextError::ImpossibleSatisfaction),
            Some(size) => {
                if size > MAX_SCRIPTSIG_SIZE {
                    Err(ScriptContextError::MaxScriptSigSizeExceeded {
                        actual: size,
                        limit: MAX_SCRIPTSIG_SIZE,
                    })
                } else {
                    Ok(())
                }
            },
        }
    }

    open spec fn spec_top_level_type_check(ms: Miniscript) -> Result<(), crate::Error> {
        spec_standard_top_level_type_check(ms)
    }

    fn top_level_type_check(ms: &Miniscript) -> Result<(), crate::Error> {
        standard_top_level_type_check(ms)
    }

    open spec fn spec_other_top_level_checks(ms: Miniscript) -> Result<(), crate::Error> {
        Ok(())
    }

    fn other_top_level_checks(ms: &Miniscript) -> Result<(), crate::Error> {
        Ok(())
    }

    open spec fn spec_sig_type() -> SigType {
        SigType::Ecdsa
    }

    fn sig_type() -> SigType {
        SigType::Ecdsa
    }

    open spec fn spec_pk_len(pk: Key) -> usize {
        if pk.uncompressed {
            66
        } else {
            34
        }
    }

    fn pk_len(pk: &Key) -> usize {
        if pk.uncompressed {
            66
        } else {
            34
        }
    }

    open spec fn spec_name() -> Seq<char> {
        "Legacy/p2sh"@
    }

    fn name_str() -> &'static str {
        "Legacy/p2sh"
    }
}


/// Checks every key of a list under a key gate, reporting the first
/// failure.
fn segwit_check_keys(keys: &Vec<Key>) -> (r: Result<(), ScriptContextError>)
    ensures
        ctx_result_view(r) == spec_check_keys(keys@, |k: Key| Segwitv0::spec_check_pk(k)),
{
    let ghost check = |k: Key| Segwitv0::spec_check_pk(k);
    let mut i: usize = 0;
    let n = keys.len();
    proof {
        assert(keys@.skip(0) =~= keys@);
    }
    while i < n
        invariant
            0 <= i <= n,
            n == keys@.len(),
            check == (|k: Key| Segwitv0::spec_check_pk(k)),
            spec_check_keys(keys@, check) == spec_check_keys(keys@.skip(i as int), check),
        decreases n - i,
    {
        proof {
            assert(keys@.skip(i as int).drop_first() =~= keys@.skip(i + 1));
            assert(keys@.skip(i as int)[0] == keys@[i as int]);
        }
        match Segwitv0::check_pk(&keys[i]) {
            Err(e) => {
                return Err(e);
            },
            Ok(()) => {},
        }
        i += 1;
    }
    proof {
        assert(keys@.skip(n as int) =~= Seq::<Key>::empty());
    }
    Ok(())
}

/// Checks every key of a list under a key gate, reporting the first
/// failure.
fn tap_check_keys(keys: &Vec<Key>) -> (r: Result<(), ScriptContextError>)
    ensures
        ctx_result_view(r) == spec_check_keys(keys@, |k: Key| Tap::spec_check_pk(k)),
{
    let ghost check = |k: Key| Tap::spec_check_pk(k);
    let mut i: usize = 0;
    let n = keys.len();
    proof {
        assert(keys@.skip(0) =~= keys@);
    }
    while i < n
        invariant
            0 <= i <= n,
            n == keys@.len(),
            check == (|k: Key| Tap::spec_check_pk(k)),
            spec_check_keys(keys@, check) == spec_check_keys(keys@.skip(i as int), check),
        decreases n - i,
    {
        proof {
            assert(keys@.skip(i as int).drop_first() =~= keys@.skip(i + 1));
            assert(keys@.skip(i as int)[0] == keys@[i as int]);
        }
        match Tap::check_pk(&keys[i]) {
            Err(e) => {
                return Err(e);
            },
            Ok(()) => {},
        }
        i += 1;
    }
    proof {
        assert(keys@.skip(n as int) =~= Seq::<Key>::empty());
    }
    Ok(())
}

/// Checks every key of a list under a key gate, reporting the first
/// failure.
fn bare_check_keys(keys: &Vec<Key>) -> (r: Result<(), ScriptContextError>)
    ensures
        ctx_result_view(r) == spec_check_keys(keys@, |k: Key| BareCtx::spec_check_pk(k)),
{
    let ghost check = |k: Key| BareCtx::spec_check_pk(k);
    let mut i: usize = 0;
    let n = keys.len();
    proof {
        assert(keys@.skip(0) =~= keys@);
    }
    while i < n
        invariant
            0 <= i <= n,
            n == keys@.len(),
            check == (|k: Key| BareCtx::spec_check_pk(k)),
            spec_check_keys(keys@, check) == spec_check_keys(keys@.skip(i as int), check),
        decreases n - i,
    {
        proof {
            assert(keys@.skip(i as int).drop_first() =~= keys@.skip(i + 1));
            assert(keys@.skip(i as int)[0] == keys@[i as int]);
        }
        match BareCtx::check_pk(&keys[i]) {
            Err(e) => {
                return Err(e);
            },
            Ok(()) => {},
        }
        i += 1;
    }
    proof {
        assert(keys@.skip(n as int) =~= Seq::<Key>::empty());
    }
    Ok(())
}

/// Relies on `bitcoin::Weight::MAX_BLOCK` and `Weight::to_wu`: the maximum
/// block weight, a constant of four million weight units.
#[verifier::external_body]
fn max_block_weight() -> (r: u64)
    ensures
        r == 4_000_000u64,
{
    bitcoin::Weight::MAX_BLOCK.to_wu()
}

/// Version-zero segregated-witness script context.
///
/// A marker with no values: contexts are selected purely through static
/// dispatch and are never instantiated.
#[derive(Debug, Clone)]
pub struct Segwitv0 {
    _private: bool,
}

impl crate::sealed::Sealed for Segwitv0 {

}

impl ScriptContext for Segwitv0 {
    open spec fn spec_check_terminal_non_malleable(frag: Terminal) -> Result<
        (),
        ScriptContextErrorV,
    > {
        Ok(())
    }

    fn check_terminal_non_malleable(frag: &Terminal) -> Result<(), ScriptContextError> {
        Ok(())
    }

    open spec fn spec_check_witness(witness: Seq<Seq<u8>>) -> Result<(), ScriptContextErrorV> {
        if witness.len() > MAX_STANDARD_P2WSH_STACK_ITEMS {
            Err(ScriptContextErrorV::MaxWitnessItemsExceeded {
                actual: witness.len() as usize,
                limit: MAX_STANDARD_P2WSH_STACK_ITEMS,
            })
        } else {
            Ok(())
        }
    }

    open spec fn spec_witness_ok(witness: Seq<Seq<u8>>) -> bool {
        true
    }

    fn check_witness(witness: &[Vec<u8>]) -> Result<(), ScriptContextError> {
        if witness.len() > MAX_STANDARD_P2WSH_STACK_ITEMS {
            return Err(ScriptContextError::MaxWitnessItemsExceeded {
                actual: witness.len(),
                limit: MAX_STANDARD_P2WSH_STACK_ITEMS,
            });
        }
        Ok(())
    }

    open spec fn spec_check_pk(pk: Key) -> Result<(), ScriptContextErrorV> {
        if pk.uncompressed {
            Err(ScriptContextErrorV::UncompressedKeysNotAllowed)
        } else if pk.x_only {
            Err(ScriptContextErrorV::XOnlyKeysNotAllowed(pk.name@, Self::spec_name()))
        } else {
            Ok(())
        }
    }

    // Neither x-only nor uncompressed keys are allowed here.
    fn check_pk(pk: &Key) -> Result<(), ScriptContextError> {
        if pk.uncompressed {
            Err(ScriptContextError::UncompressedKeysNotAllowed)
        } else if pk.x_only {
            Err(ScriptContextError::XOnlyKeysNotAllowed(pk.name.clone(), Self::name_str()))
        } else {
            Ok(())
        }
    }

    open spec fn spec_metrics_defined() -> bool {
        true
    }

    open spec fn spec_max_satisfaction_size(ms: Miniscript) -> Option<usize> {
        match ms.ext.max_sat_size {
            Some(x) => Some(x.0),
            None => None,
        }
    }

    fn max_satisfaction_size(ms: &Miniscript) -> Option<usize> {
        // The witness stack cost is the first element of the pair.
        match ms.ext.max_sat_size {
            Some(x) => Some(x.0),
            None => None,
        }
    }

    open spec fn spec_check_global_consensus_validity(ms: Miniscript) -> Result<
        (),
        ScriptContextErrorV,
    > {
        let node_checked = match ms.node {
            Terminal::PkK(pk) => Self::spec_check_pk(pk),
            Terminal::Multi(th) => spec_check_keys(th.keys@, |k: Key| Self::spec_check_pk(k)),
            Terminal::MultiA(_) => Err(ScriptContextErrorV::MultiANotAllowed),
            _ => Ok(()),
        };
        match node_checked {
            Ok(()) => {
                if ms.ext.pk_cost > MAX_SCRIPT_SIZE {
                    Err(ScriptContextErrorV::MaxWitnessScriptSizeExceeded {
                        max: MAX_SCRIPT_SIZE,
                        got: ms.ext.pk_cost,
                    })
                } else {
                    Ok(())
                }
            },
            Err(e) => Err(e),
        }
    }

    fn check_global_consensus_validity(ms: &Miniscript) -> Result<(), ScriptContextError> {
        // First check the node itself, then the serialized size.
        let node_checked = match &ms.node {
            Terminal::PkK(pk) => Self::check_pk(pk),
            Terminal::Multi(th) => segwit_check_keys(&th.keys),
            Terminal::MultiA(_) => Err(ScriptContextError::MultiANotAllowed),
            _ => Ok(()),
        };
        match node_checked {
            Ok(()) => {
                if ms.ext.pk_cost > MAX_SCRIPT_SIZE {
                    Err(ScriptContextError::MaxWitnessScriptSizeExceeded {
                        max: MAX_SCRIPT_SIZE,
                        got: ms.ext.pk_cost,
                    })
                } else {
                    Ok(())
                }
            },
            Err(e) => Err(e),
        }
    }

    open spec fn spec_check_global_policy_validity(ms: Miniscript) -> Result<
        (),
        ScriptContextErrorV,
    > {
        if ms.ext.pk_cost > MAX_STANDARD_P2WSH_SCRIPT_SIZE {
            Err(ScriptContextErrorV::MaxWitnessScriptSizeExceeded {
                max: MAX_STANDARD_P2WSH_SCRIPT_SIZE,
                got: ms.ext.pk_cost,
            })
        } else {
            Ok(())
        }
    }

    fn check_global_policy_validity(ms: &Miniscript) -> Result<(), ScriptContextError> {
        if ms.ext.pk_cost > MAX_STANDARD_P2WSH_SCRIPT_SIZE {
            return Err(ScriptContextError::MaxWitnessScriptSizeExceeded {
                max: MAX_STANDARD_P2WSH_SCRIPT_SIZE,
                got: ms.ext.pk_cost,
            });
        }
        Ok(())
    }

    open spec fn spec_local_limits_ok(ms: Miniscript) -> bool {
        ms.ext.stack_elem_count_sat matches Some(c) ==> c < usize::MAX
    }

    open spec fn spec_check_local_consensus_validity(ms: Miniscript) -> Result<
        (),
        ScriptContextErrorV,
    > {
        match ms.ext.ops_count {
            None => Err(ScriptContextErrorV::ImpossibleSatisfaction),
            Some(op_count) => {
                if op_count > MAX_OPS_PER_SCRIPT {
                    Err(ScriptContextErrorV::MaxOpCountExceeded {
                        actual: op_count,
                        limit: MAX_OPS_PER_SCRIPT,
                    })
                } else {
                    Ok(())
                }
            },
        }
    }

    fn check_local_consensus_validity(ms: &Miniscript) -> Result<(), ScriptContextError> {
        match ms.ext.ops_count {
            None => Err(ScriptContextError::ImpossibleSatisfaction),
            Some(op_count) => {
                if op_count > MAX_OPS_PER_SCRIPT {
                    Err(ScriptContextError::MaxOpCountExceeded {
                        actual: op_count,
                        limit: MAX_OPS_PER_SCRIPT,
                    })
                } else {
                    Ok(())
                }
            },
        }
    }

    open spec fn spec_check_local_policy_validity(ms: Miniscript) -> Result<
        (),
        ScriptContextErrorV,
    > {
        match ms.ext.stack_elem_count_sat {
            None => Err(ScriptContextErrorV::ImpossibleSatisfaction),
            Some(c) => {
                if 1 + c > MAX_STANDARD_P2WSH_STACK_ITEMS {
                    Err(ScriptContextErrorV::MaxWitnessItemsExceeded {
                        actual: (1 + c) as usize,
                        limit: MAX_STANDARD_P2WSH_STACK_ITEMS,
                    })
                } else {
                    Ok(())
                }
            },
        }
    }

    fn check_local_policy_validity(ms: &Miniscript) -> Result<(), ScriptContextError> {
        // The witness-script item itself counts as one witness element on
        // top of the satisfaction elements.
        match ms.ext.stack_elem_count_sat {
            None => Err(ScriptContextError::ImpossibleSatisfaction),
            Some(c) => {
                if 1 + c > MAX_STANDARD_P2WSH_STACK_ITEMS {
                    Err(ScriptContextError::MaxWitnessItemsExceeded {
                        actual: 1 + c,
                        limit: MAX_STANDARD_P2WSH_STACK_ITEMS,
                    })
                } else {
                    Ok(())
                }
            },
        }
    }

    open spec fn spec_top_level_type_check(ms: Miniscript) -> Result<(), crate::Error> {
        spec_standard_top_level_type_check(ms)
    }

    fn top_level_type_check(ms: &Miniscript) -> Result<(), crate::Error> {
        standard_top_level_type_check(ms)
    }

    open spec fn spec_other_top_level_checks(ms: Miniscript) -> Result<(), crate::Error> {
        Ok(())
    }

    fn other_top_level_checks(ms: &Miniscript) -> Result<(), crate::Error> {
        Ok(())
    }

    open spec fn spec_sig_type() -> SigType {
        SigType::Ecdsa
    }

    fn sig_type() -> SigType {
        SigType::Ecdsa
    }

    open spec fn spec_pk_len(pk: Key) -> usize {
        34
    }

    fn pk_len(pk: &Key) -> usize {
        34
    }

    open spec fn spec_name() -> Seq<char> {
        "Segwitv0"@
    }

    fn name_str() -> &'static str {
        "Segwitv0"
    }
}

/// Tapscript script context.
///
/// A marker with no values: contexts are selected purely through static
/// dispatch and are never instantiated.
#[derive(Debug, Clone)]
pub struct Tap {
    _private: bool,
}

impl crate::sealed::Sealed for Tap {

}

impl ScriptContext for Tap {
    open spec fn spec_check_terminal_non_malleable(frag: Terminal) -> Result<
        (),
        ScriptContextErrorV,
    > {
        Ok(())
    }

    fn check_terminal_non_malleable(frag: &Terminal) -> Result<(), ScriptContextError> {
        // No fragment is malleable in this context. Certain fragments are
        // invalid here, but not malleable.
        Ok(())
    }

    open spec fn spec_check_witness(witness: Seq<Seq<u8>>) -> Result<(), ScriptContextErrorV> {
        if witness.len() > MAX_STACK_SIZE {
            Err(ScriptContextErrorV::MaxWitnessItemsExceeded {
                actual: witness.len() as usize,
                limit: MAX_STACK_SIZE,
            })
        } else {
            Ok(())
        }
    }

    open spec fn spec_witness_ok(witness: Seq<Seq<u8>>) -> bool {
        true
    }

    fn check_witness(witness: &[Vec<u8>]) -> Result<(), ScriptContextError> {
        // The stack-element ceiling here is ten times that of the
        // version-zero witness context.
        if witness.len() > MAX_STACK_SIZE {
            return Err(ScriptContextError::MaxWitnessItemsExceeded {
                actual: witness.len(),
                limit: MAX_STACK_SIZE,
            });
        }
        Ok(())
    }

    open spec fn spec_check_pk(pk: Key) -> Result<(), ScriptContextErrorV> {
        if pk.uncompressed {
            Err(ScriptContextErrorV::UncompressedKeysNotAllowed)
        } else {
            Ok(())
        }
    }

    // Compressed and x-only keys are allowed; uncompressed keys are not.
    fn check_pk(pk: &Key) -> Result<(), ScriptContextError> {
        if pk.uncompressed {
            Err(ScriptContextError::UncompressedKeysNotAllowed)
        } else {
            Ok(())
        }
    }

    open spec fn spec_metrics_defined() -> bool {
        true
    }

    open spec fn spec_max_satisfaction_size(ms: Miniscript) -> Option<usize> {
        match ms.ext.max_sat_size {
            Some(x) => Some(x.0),
            None => None,
        }
    }

    fn max_satisfaction_size(ms: &Miniscript) -> Option<usize> {
        // The witness stack cost is the first element of the pair.
        match ms.ext.max_sat_size {
            Some(x) => Some(x.0),
            None => None,
        }
    }

    open spec fn spec_check_global_consensus_validity(ms: Miniscript) -> Result<
        (),
        ScriptContextErrorV,
    > {
        let node_checked = match ms.node {
            Terminal::PkK(pk) => Self::spec_check_pk(pk),
            Terminal::MultiA(th) => spec_check_keys(th.keys@, |k: Key| Self::spec_check_pk(k)),
            Terminal::Multi(_) => Err(ScriptContextErrorV::TaprootMultiDisabled),
            _ => Ok(()),
        };
        match node_checked {
            Ok(()) => {
                if ms.ext.pk_cost > 4_000_000 {
                    Err(ScriptContextErrorV::MaxWitnessScriptSizeExceeded {
                        max: 4_000_000,
                        got: ms.ext.pk_cost,
                    })
                } else {
                    Ok(())
                }
            },
            Err(e) => Err(e),
        }
    }

    fn check_global_consensus_validity(ms: &Miniscript) -> Result<(), ScriptContextError> {
        // First check the node itself, then hold the serialized size to
        // the whole-block weight ceiling: no tighter script-size rule
        // exists at consensus level in this context.
        let node_checked = match &ms.node {
            Terminal::PkK(pk) => Self::check_pk(pk),
            Terminal::MultiA(th) => tap_check_keys(&th.keys),
            Terminal::Multi(_) => Err(ScriptContextError::TaprootMultiDisabled),
            _ => Ok(()),
        };
        match node_checked {
            Ok(()) => {
                let max_block = max_block_weight();
                if (ms.ext.pk_cost as u64) > max_block {
                    Err(ScriptContextError::MaxWitnessScriptSizeExceeded {
                        max: 4_000_000,
                        got: ms.ext.pk_cost,
                    })
                } else {
                    Ok(())
                }
            },
            Err(e) => Err(e),
        }
    }

    open spec fn spec_check_global_policy_validity(ms: Miniscript) -> Result<
        (),
        ScriptContextErrorV,
    > {
        Ok(())
    }

    fn check_global_policy_validity(ms: &Miniscript) -> Result<(), ScriptContextError> {
        // No script-level rules; the whole transaction's rules govern.
        Ok(())
    }

    open spec fn spec_local_limits_ok(ms: Miniscript) -> bool {
        (ms.ext.exec_stack_elem_count_sat matches Some(s) && ms.ext.stack_elem_count_sat
            matches Some(h)) ==> ms.ext.exec_stack_elem_count_sat->Some_0
            + ms.ext.stack_elem_count_sat->Some_0 <= usize::MAX
    }

    open spec fn spec_check_local_consensus_validity(ms: Miniscript) -> Result<
        (),
        ScriptContextErrorV,
    > {
        match (ms.ext.exec_stack_elem_count_sat, ms.ext.stack_elem_count_sat) {
            (Some(s), Some(h)) => {
                if s + h > MAX_STACK_SIZE {
                    Err(ScriptContextErrorV::StackSizeLimitExceeded {
                        actual: (s + h) as usize,
                        limit: MAX_STACK_SIZE,
                    })
                } else {
                    Ok(())
                }
            },
            _ => Ok(()),
        }
    }

    fn check_local_consensus_validity(ms: &Miniscript) -> Result<(), ScriptContextError> {
        // The signature-operation budget makes a combined ceiling over the
        // stack and the execution stack the binding limit here.
        match (ms.ext.exec_stack_elem_count_sat, ms.ext.stack_elem_count_sat) {
            (Some(s), Some(h)) => {
                if s + h > MAX_STACK_SIZE {
                    Err(ScriptContextError::StackSizeLimitExceeded {
                        actual: s + h,
                        limit: MAX_STACK_SIZE,
                    })
                } else {
                    Ok(())
                }
            },
            _ => Ok(()),
        }
    }

    open spec fn spec_check_local_policy_validity(ms: Miniscript) -> Result<
        (),
        ScriptContextErrorV,
    > {
        Ok(())
    }

    fn check_local_policy_validity(ms: &Miniscript) -> Result<(), ScriptContextError> {
        Ok(())
    }

    open spec fn spec_top_level_type_check(ms: Miniscript) -> Result<(), crate::Error> {
        spec_standard_top_level_type_check(ms)
    }

    fn top_level_type_check(ms: &Miniscript) -> Result<(), crate::Error> {
        standard_top_level_type_check(ms)
    }

    open spec fn spec_other_top_level_checks(ms: Miniscript) -> Result<(), crate::Error> {
        Ok(())
    }

    fn other_top_level_checks(ms: &Miniscript) -> Result<(), crate::Error> {
        Ok(())
    }

    open spec fn spec_sig_type() -> SigType {
        SigType::Schnorr
    }

    fn sig_type() -> SigType {
        SigType::Schnorr
    }

    open spec fn spec_pk_len(pk: Key) -> usize {
        33
    }

    fn pk_len(pk: &Key) -> usize {
        33
    }

    open spec fn spec_name() -> Seq<char> {
        "TapscriptCtx"@
    }

    fn name_str() -> &'static str {
        "TapscriptCtx"
    }
}

/// Bare script context, for raw script public keys.
///
/// Bare descriptors are strongly limited by standardness policies, and
/// only a small whitelist of root shapes is accepted.
///
/// A marker with no values: contexts are selected purely through static
/// dispatch and are never instantiated.
#[derive(Debug, Clone)]
pub struct BareCtx {
    _private: bool,
}

impl crate::sealed::Sealed for BareCtx {

}

impl ScriptContext for BareCtx {
    open spec fn spec_check_terminal_non_malleable(frag: Terminal) -> Result<
        (),
        ScriptContextErrorV,
    > {
        Ok(())
    }

    fn check_terminal_non_malleable(frag: &Terminal) -> Result<(), ScriptContextError> {
        // Standardness rules already bound what a bare script can hold, so
        // no malleability gate is needed here.
        Ok(())
    }

    open spec fn spec_check_witness(witness: Seq<Seq<u8>>) -> Result<(), ScriptContextErrorV> {
        Ok(())
    }

    open spec fn spec_witness_ok(witness: Seq<Seq<u8>>) -> bool {
        true
    }

    fn check_witness(witness: &[Vec<u8>]) -> Result<(), ScriptContextError> {
        Ok(())
    }

    open spec fn spec_check_pk(pk: Key) -> Result<(), ScriptContextErrorV> {
        if pk.x_only {
            Err(ScriptContextErrorV::XOnlyKeysNotAllowed(pk.name@, Self::spec_name()))
        } else {
            Ok(())
        }
    }

    // X-only keys are not allowed here.
    fn check_pk(pk: &Key) -> Result<(), ScriptContextError> {
        if pk.x_only {
            Err(ScriptContextError::XOnlyKeysNotAllowed(pk.name.clone(), Self::name_str()))
        } else {
            Ok(())
        }
    }

    open spec fn spec_metrics_defined() -> bool {
        true
    }

    open spec fn spec_max_satisfaction_size(ms: Miniscript) -> Option<usize> {
        match ms.ext.max_sat_size {
            Some(x) => Some(x.1),
            None => None,
        }
    }

    fn max_satisfaction_size(ms: &Miniscript) -> Option<usize> {
        // The script-sig cost is the second element of the pair.
        match ms.ext.max_sat_size {
            Some(x) => Some(x.1),
            None => None,
        }
    }

    open spec fn spec_check_global_consensus_validity(ms: Miniscript) -> Result<
        (),
        ScriptContextErrorV,
    > {
        let node_checked = match ms.node {
            Terminal::PkK(pk) => Self::spec_check_pk(pk),
            Terminal::Multi(th) => spec_check_keys(th.keys@, |k: Key| Self::spec_check_pk(k)),
            Terminal::MultiA(_) => Err(ScriptContextErrorV::MultiANotAllowed),
            _ => Ok(()),
        };
        match node_checked {
            Ok(()) => {
                if ms.ext.pk_cost > MAX_SCRIPT_SIZE {
                    Err(ScriptContextErrorV::MaxBareScriptSizeExceeded {
                        max: MAX_SCRIPT_SIZE,
                        got: ms.ext.pk_cost,
                    })
                } else {
                    Ok(())
                }
            },
            Err(e) => Err(e),
        }
    }

    fn check_global_consensus_validity(ms: &Miniscript) -> Result<(), ScriptContextError> {
        // First check the node itself, then the serialized size.
        let node_checked = match &ms.node {
            Terminal::PkK(pk) => Self::check_pk(pk),
            Terminal::Multi(th) => bare_check_keys(&th.keys),
            Terminal::MultiA(_) => Err(ScriptContextError::MultiANotAllowed),
            _ => Ok(()),
        };
        match node_checked {
            Ok(()) => {
                if ms.ext.pk_cost > MAX_SCRIPT_SIZE {
                    Err(ScriptContextError::MaxBareScriptSizeExceeded {
                        max: MAX_SCRIPT_SIZE,
                        got: ms.ext.pk_cost,
                    })
                } else {
                    Ok(())
                }
            },
            Err(e) => Err(e),
        }
    }

    open spec fn spec_check_global_policy_validity(ms: Miniscript) -> Result<
        (),
        ScriptContextErrorV,
    > {
        Ok(())
    }

    fn check_global_policy_validity(ms: &Miniscript) -> Result<(), ScriptContextError> {
        Ok(())
    }

    open spec fn spec_local_limits_ok(ms: Miniscript) -> bool {
        true
    }

    open spec fn spec_check_local_consensus_validity(ms: Miniscript) -> Result<
        (),
        ScriptContextErrorV,
    > {
        match ms.ext.ops_count {
            None => Err(ScriptContextErrorV::ImpossibleSatisfaction),
            Some(op_count) => {
                if op_count > MAX_OPS_PER_SCRIPT {
                    Err(ScriptContextErrorV::MaxOpCountExceeded {
                        actual: op_count,
                        limit: MAX_OPS_PER_SCRIPT,
                    })
                } else {
                    Ok(())
                }
            },
        }
    }

    fn check_local_consensus_validity(ms: &Miniscript) -> Result<(), ScriptContextError> {
        match ms.ext.ops_count {
            None => Err(ScriptContextError::ImpossibleSatisfaction),
            Some(op_count) => {
                if op_count > MAX_OPS_PER_SCRIPT {
                    Err(ScriptContextError::MaxOpCountExceeded {
                        actual: op_count,
                        limit: MAX_OPS_PER_SCRIPT,
                    })
                } else {
                    Ok(())
                }
            },
        }
    }

    open spec fn spec_check_local_policy_validity(ms: Miniscript) -> Result<
        (),
        ScriptContextErrorV,
    > {
        Ok(())
    }

    fn check_local_policy_validity(ms: &Miniscript) -> Result<(), ScriptContextError> {
        Ok(())
    }

    open spec fn spec_top_level_type_check(ms: Miniscript) -> Result<(), crate::Error> {
        spec_standard_top_level_type_check(ms)
    }

    fn top_level_type_check(ms: &Miniscript) -> Result<(), crate::Error> {
        standard_top_level_type_check(ms)
    }

    open spec fn spec_other_top_level_checks(ms: Miniscript) -> Result<(), crate::Error> {
        match ms.node {
            Terminal::Check(sub) => match sub.node {
                Terminal::RawPkH => Ok(()),
                Terminal::PkK(_) => Ok(()),
                Terminal::PkH(_) => Ok(()),
                _ => Err(crate::Error::NonStandardBareScript),
            },
            Terminal::Multi(th) => {
                if th.keys@.len() <= 3 {
                    Ok(())
                } else {
                    Err(crate::Error::NonStandardBareScript)
                }
            },
            _ => Err(crate::Error::NonStandardBareScript),
        }
    }

    fn other_top_level_checks(ms: &Miniscript) -> Result<(), crate::Error> {
        // Only a single pay-to-key, a single pay-to-key-hash, or an
        // n-of-m key list with at most three keys may stand at the root.
        match &ms.node {
            Terminal::Check(sub) => match &sub.node {
                Terminal::RawPkH => Ok(()),
                Terminal::PkK(_) => Ok(()),
                Terminal::PkH(_) => Ok(()),
                _ => Err(crate::Error::NonStandardBareScript),
            },
            Terminal::Multi(th) => {
                if th.keys.len() <= 3 {
                    Ok(())
                } else {
                    Err(crate::Error::NonStandardBareScript)
                }
            },
            _ => Err(crate::Error::NonStandardBareScript),
        }
    }

    open spec fn spec_sig_type() -> SigType {
        SigType::Ecdsa
    }

    fn sig_type() -> SigType {
        SigType::Ecdsa
    }

    open spec fn spec_pk_len(pk: Key) -> usize {
        if pk.uncompressed {
            66
        } else {
            34
        }
    }

    fn pk_len(pk: &Key) -> usize {
        if pk.uncompressed {
            66
        } else {
            34
        }
    }

    open spec fn spec_name() -> Seq<char> {
        "BareCtx"@
    }

    fn name_str() -> &'static str {
        "BareCtx"
    }
}

/// The diagnostics-only context that bypasses every limit.
///
/// Used for reading scripts back without sanity checks; it should not be
/// used unless that is exactly what is wanted.
///
/// A marker with no values: contexts are selected purely through static
/// dispatch and are never instantiated.
#[derive(Debug, Clone)]
pub struct NoChecks {
    _private: bool,
}

impl crate::sealed::Sealed for NoChecks {

}

impl ScriptContext for NoChecks {
    open spec fn spec_check_terminal_non_malleable(frag: Terminal) -> Result<
        (),
        ScriptContextErrorV,
    > {
        Ok(())
    }

    fn check_terminal_non_malleable(frag: &Terminal) -> Result<(), ScriptContextError> {
        Ok(())
    }

    open spec fn spec_check_witness(witness: Seq<Seq<u8>>) -> Result<(), ScriptContextErrorV> {
        Ok(())
    }

    open spec fn spec_witness_ok(witness: Seq<Seq<u8>>) -> bool {
        true
    }

    fn check_witness(witness: &[Vec<u8>]) -> Result<(), ScriptContextError> {
        Ok(())
    }

    open spec fn spec_check_pk(pk: Key) -> Result<(), ScriptContextErrorV> {
        Ok(())
    }

    fn check_pk(pk: &Key) -> Result<(), ScriptContextError> {
        Ok(())
    }

    open spec fn spec_metrics_defined() -> bool {
        false
    }

    open spec fn spec_max_satisfaction_size(ms: Miniscript) -> Option<usize> {
        arbitrary()
    }

    // No satisfaction-size bound is defined for this context; the
    // contract's precondition keeps this from ever being called.
    fn max_satisfaction_size(ms: &Miniscript) -> Option<usize> {
        proof {
            assert(false);
        }
        None
    }

    open spec fn spec_check_global_consensus_validity(ms: Miniscript) -> Result<
        (),
        ScriptContextErrorV,
    > {
        Ok(())
    }

    fn check_global_consensus_validity(ms: &Miniscript) -> Result<(), ScriptContextError> {
        Ok(())
    }

    open spec fn spec_check_global_policy_validity(ms: Miniscript) -> Result<
        (),
        ScriptContextErrorV,
    > {
        Ok(())
    }

    fn check_global_policy_validity(ms: &Miniscript) -> Result<(), ScriptContextError> {
        Ok(())
    }

    open spec fn spec_local_limits_ok(ms: Miniscript) -> bool {
        true
    }

    open spec fn spec_check_local_consensus_validity(ms: Miniscript) -> Result<
        (),
        ScriptContextErrorV,
    > {
        Ok(())
    }

    fn check_local_consensus_validity(ms: &Miniscript) -> Result<(), ScriptContextError> {
        Ok(())
    }

    open spec fn spec_check_local_policy_validity(ms: Miniscript) -> Result<
        (),
        ScriptContextErrorV,
    > {
        Ok(())
    }

    fn check_local_policy_validity(ms: &Miniscript) -> Result<(), ScriptContextError> {
        Ok(())
    }

    open spec fn spec_top_level_type_check(ms: Miniscript) -> Result<(), crate::Error> {
        if ms.base != Base::B {
            Err(crate::Error::NonTopLevel)
        } else {
            Ok(())
        }
    }

    fn top_level_type_check(ms: &Miniscript) -> Result<(), crate::Error> {
        // Only the correctness class is checked here; the multipath scan
        // is skipped along with every other limit.
        if ms.base != Base::B {
            return Err(crate::Error::NonTopLevel);
        }
        Ok(())
    }

    open spec fn spec_other_top_level_checks(ms: Miniscript) -> Result<(), crate::Error> {
        Ok(())
    }

    fn other_top_level_checks(ms: &Miniscript) -> Result<(), crate::Error> {
        Ok(())
    }

    open spec fn spec_sig_type() -> SigType {
        SigType::Ecdsa
    }

    fn sig_type() -> SigType {
        SigType::Ecdsa
    }

    open spec fn spec_pk_len(pk: Key) -> usize {
        arbitrary()
    }

    // No key length is defined for this context; the contract's
    // precondition keeps this from ever being called.
    fn pk_len(pk: &Key) -> usize {
        proof {
            assert(false);
        }
        0
    }

    open spec fn spec_name() -> Seq<char> {
        "NochecksEcdsa"@
    }

    fn name_str() -> &'static str {
        "NochecksEcdsa"
    }
}

/// The global pipeline: the consensus check, then the policy check.
pub open spec fn spec_global_validity<Ctx: ScriptContext>(ms: Miniscript) -> Result<
    (),
    ScriptContextErrorV,
> {
    match Ctx::spec_check_global_consensus_validity(ms) {
        Err(e) => Err(e),
        Ok(()) => Ctx::spec_check_global_policy_validity(ms),
    }
}

/// The local pipeline: both global checks first, then both
/// satisfaction-path checks, consensus before policy throughout.
pub open spec fn spec_local_validity<Ctx: ScriptContext>(ms: Miniscript) -> Result<
    (),
    ScriptContextErrorV,
> {
    match spec_global_validity::<Ctx>(ms) {
        Err(e) => Err(e),
        Ok(()) => match Ctx::spec_check_local_consensus_validity(ms) {
            Err(e) => Err(e),
            Ok(()) => Ctx::spec_check_local_policy_validity(ms),
        },
    }
}

/// The top-level pipeline: the type check, then the context-specific root
/// restriction.
pub open spec fn spec_top_level_checks<Ctx: ScriptContext>(ms: Miniscript) -> Result<
    (),
    crate::Error,
> {
    match Ctx::spec_top_level_type_check(ms) {
        Err(e) => Err(e),
        Ok(()) => Ctx::spec_other_top_level_checks(ms),
    }
}


/// A key marked uncompressed (and not x-only) passes the legacy key gate,
/// while the witness contexts reject it as an uncompressed key.
pub proof fn lemma_uncompressed_key_per_context(k: Key)
    requires
        k.uncompressed,
        !k.x_only,
    ensures
        Legacy::spec_check_pk(k) is Ok,
        Segwitv0::spec_check_pk(k) == Err::<(), ScriptContextErrorV>(
            ScriptContextErrorV::UncompressedKeysNotAllowed,
        ),
        Tap::spec_check_pk(k) == Err::<(), ScriptContextErrorV>(
            ScriptContextErrorV::UncompressedKeysNotAllowed,
        ),
{
}

/// Under the version-zero witness context, a batched-signature fragment is
/// rejected at the global-consensus stage, whatever its children, its keys
/// or its metrics hold.
pub proof fn lemma_segwit_rejects_batched(ms: Miniscript)
    requires
        ms.node matches Terminal::MultiA(_),
    ensures
        Segwitv0::spec_check_global_consensus_validity(ms) == Err::<(), ScriptContextErrorV>(
            ScriptContextErrorV::MultiANotAllowed,
        ),
{
}

/// Under the bare context, a root that is neither a checked single key,
/// nor a checked key hash, nor a key list of at most three keys, fails the
/// context-specific root restriction, whatever its children hold.
pub proof fn lemma_bare_root_whitelist(ms: Miniscript)
    ensures
        BareCtx::spec_other_top_level_checks(ms) is Ok <==> (match ms.node {
            Terminal::Check(sub) => sub.node matches Terminal::RawPkH || sub.node
                matches Terminal::PkK(_) || sub.node matches Terminal::PkH(_),
            Terminal::Multi(th) => th.keys@.len() <= 3,
            _ => false,
        }),
{
}

/// A node whose worst-case satisfaction metrics are undefined fails the
/// satisfaction-path consensus check with an impossible satisfaction,
/// under every context that performs that check through the operation
/// count.
pub proof fn lemma_impossible_satisfaction(ms: Miniscript)
    requires
        ms.ext.ops_count is None,
    ensures
        Legacy::spec_check_local_consensus_validity(ms) == Err::<(), ScriptContextErrorV>(
            ScriptContextErrorV::ImpossibleSatisfaction,
        ),
        Segwitv0::spec_check_local_consensus_validity(ms) == Err::<(), ScriptContextErrorV>(
            ScriptContextErrorV::ImpossibleSatisfaction,
        ),
        BareCtx::spec_check_local_consensus_validity(ms) == Err::<(), ScriptContextErrorV>(
            ScriptContextErrorV::ImpossibleSatisfaction,
        ),
{
}

/// Under every context, passing the local pipeline implies passing the
/// global pipeline: the local checks re-run the global checks first.
pub proof fn lemma_local_implies_global<Ctx: ScriptContext>(ms: Miniscript)
    ensures
        spec_local_validity::<Ctx>(ms) is Ok ==> spec_global_validity::<Ctx>(ms) is Ok,
{
}

} // verus!
