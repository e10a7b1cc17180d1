//! Tests of the context validation engine.

use descriptor_core::miniscript::context::{
    BareCtx, Legacy, NoChecks, ScriptContext, ScriptContextError, Segwitv0, SigType, Tap,
};
use descriptor_core::miniscript::{Base, ExtData, Key, KeyThreshold, Miniscript, Terminal};
use descriptor_core::{Error, Threshold, ThresholdError};

/// A compressed single-path key.
fn compressed(name: &str) -> Key {
    Key { uncompressed: false, x_only: false, der_paths: 1, name: name.to_string() }
}

/// An uncompressed single-path key.
fn uncompressed(name: &str) -> Key {
    Key { uncompressed: true, x_only: false, der_paths: 1, name: name.to_string() }
}

/// An x-only single-path key.
fn x_only(name: &str) -> Key {
    Key { uncompressed: false, x_only: true, der_paths: 1, name: name.to_string() }
}

/// A compressed key with the given number of derivation paths.
fn multipath(name: &str, paths: usize) -> Key {
    Key { uncompressed: false, x_only: false, der_paths: paths, name: name.to_string() }
}

/// Unremarkable metrics that pass every ceiling.
fn small_ext() -> ExtData {
    ExtData {
        pk_cost: 50,
        ops_count: Some(10),
        max_sat_size: Some((80, 90)),
        stack_elem_count_sat: Some(5),
        exec_stack_elem_count_sat: Some(5),
    }
}

/// A complete locking-condition node with the given shape and metrics.
fn node(term: Terminal, ext: ExtData) -> Miniscript {
    Miniscript { node: term, base: Base::B, ext }
}

/// A childless placeholder fragment.
fn other() -> Terminal {
    Terminal::Other(vec![])
}

#[test]
fn uncompressed_keys_per_context() {
    let k = uncompressed("u");
    assert!(Legacy::check_pk(&k).is_ok());
    assert!(BareCtx::check_pk(&k).is_ok());
    assert_eq!(
        Segwitv0::check_pk(&k).unwrap_err(),
        ScriptContextError::UncompressedKeysNotAllowed,
    );
    assert_eq!(Tap::check_pk(&k).unwrap_err(), ScriptContextError::UncompressedKeysNotAllowed);
    assert!(NoChecks::check_pk(&k).is_ok());
}

#[test]
fn x_only_keys_per_context() {
    let k = x_only("xo");
    assert_eq!(
        Legacy::check_pk(&k).unwrap_err(),
        ScriptContextError::XOnlyKeysNotAllowed("xo".to_string(), "Legacy/p2sh"),
    );
    assert_eq!(
        Segwitv0::check_pk(&k).unwrap_err(),
        ScriptContextError::XOnlyKeysNotAllowed("xo".to_string(), "Segwitv0"),
    );
    assert_eq!(
        BareCtx::check_pk(&k).unwrap_err(),
        ScriptContextError::XOnlyKeysNotAllowed("xo".to_string(), "BareCtx"),
    );
    assert!(Tap::check_pk(&k).is_ok());
    assert!(NoChecks::check_pk(&k).is_ok());
}

#[test]
fn batched_fragment_rejected_outside_tapscript() {
    // The children's keys are perfectly valid in every context; the
    // fragment kind alone decides.
    let th = KeyThreshold { k: 1, keys: vec![compressed("a"), compressed("b")] };
    let ms = node(Terminal::MultiA(th), small_ext());
    assert_eq!(
        Segwitv0::check_global_consensus_validity(&ms).unwrap_err(),
        ScriptContextError::MultiANotAllowed,
    );
    assert_eq!(
        Legacy::check_global_consensus_validity(&ms).unwrap_err(),
        ScriptContextError::MultiANotAllowed,
    );
    assert_eq!(
        BareCtx::check_global_consensus_validity(&ms).unwrap_err(),
        ScriptContextError::MultiANotAllowed,
    );
    assert!(Tap::check_global_consensus_validity(&ms).is_ok());
}

#[test]
fn legacy_multi_fragment_rejected_in_tapscript() {
    let th = KeyThreshold { k: 1, keys: vec![compressed("a"), compressed("b")] };
    let ms = node(Terminal::Multi(th), small_ext());
    assert_eq!(
        Tap::check_global_consensus_validity(&ms).unwrap_err(),
        ScriptContextError::TaprootMultiDisabled,
    );
    assert!(Legacy::check_global_consensus_validity(&ms).is_ok());
    assert!(Segwitv0::check_global_consensus_validity(&ms).is_ok());
    assert!(BareCtx::check_global_consensus_validity(&ms).is_ok());
}

#[test]
fn multi_key_gate_reports_first_bad_key() {
    let th = KeyThreshold { k: 1, keys: vec![compressed("a"), uncompressed("u")] };
    let ms = node(Terminal::Multi(th), small_ext());
    assert_eq!(
        Segwitv0::check_global_consensus_validity(&ms).unwrap_err(),
        ScriptContextError::UncompressedKeysNotAllowed,
    );
    assert!(Legacy::check_global_consensus_validity(&ms).is_ok());
}

#[test]
fn script_size_ceilings() {
    let mut ext = small_ext();
    ext.pk_cost = 521;
    assert_eq!(
        Legacy::check_global_consensus_validity(&node(other(), ext)).unwrap_err(),
        ScriptContextError::MaxRedeemScriptSizeExceeded { max: 520, got: 521 },
    );
    ext.pk_cost = 520;
    assert!(Legacy::check_global_consensus_validity(&node(other(), ext)).is_ok());

    ext.pk_cost = 10_001;
    assert_eq!(
        Segwitv0::check_global_consensus_validity(&node(other(), ext)).unwrap_err(),
        ScriptContextError::MaxWitnessScriptSizeExceeded { max: 10_000, got: 10_001 },
    );
    assert_eq!(
        BareCtx::check_global_consensus_validity(&node(other(), ext)).unwrap_err(),
        ScriptContextError::MaxBareScriptSizeExceeded { max: 10_000, got: 10_001 },
    );

    ext.pk_cost = 3601;
    assert_eq!(
        Segwitv0::check_global_policy_validity(&node(other(), ext)).unwrap_err(),
        ScriptContextError::MaxWitnessScriptSizeExceeded { max: 3600, got: 3601 },
    );
    ext.pk_cost = 3600;
    assert!(Segwitv0::check_global_policy_validity(&node(other(), ext)).is_ok());

    // The tapscript ceiling is the whole-block weight.
    ext.pk_cost = 4_000_001;
    assert_eq!(
        Tap::check_global_consensus_validity(&node(other(), ext)).unwrap_err(),
        ScriptContextError::MaxWitnessScriptSizeExceeded { max: 4_000_000, got: 4_000_001 },
    );
    ext.pk_cost = 4_000_000;
    assert!(Tap::check_global_consensus_validity(&node(other(), ext)).is_ok());
}

#[test]
fn op_count_ceiling() {
    let mut ext = small_ext();
    ext.ops_count = Some(202);
    assert_eq!(
        Legacy::check_local_consensus_validity(&node(other(), ext)).unwrap_err(),
        ScriptContextError::MaxOpCountExceeded { actual: 202, limit: 201 },
    );
    ext.ops_count = Some(201);
    assert!(Legacy::check_local_consensus_validity(&node(other(), ext)).is_ok());
    assert!(Segwitv0::check_local_consensus_validity(&node(other(), ext)).is_ok());
    assert!(BareCtx::check_local_consensus_validity(&node(other(), ext)).is_ok());
}

#[test]
fn impossible_satisfaction_always_fails_local() {
    let mut ext = small_ext();
    ext.ops_count = None;
    let ms = node(other(), ext);
    assert_eq!(
        Legacy::check_local_consensus_validity(&ms).unwrap_err(),
        ScriptContextError::ImpossibleSatisfaction,
    );
    assert_eq!(
        Segwitv0::check_local_consensus_validity(&ms).unwrap_err(),
        ScriptContextError::ImpossibleSatisfaction,
    );
    assert_eq!(
        BareCtx::check_local_consensus_validity(&ms).unwrap_err(),
        ScriptContextError::ImpossibleSatisfaction,
    );

    let mut ext = small_ext();
    ext.max_sat_size = None;
    assert_eq!(
        Legacy::check_local_policy_validity(&node(other(), ext)).unwrap_err(),
        ScriptContextError::ImpossibleSatisfaction,
    );
    let mut ext = small_ext();
    ext.stack_elem_count_sat = None;
    assert_eq!(
        Segwitv0::check_local_policy_validity(&node(other(), ext)).unwrap_err(),
        ScriptContextError::ImpossibleSatisfaction,
    );
}

#[test]
fn script_sig_size_ceiling() {
    let mut ext = small_ext();
    ext.max_sat_size = Some((100, 1651));
    assert_eq!(
        Legacy::check_local_policy_validity(&node(other(), ext)).unwrap_err(),
        ScriptContextError::MaxScriptSigSizeExceeded { actual: 1651, limit: 1650 },
    );
    ext.max_sat_size = Some((100, 1650));
    assert!(Legacy::check_local_policy_validity(&node(other(), ext)).is_ok());
}

#[test]
fn witness_item_ceilings() {
    let mut ext = small_ext();
    ext.stack_elem_count_sat = Some(100);
    assert_eq!(
        Segwitv0::check_local_policy_validity(&node(other(), ext)).unwrap_err(),
        ScriptContextError::MaxWitnessItemsExceeded { actual: 101, limit: 100 },
    );
    ext.stack_elem_count_sat = Some(99);
    assert!(Segwitv0::check_local_policy_validity(&node(other(), ext)).is_ok());

    let items: Vec<Vec<u8>> = vec![vec![0u8; 10]; 101];
    assert_eq!(
        Segwitv0::check_witness(&items).unwrap_err(),
        ScriptContextError::MaxWitnessItemsExceeded { actual: 101, limit: 100 },
    );
    assert!(Segwitv0::check_witness(&items[..100].to_vec()).is_ok());

    let items: Vec<Vec<u8>> = vec![vec![0u8; 1]; 1001];
    assert_eq!(
        Tap::check_witness(&items).unwrap_err(),
        ScriptContextError::MaxWitnessItemsExceeded { actual: 1001, limit: 1000 },
    );
    assert!(NoChecks::check_witness(&items).is_ok());
    assert!(BareCtx::check_witness(&items).is_ok());
}

#[test]
fn legacy_witness_script_sig_size() {
    // Three pushes of 600 bytes each need a two-byte length prefix, so
    // they render as 3 * (3 + 600) = 1809 bytes of script-sig, over the
    // relay ceiling of 1650.
    let witness: Vec<Vec<u8>> = vec![vec![7u8; 600]; 3];
    assert_eq!(
        Legacy::check_witness(&witness).unwrap_err(),
        ScriptContextError::MaxScriptSigSizeExceeded { actual: 1809, limit: 1650 },
    );
    // Two such pushes are 1206 bytes: fine.
    assert!(Legacy::check_witness(&witness[..2].to_vec()).is_ok());

    // A one-byte item holding a small number renders as a single opcode,
    // so 1650 of them fit exactly and 1651 do not.
    let small: Vec<Vec<u8>> = vec![vec![5u8]; 1651];
    assert_eq!(
        Legacy::check_witness(&small).unwrap_err(),
        ScriptContextError::MaxScriptSigSizeExceeded { actual: 1651, limit: 1650 },
    );
    assert!(Legacy::check_witness(&small[..1650].to_vec()).is_ok());

    // An empty witness renders as an empty script-sig.
    assert!(Legacy::check_witness(&[]).is_ok());
}

#[test]
fn tapscript_stack_budget() {
    let mut ext = small_ext();
    ext.exec_stack_elem_count_sat = Some(500);
    ext.stack_elem_count_sat = Some(501);
    assert_eq!(
        Tap::check_local_consensus_validity(&node(other(), ext)).unwrap_err(),
        ScriptContextError::StackSizeLimitExceeded { actual: 1001, limit: 1000 },
    );
    ext.stack_elem_count_sat = Some(500);
    assert!(Tap::check_local_consensus_validity(&node(other(), ext)).is_ok());
    ext.exec_stack_elem_count_sat = None;
    assert!(Tap::check_local_consensus_validity(&node(other(), ext)).is_ok());
}

#[test]
fn malleable_fragments_under_legacy() {
    let k = compressed("a");
    assert_eq!(
        Legacy::check_terminal_non_malleable(&Terminal::PkH(k.clone())).unwrap_err(),
        ScriptContextError::MalleablePkH,
    );
    assert_eq!(
        Legacy::check_terminal_non_malleable(&Terminal::RawPkH).unwrap_err(),
        ScriptContextError::MalleablePkH,
    );
    let sub = || Box::new(node(Terminal::PkK(compressed("a")), small_ext()));
    assert_eq!(
        Legacy::check_terminal_non_malleable(&Terminal::OrI(sub(), sub())).unwrap_err(),
        ScriptContextError::MalleableOrI,
    );
    assert_eq!(
        Legacy::check_terminal_non_malleable(&Terminal::DupIf(sub())).unwrap_err(),
        ScriptContextError::MalleableDupIf,
    );
    assert!(Legacy::check_terminal_non_malleable(&Terminal::PkK(k.clone())).is_ok());
    assert!(Segwitv0::check_terminal_non_malleable(&Terminal::PkH(k.clone())).is_ok());
    assert!(Tap::check_terminal_non_malleable(&Terminal::PkH(k.clone())).is_ok());
    assert!(BareCtx::check_terminal_non_malleable(&Terminal::PkH(k)).is_ok());
}

#[test]
fn bare_root_whitelist() {
    let k = compressed("a");
    let pkk = || Box::new(node(Terminal::PkK(compressed("a")), small_ext()));
    let ok_root = node(Terminal::Check(pkk()), small_ext());
    assert!(BareCtx::other_top_level_checks(&ok_root).is_ok());

    let pkh = Box::new(node(Terminal::PkH(k.clone()), small_ext()));
    assert!(BareCtx::other_top_level_checks(&node(Terminal::Check(pkh), small_ext())).is_ok());

    let raw = Box::new(node(Terminal::RawPkH, small_ext()));
    assert!(BareCtx::other_top_level_checks(&node(Terminal::Check(raw), small_ext())).is_ok());

    let th3 = KeyThreshold { k: 2, keys: vec![compressed("a"), compressed("b"), compressed("c")] };
    assert!(
        BareCtx::other_top_level_checks(&node(Terminal::Multi(th3), small_ext())).is_ok()
    );

    let th4 = KeyThreshold {
        k: 2,
        keys: vec![compressed("a"), compressed("b"), compressed("c"), compressed("d")],
    };
    assert_eq!(
        BareCtx::other_top_level_checks(&node(Terminal::Multi(th4), small_ext())).unwrap_err(),
        Error::NonStandardBareScript,
    );

    // Every child individually validates, but the root shape is outside
    // the whitelist.
    let inner = Box::new(node(Terminal::Check(pkk()), small_ext()));
    let bad_root = node(Terminal::DupIf(inner), small_ext());
    assert_eq!(
        BareCtx::other_top_level_checks(&bad_root).unwrap_err(),
        Error::NonStandardBareScript,
    );
    assert_eq!(
        BareCtx::other_top_level_checks(&node(other(), small_ext())).unwrap_err(),
        Error::NonStandardBareScript,
    );

    // Other contexts impose no root-shape restriction.
    assert!(Legacy::other_top_level_checks(&node(other(), small_ext())).is_ok());
}

#[test]
fn top_level_type_check_and_multipath() {
    let mut ms = node(other(), small_ext());
    ms.base = Base::K;
    assert_eq!(Legacy::top_level_type_check(&ms).unwrap_err(), Error::NonTopLevel);
    assert_eq!(NoChecks::top_level_type_check(&ms).unwrap_err(), Error::NonTopLevel);

    let th = KeyThreshold { k: 1, keys: vec![multipath("a", 2), multipath("b", 3)] };
    let mismatch = node(Terminal::Multi(th), small_ext());
    assert_eq!(
        Legacy::top_level_type_check(&mismatch).unwrap_err(),
        Error::MultipathDescLenMismatch,
    );
    // The diagnostics-only context skips the multipath scan.
    assert!(NoChecks::top_level_type_check(&mismatch).is_ok());

    let th = KeyThreshold { k: 1, keys: vec![multipath("a", 2), multipath("b", 2)] };
    assert!(Legacy::top_level_type_check(&node(Terminal::Multi(th), small_ext())).is_ok());

    // The scan runs over the whole tree, through nested fragments.
    let deep_key = Box::new(node(Terminal::PkK(multipath("c", 4)), small_ext()));
    let th = KeyThreshold { k: 1, keys: vec![multipath("a", 2)] };
    let mixed = node(
        Terminal::Other(vec![
            node(Terminal::Multi(th), small_ext()),
            node(Terminal::DupIf(deep_key), small_ext()),
        ]),
        small_ext(),
    );
    assert_eq!(
        Segwitv0::top_level_type_check(&mixed).unwrap_err(),
        Error::MultipathDescLenMismatch,
    );
    assert!(Legacy::top_level_checks(&node(other(), small_ext())).is_ok());
}

#[test]
fn pipelines_compose_in_order() {
    // Fine at consensus level, too large for relay policy: the global
    // pipeline and the local pipeline both stop at the policy stage.
    let mut ext = small_ext();
    ext.pk_cost = 5000;
    let ms = node(other(), ext);
    assert!(Segwitv0::check_global_consensus_validity(&ms).is_ok());
    assert_eq!(
        Segwitv0::check_global_validity(&ms).unwrap_err(),
        ScriptContextError::MaxWitnessScriptSizeExceeded { max: 3600, got: 5000 },
    );
    assert_eq!(
        Segwitv0::check_local_validity(&ms).unwrap_err(),
        ScriptContextError::MaxWitnessScriptSizeExceeded { max: 3600, got: 5000 },
    );

    // A consensus failure is reported before the policy failure.
    ext.pk_cost = 10_001;
    let ms = node(other(), ext);
    assert_eq!(
        Segwitv0::check_global_validity(&ms).unwrap_err(),
        ScriptContextError::MaxWitnessScriptSizeExceeded { max: 10_000, got: 10_001 },
    );

    // With the global stages clean, a local failure surfaces.
    let mut ext = small_ext();
    ext.ops_count = None;
    let ms = node(other(), ext);
    assert!(Legacy::check_global_validity(&ms).is_ok());
    assert_eq!(
        Legacy::check_local_validity(&ms).unwrap_err(),
        ScriptContextError::ImpossibleSatisfaction,
    );

    // The diagnostics-only context accepts everything.
    assert!(NoChecks::check_global_validity(&ms).is_ok());
    assert!(NoChecks::check_local_validity(&ms).is_ok());
}

#[test]
fn metadata_per_context() {
    assert_eq!(Legacy::sig_type(), SigType::Ecdsa);
    assert_eq!(Segwitv0::sig_type(), SigType::Ecdsa);
    assert_eq!(BareCtx::sig_type(), SigType::Ecdsa);
    assert_eq!(NoChecks::sig_type(), SigType::Ecdsa);
    assert_eq!(Tap::sig_type(), SigType::Schnorr);

    assert_eq!(Legacy::pk_len(&uncompressed("u")), 66);
    assert_eq!(Legacy::pk_len(&compressed("c")), 34);
    assert_eq!(BareCtx::pk_len(&uncompressed("u")), 66);
    assert_eq!(BareCtx::pk_len(&compressed("c")), 34);
    assert_eq!(Segwitv0::pk_len(&uncompressed("u")), 34);
    assert_eq!(Tap::pk_len(&compressed("c")), 33);

    assert_eq!(Legacy::name_str(), "Legacy/p2sh");
    assert_eq!(Segwitv0::name_str(), "Segwitv0");
    assert_eq!(Tap::name_str(), "TapscriptCtx");
    assert_eq!(BareCtx::name_str(), "BareCtx");
    assert_eq!(NoChecks::name_str(), "NochecksEcdsa");
}

#[test]
fn satisfaction_size_picks_the_context_side() {
    let mut ext = small_ext();
    ext.max_sat_size = Some((80, 90));
    let ms = node(other(), ext);
    // Witness-stack cost for the witness contexts, script-sig cost for the
    // legacy-style contexts.
    assert_eq!(Legacy::max_satisfaction_size(&ms), Some(90));
    assert_eq!(BareCtx::max_satisfaction_size(&ms), Some(90));
    assert_eq!(Segwitv0::max_satisfaction_size(&ms), Some(80));
    assert_eq!(Tap::max_satisfaction_size(&ms), Some(80));
}

#[test]
fn threshold_construction() {
    let t: Threshold<u8, 20> = Threshold::new(2, vec![1, 2, 3]).unwrap();
    assert_eq!(t.k(), 2);
    assert_eq!(t.n(), 3);
    assert_eq!(
        Threshold::<u8, 20>::new(0, vec![1]).unwrap_err(),
        ThresholdError::ZeroThreshold,
    );
    assert_eq!(
        Threshold::<u8, 20>::new(3, vec![1, 2]).unwrap_err(),
        ThresholdError::OverThreshold(3, 2),
    );
    assert_eq!(
        Threshold::<u8, 2>::new(1, vec![1, 2, 3]).unwrap_err(),
        ThresholdError::TooManyElements(3, 2),
    );
}
