use std::collections::BTreeMap;

use dcap_verify::corpus::{
    case_heading, case_line, expected_label, parse_hex_u64, recorded_cases, recorded_iterations,
    AllowCase, AllowSweep, CorpusLedger, HexFault,
};
use dcap_verify::ledger::{
    finding_line, findings_file, iteration_subject, repro_command, vanished_line, SweepLedger,
};
use dcap_verify::marshal::{
    build_quote_collateral, calibration_grid, calibration_row, cell_passes, choose_config,
    default_marshal, CrlForm, MarshalConfig, RawCollateral,
};
use dcap_verify::ordered::{place, Place, TextMap};
use dcap_verify::pipeline::{
    classify, compare_outcomes, dcap_outcome, Bucket, DcapOutcome, QvlOutcome, QvlResult, Tally,
    EXIT_CLEAN, EXIT_FAIL, EXIT_REVIEW,
};
use dcap_verify::rng::SplitMix64;
use dcap_verify::sweep::{
    can_mutate, can_plan, mutate, plan_iteration, tcb_levels_range, BaseCase, SweepOpts,
};
use dcap_verify::{ErrorCategory, TcbStanding};

fn accept() -> DcapOutcome {
    DcapOutcome::Accept(TcbStanding::UpToDate)
}

fn reject(category: ErrorCategory, detail: &str) -> DcapOutcome {
    DcapOutcome::Reject { category, detail: detail.to_string() }
}

fn verdict(exp_status: u32, result: QvlResult) -> QvlOutcome {
    QvlOutcome::Verdict { exp_status, result }
}

fn other() -> QvlResult {
    QvlResult::Other("SGX_QL_QV_RESULT_REVOKED".to_string())
}

// ---- outcomes and their comparison ----

#[test]
fn outcomes_are_labelled() {
    assert_eq!(accept().label(), "accept(up-to-date)");
    let degraded = TcbStanding::SWHardeningNeeded { advisory_ids: vec![] };
    assert_eq!(DcapOutcome::Accept(degraded).label(), "accept(sw-hardening-needed)");
    assert_eq!(reject(ErrorCategory::CrlInvalid, "x").label(), "reject(crl-invalid)");
    assert_eq!(DcapOutcome::Panic("x".to_string()).label(), "panic");
    assert_eq!(QvlOutcome::NotRun("why".to_string()).label(), "not-run(why)");
    assert_eq!(
        QvlOutcome::Error("SGX_QL_ERROR_UNEXPECTED".to_string()).label(),
        "err(SGX_QL_ERROR_UNEXPECTED)"
    );
    assert_eq!(verdict(0, QvlResult::Passed).label(), "exp=0 SGX_QL_QV_RESULT_OK");
    assert_eq!(
        verdict(1, QvlResult::ConfigAndSwHardeningNeeded).label(),
        "exp=1 SGX_QL_QV_RESULT_CONFIG_AND_SW_HARDENING_NEEDED"
    );
    assert_eq!(verdict(2, other()).label(), "exp=2 SGX_QL_QV_RESULT_REVOKED");
    assert_eq!(QvlOutcome::marshal_failed("bad").label(), "not-run(marshal-failed: bad)");
}

#[test]
fn acceptances_are_compared_with_qvl() {
    let qvl_error = QvlOutcome::Error("E".to_string());
    let not_run = QvlOutcome::NotRun("x".to_string());
    assert_eq!(classify(&accept(), &verdict(0, QvlResult::Passed)), Bucket::AgreeAccept);
    assert_eq!(
        classify(&accept(), &verdict(0, QvlResult::SwHardeningNeeded)),
        Bucket::StandingMismatch
    );
    assert_eq!(
        classify(&accept(), &verdict(1, QvlResult::Passed)),
        Bucket::Dangerous("qvl-accept-expired")
    );
    assert_eq!(classify(&accept(), &verdict(0, other())), Bucket::Dangerous("qvl-rejects"));
    assert_eq!(classify(&accept(), &qvl_error), Bucket::Dangerous("qvl-rejects"));
    assert_eq!(classify(&accept(), &not_run), Bucket::Dangerous("qvl-not-run"));
}

#[test]
fn rejections_are_compared_with_qvl() {
    let passed = |exp| verdict(exp, QvlResult::Passed);
    let crl = reject(ErrorCategory::CrlInvalid, "x");
    assert_eq!(classify(&crl, &verdict(0, other())), Bucket::AgreeReject);
    assert_eq!(classify(&crl, &QvlOutcome::NotRun("x".to_string())), Bucket::AgreeReject);
    assert_eq!(classify(&crl, &passed(1)), Bucket::UnexplainedSafe);
    let debug = reject(ErrorCategory::DebugEnclaveRejected, "x");
    assert_eq!(classify(&debug, &passed(0)), Bucket::KnownDelta("debug-gate"));
    let gate = reject(ErrorCategory::CollateralParse, "v4: only version 3 is supported here");
    assert_eq!(classify(&gate, &passed(0)), Bucket::KnownDelta("format-gate"));
    let no_gate = reject(ErrorCategory::CollateralParse, "not JSON");
    assert_eq!(classify(&no_gate, &passed(0)), Bucket::UnexplainedSafe);
    let stale = reject(ErrorCategory::QeIdentityStale, "x");
    assert_eq!(classify(&stale, &passed(1)), Bucket::KnownDelta("expiry-model"));
    assert_eq!(classify(&stale, &passed(0)), Bucket::UnexplainedSafe);
    let panic = DcapOutcome::Panic("x".to_string());
    assert_eq!(classify(&panic, &verdict(0, other())), Bucket::DcapPanic);
}

#[test]
fn buckets_say_what_needs_a_look() {
    let rows = [
        (Bucket::AgreeAccept, "agree-accept", true, false),
        (Bucket::AgreeReject, "agree-reject", true, false),
        (Bucket::StandingMismatch, "standing-mismatch", false, true),
        (Bucket::Dangerous("k"), "DANGEROUS(k)", false, true),
        (Bucket::KnownDelta("k"), "known-delta(k)", false, false),
        (Bucket::UnexplainedSafe, "unexplained-safe", false, true),
        (Bucket::DcapPanic, "dcap-panic", false, true),
    ];
    for (bucket, label, agreement, finding) in rows {
        assert_eq!(bucket.label(), label);
        assert_eq!(bucket.is_agreement(), agreement, "{label}");
        assert_eq!(bucket.is_finding(), finding, "{label}");
    }
}

#[test]
fn undecoded_collateral_and_broken_quotes_are_rejections() {
    let outcome = dcap_outcome(&[], Err("expected value".to_string()), 0);
    match outcome {
        DcapOutcome::Reject { category, detail } => {
            assert_eq!(category, ErrorCategory::CollateralParse);
            assert_eq!(detail, "collateral JSON: expected value");
        }
        _ => panic!("collateral that did not decode must be rejected"),
    }
}

#[test]
fn tallies_amount_to_an_exit_code() {
    let mut tally = Tally::default();
    tally.add(&Bucket::AgreeAccept);
    tally.add(&Bucket::AgreeReject);
    tally.add(&Bucket::AgreeReject);
    tally.add(&Bucket::KnownDelta("debug-gate"));
    tally.add(&Bucket::UnexplainedSafe);
    assert_eq!(tally.exit_code(), EXIT_CLEAN);
    assert_eq!(
        tally.verdict_line(),
        "RESULT: CLEAN — dcap-verify matches Intel QVL (only expected deltas). [3 agree (1 accept / 2 reject), 1 known-delta, 1 safe-direction (dcap stricter), 0 dangerous, 0 known-dangerous (allowlisted), 0 vanished, 0 standing-mismatch, 0 panic]"
    );
    assert!(tally.settle(&Bucket::Dangerous("qvl-rejects"), true));
    assert_eq!(tally.exit_code(), EXIT_CLEAN);
    assert!(!tally.settle(&Bucket::Dangerous("qvl-rejects"), false));
    assert_eq!(tally.exit_code(), EXIT_REVIEW);
    assert_eq!(
        tally.verdict_line(),
        "RESULT: REVIEW — 1 unrecorded dcap-accept/QVL-reject divergence(s), 0 allowlisted case(s) that no longer reproduce; triage against dcap-differ/FINDINGS.md. [3 agree (1 accept / 2 reject), 1 known-delta, 1 safe-direction (dcap stricter), 1 dangerous, 1 known-dangerous (allowlisted), 0 vanished, 0 standing-mismatch, 0 panic]"
    );
    tally.add(&Bucket::DcapPanic);
    tally.add(&Bucket::StandingMismatch);
    assert_eq!(tally.exit_code(), EXIT_FAIL);
    assert!(tally
        .verdict_line()
        .starts_with("RESULT: FAIL — 1 dcap-panic, 1 standing-mismatch (real defect). [3 agree"));
    assert_eq!((EXIT_CLEAN, EXIT_REVIEW, EXIT_FAIL), (0, 10, 20));
}

// ---- handing collateral over ----

fn raw() -> RawCollateral {
    RawCollateral {
        version: 3,
        root_ca_crl: pem::encode(&pem::Pem::new("X509 CRL", vec![1, 2, 3])),
        pck_crl: pem::encode(&pem::Pem::new("X509 CRL", vec![4, 5])),
        tcb_info_issuer_chain: "tcb".to_string(),
        pck_crl_issuer_chain: "pck".to_string(),
        qe_identity_issuer_chain: "qé".to_string(),
        tcb_info: "{\"tcbInfo\": 1}".to_string(),
        qe_identity: "{}".to_string(),
    }
}

#[test]
fn buffers_are_the_texts_with_a_nul() {
    let built = build_quote_collateral(&raw(), default_marshal()).expect("PEM needs no decoding");
    assert_eq!((built.major_version, built.minor_version, built.tee_type), (3, 1, 0));
    assert_eq!(built.tcb_info, b"{\"tcbInfo\": 1}\0");
    assert_eq!(built.qe_identity_issuer_chain, "qé\0".as_bytes());
    assert_eq!(built.pck_crl, format!("{}\0", raw().pck_crl).into_bytes());
}

#[test]
fn der_lists_are_decoded_and_get_no_nul() {
    let cfg = MarshalConfig { major: 3, minor: 0, tee_type: 0, crl_form: CrlForm::Der };
    let built = build_quote_collateral(&raw(), cfg).expect("both lists decode");
    assert_eq!(built.root_ca_crl, vec![1, 2, 3]);
    assert_eq!(built.pck_crl, vec![4, 5]);
    let mut broken = raw();
    broken.pck_crl = "no list".to_string();
    let err = build_quote_collateral(&broken, cfg).unwrap_err();
    assert!(err.starts_with("CRL PEM decode: "), "{err}");
}

#[test]
fn calibration_prefers_the_default() {
    let grid = calibration_grid();
    assert_eq!(grid.len(), 8);
    assert_eq!(grid[0].label(), "version=1.0 tee_type=0 crl=pem");
    assert_eq!(grid[5].label(), "version=3.1 tee_type=0 crl=der");
    assert_eq!(choose_config(&grid), Some(default_marshal()));
    assert_eq!(choose_config(&grid[5..].to_vec()), Some(grid[5]));
    assert_eq!(choose_config(&Vec::new()), None);
    assert!(cell_passes(&QvlResult::ConfigAndSwHardeningNeeded));
    assert!(!cell_passes(&QvlResult::Passed));
    assert_eq!(calibration_row(grid[5], "exp=0 X"), "3.1        der    0          exp=0 X");
}

// ---- the generator and the mutations ----

#[test]
fn the_generator_is_splitmix64() {
    let mut rng = SplitMix64::new(1234567);
    let drawn: Vec<u64> = (0..5).map(|_| rng.next()).collect();
    assert_eq!(
        drawn,
        [
            6457827717110365317,
            3203168211198807973,
            9817491932198370423,
            4593380528125082431,
            16408922859458223821
        ]
    );
    let mut rng = SplitMix64::new(1234567);
    assert_eq!(rng.below(10), 7);
}

fn base(quote_len: usize) -> BaseCase {
    BaseCase {
        name: "base".to_string(),
        quote: (0..quote_len).map(|i| (i * 7) as u8).collect(),
        collateral: b"{\"x\":1,\"tcbLevels\" : [ {\"a\":\"]\"}, [1] ], \"tcbLevels\":[]}".to_vec(),
        current_time: 1780000000,
    }
}

fn fingerprint(bytes: &[u8]) -> u64 {
    bytes.iter().fold(0, |v, b| (v * 31 + u64::from(*b)) % 1000003)
}

#[test]
fn strategies_mutate_what_they_name() {
    let rows: [(usize, u64, usize, u64, i64, &str); 9] = [
        (600, 134519, 56, 726557, 1780000000, "quote-bitflip: flip bits [4291, 3858, 2964, 3250, 3462, 925]"),
        (160, 667388, 56, 726557, 1780000000, "quote-truncate to 160"),
        (600, 829742, 56, 726557, 1780000000, "quote-overwrite 20 bytes at 316"),
        (600, 183480, 56, 726557, 1780000000, "quote-cert-tail-bitflip: flip bits [4772, 4549, 3712, 4775, 3741, 4158, 3588]"),
        (600, 496368, 56, 382658, 1780000000, "coll-bitflip: flip bits [149, 55, 333, 384, 30, 223, 108, 425]"),
        (600, 496368, 5, 722067, 1780000000, "coll-truncate to 5"),
        (600, 496368, 56, 673198, 1780000000, "coll-tcblevels-bitflip range=21..39: flip bits [185, 268, 199, 199]"),
        (600, 496368, 56, 726557, 1688622274, "time-jitter delta=-91377726s -> 1688622274"),
        (600, 469988, 56, 990765, 1780000000, "combo: quote-cert-tail-bitflip: flip bits [3828, 4376, 3637, 3956, 3959, 3848, 4422, 4779]; coll-tcblevels-bitflip range=21..39: flip bits [246, 271, 259, 282, 283, 168, 274]"),
    ];
    // Where each of them leaves the generator.
    let states: [u64; 9] = [
        0x538454127b0964bd,
        0x9e3779b97f4a7c40,
        0x98c475f0f066a9fa,
        0xf1bbcdcbfa53e0d5,
        0x8ff34785799e5ceb,
        0x9e3779b97f4a7c44,
        0x1715609f7c746c99,
        0x9e3779b97f4a7c46,
        0xbe1e08c4728735c1,
    ];
    for (strategy, row) in rows.iter().enumerate() {
        let strategy = strategy as u64;
        let mut rng = SplitMix64::new(42 + strategy);
        assert!(can_mutate(&base(600), strategy, &rng));
        let case = mutate(&base(600), strategy, &mut rng);
        assert_eq!(rng.state, states[strategy as usize], "{strategy}");
        assert_eq!(case.desc, row.5);
        assert_eq!((case.quote.len(), fingerprint(&case.quote)), (row.0, row.1), "{strategy}");
        assert_eq!((case.collateral.len(), fingerprint(&case.collateral)), (row.2, row.3));
        assert_eq!(case.current_time, row.4);
    }
}

#[test]
fn empty_inputs_can_only_be_overwritten() {
    let mut empty = base(0);
    let rng = SplitMix64::new(1);
    assert!(!can_mutate(&empty, 0, &rng));
    assert!(!can_mutate(&empty, 1, &rng));
    assert!(can_mutate(&empty, 2, &rng));
    assert!(!can_mutate(&empty, 3, &rng));
    assert!(can_mutate(&empty, 4, &rng));
    empty.collateral.clear();
    assert!(!can_mutate(&empty, 4, &rng));
    assert!(!can_mutate(&empty, 6, &rng));
    assert!(!can_mutate(&base(600), 9, &rng));
    let mut late = base(600);
    late.current_time = i64::MAX;
    assert!((0..40).any(|seed| !can_mutate(&late, 7, &SplitMix64::new(seed))));
    let case = mutate(&empty, 2, &mut SplitMix64::new(1));
    assert_eq!(case.desc, "quote-overwrite 0 bytes at 0");
}

#[test]
fn brackets_inside_strings_do_not_end_the_levels() {
    assert_eq!(tcb_levels_range(&base(1).collateral), Some((21, 39)));
    assert_eq!(tcb_levels_range(&b"{\"tcbLevels\":[\"\\\"]\"]}".to_vec()), Some((13, 20)));
    assert_eq!(tcb_levels_range(&b"{\"tcbLevels\":[1".to_vec()), None);
    assert_eq!(tcb_levels_range(&b"{\"tcbLevels\"".to_vec()), None);
    assert_eq!(tcb_levels_range(&b"{}".to_vec()), None);
}

fn opts(iters: u64, only_iter: Option<u64>, recorded: &[(u64, &str)]) -> SweepOpts {
    SweepOpts {
        iters,
        seed: 0xDCAF00000001,
        bases: vec![],
        default_bases: true,
        only_iter,
        out: String::new(),
        allow_iters: recorded.iter().map(|(k, f)| (*k, f.to_string())).collect(),
    }
}

#[test]
fn iterations_are_planned_by_seed_and_number() {
    let bases = vec![base(600), base(50)];
    let expected = [
        (0, 2, "quote-overwrite 9 bytes at 8"),
        (0, 3, "quote-cert-tail-bitflip: flip bits [4551, 3777, 4273, 4312, 4439, 4450]"),
        (0, 7, "time-jitter delta=-69067551s -> 1710932449"),
        (0, 7, "time-jitter delta=54520182s -> 1834520182"),
        (0, 8, "combo: quote-bitflip: flip bits [78, 1373, 4032, 2327, 1171]; coll-bitflip: flip bits [232, 409, 212, 249, 205, 102, 379, 80]"),
        (0, 8, "combo: quote-bitflip: flip bits [4318]; coll-bitflip: flip bits [339, 113, 144, 251, 91, 291]"),
    ];
    for (i, row) in expected.iter().enumerate() {
        let o = opts(6, None, &[]);
        assert!(can_plan(&o, &bases, i as u64));
        let plan = plan_iteration(&o, &bases, i as u64);
        assert_eq!((plan.base, plan.strategy, plan.case.desc.as_str()), *row);
    }
    let mut o = opts(4, None, &[]);
    o.seed = 7;
    o.default_bases = false;
    let bases = vec![base(600), base(500), base(400)];
    let picks: Vec<(usize, u64)> = (0..4)
        .map(|i| plan_iteration(&o, &bases, i))
        .map(|plan| (plan.base, plan.strategy))
        .collect();
    assert_eq!(picks, [(0, 6), (2, 5), (0, 5), (1, 3)]);
    assert!(!can_plan(&o, &Vec::new(), 0));
    assert!(!can_plan(&opts(1, None, &[]), &vec![base(600)], 0));
}

#[test]
fn the_window_is_one_iteration_or_all() {
    assert_eq!(opts(4, None, &[]).indices(), [0, 1, 2, 3]);
    assert_eq!(opts(4, Some(9), &[]).indices(), [9]);
    assert!(opts(4, None, &[]).covers(3));
    assert!(!opts(4, None, &[]).covers(4));
    assert!(opts(4, Some(9), &[]).covers(9));
    assert!(!opts(4, Some(9), &[]).covers(3));
}

// ---- the ledger of a sweep ----

#[test]
fn a_sweep_is_summarized() {
    let o = opts(10, None, &[(3, "F1"), (5, "F2"), (12, "F3")]);
    let mut ledger = SweepLedger::new();
    assert_eq!(ledger.record(&o, 0, 0, &Bucket::AgreeReject), "agree-reject");
    assert_eq!(ledger.record(&o, 1, 0, &Bucket::AgreeReject), "agree-reject");
    assert_eq!(ledger.record(&o, 2, 8, &Bucket::AgreeAccept), "agree-accept");
    assert_eq!(ledger.record(&o, 3, 2, &Bucket::Dangerous("qvl-rejects")), "known-dangerous");
    assert_eq!(
        ledger.record(&o, 4, 2, &Bucket::Dangerous("qvl-rejects")),
        "DANGEROUS(qvl-rejects)"
    );
    assert_eq!(ledger.record(&o, 5, 7, &Bucket::KnownDelta("expiry-model")), "known-delta(expiry-model)");
    assert_eq!(ledger.close(&o), [5]);
    assert_eq!(ledger.tally.vanished, 1);
    assert_eq!(ledger.tally.dangerous_known, 1);
    assert_eq!(ledger.tally.exit_code(), EXIT_REVIEW);
    let blank = |n: usize| " ".repeat(n);
    let row = |head: &str, cells: [u64; 5]| {
        let mut line = format!("{head:<10}");
        for n in cells {
            line.push_str(&format!("{n:>27}"));
        }
        line
    };
    let expected = vec![
        String::new(),
        "=== sweep summary (6 iterations) ===".to_string(),
        format!(
            "strategy  {}DANGEROUS(qvl-rejects){}agree-accept{}agree-reject{}known-dangerous{}known-delta(expiry-model)",
            blank(5),
            blank(15),
            blank(15),
            blank(12),
            blank(2)
        ),
        row("0", [0, 0, 2, 0, 0]),
        row("1", [0, 0, 0, 0, 0]),
        row("2", [1, 0, 0, 1, 0]),
        row("3", [0, 0, 0, 0, 0]),
        row("4", [0, 0, 0, 0, 0]),
        row("5", [0, 0, 0, 0, 0]),
        row("6", [0, 0, 0, 0, 0]),
        row("7", [0, 0, 0, 0, 1]),
        row("8", [0, 1, 0, 0, 0]),
        row("total", [1, 1, 2, 1, 1]),
        String::new(),
        "agreements: 3 (accept 1, reject 2)".to_string(),
        "known delta expiry-model: 1".to_string(),
        "unexplained-safe: 0".to_string(),
        "standing-mismatch: 0".to_string(),
        "dcap-panic: 0".to_string(),
        "DANGEROUS: 1".to_string(),
    ];
    assert_eq!(ledger.summary(), expected);
}

// A whole sweep over the window 0..n, with the records in these buckets.
fn swept(o: &SweepOpts, buckets: &[Bucket]) -> i32 {
    let mut ledger = SweepLedger::new();
    for (i, bucket) in o.indices().into_iter().zip(buckets) {
        ledger.record(o, i, 0, bucket);
    }
    ledger.close(o);
    ledger.tally.exit_code()
}

#[test]
fn a_sweep_exits_by_what_it_found() {
    let dangerous = || Bucket::Dangerous("qvl-rejects");
    let none = opts(2, None, &[]);
    assert_eq!(swept(&none, &[Bucket::AgreeAccept, Bucket::UnexplainedSafe]), EXIT_CLEAN);
    assert_eq!(swept(&none, &[Bucket::KnownDelta("expiry-model"), Bucket::AgreeReject]), EXIT_CLEAN);
    assert_eq!(swept(&none, &[Bucket::AgreeAccept, dangerous()]), EXIT_REVIEW);
    assert_eq!(swept(&none, &[Bucket::StandingMismatch, dangerous()]), EXIT_FAIL);
    assert_eq!(swept(&none, &[dangerous(), Bucket::DcapPanic]), EXIT_FAIL);

    let second = opts(2, None, &[(1, "F1")]);
    assert_eq!(swept(&second, &[Bucket::AgreeAccept, dangerous()]), EXIT_CLEAN);
    assert_eq!(swept(&second, &[dangerous(), dangerous()]), EXIT_REVIEW);
    assert_eq!(swept(&second, &[Bucket::AgreeAccept, Bucket::AgreeReject]), EXIT_REVIEW);
    assert_eq!(swept(&second, &[Bucket::DcapPanic, Bucket::AgreeReject]), EXIT_FAIL);

    // A recorded iteration outside the window is not missed.
    let outside = opts(2, None, &[(7, "F1")]);
    assert_eq!(swept(&outside, &[Bucket::AgreeAccept, Bucket::AgreeReject]), EXIT_CLEAN);
    let alone = opts(2, Some(7), &[(7, "F1"), (1, "F2")]);
    assert_eq!(swept(&alone, &[dangerous()]), EXIT_CLEAN);
    assert_eq!(swept(&alone, &[Bucket::AgreeReject]), EXIT_REVIEW);
}

#[test]
fn an_empty_sweep_is_summarized() {
    let lines = SweepLedger::new().summary();
    assert_eq!(lines[1], "=== sweep summary (0 iterations) ===");
    assert_eq!(lines[2], "strategy  ");
    assert_eq!(lines[12], "total     ");
    assert_eq!(lines.len(), 19);
}

#[test]
fn sweep_lines_are_worded() {
    assert_eq!(
        repro_command(0xDCAF00000001, 17),
        "dcap-differ sweep --seed 0xDCAF00000001 --iters 1 --only-iter 17"
    );
    assert_eq!(findings_file(0xDCAF00000001), "sweep-dcaf00000001.jsonl");
    let record = compare_outcomes(accept(), verdict(0, other()));
    assert_eq!(
        finding_line(3, "prod-1", 6, "DANGEROUS(qvl-rejects)", &record),
        "FINDING iter=3 base=prod-1 strategy=6 bucket=DANGEROUS(qvl-rejects) dcap=accept(up-to-date) qvl=exp=0 SGX_QL_QV_RESULT_REVOKED"
    );
    assert_eq!(
        vanished_line(&iteration_subject(7), "F4"),
        "VANISHED iter=7 (F4) — allowlisted as dangerous but no longer reproduces; update FINDINGS.md and the allowlist together"
    );
}

// ---- known findings and the corpus ----

#[test]
fn hexadecimal_numbers_are_read() {
    assert_eq!(parse_hex_u64("0xDCAF00000001"), Ok(0xDCAF00000001));
    assert_eq!(parse_hex_u64("0Xff"), Ok(255));
    assert_eq!(parse_hex_u64("+1A"), Ok(26));
    assert_eq!(parse_hex_u64("ffffffffffffffff"), Ok(u64::MAX));
    assert_eq!(parse_hex_u64("10000000000000000"), Err(HexFault::TooLarge));
    assert_eq!(parse_hex_u64("0x"), Err(HexFault::Empty));
    assert_eq!(parse_hex_u64(""), Err(HexFault::Empty));
    assert_eq!(parse_hex_u64("+"), Err(HexFault::InvalidDigit));
    assert_eq!(parse_hex_u64("-1"), Err(HexFault::InvalidDigit));
    assert_eq!(parse_hex_u64("0x0x1"), Err(HexFault::InvalidDigit));
    for text in ["0", "7f", "+ff", "ffffffffffffffff", "10000000000000000", "", "+", "g", "-1"] {
        let expected = u64::from_str_radix(text, 16).map_err(|e| e.to_string());
        let read = parse_hex_u64(text).map_err(|fault| fault.text().to_string());
        assert_eq!(read, expected, "{text}");
    }
}

fn allow(finding: &str, seed: &str, iter: u64) -> AllowSweep {
    AllowSweep { finding: finding.to_string(), seed: seed.to_string(), iter }
}

#[test]
fn recorded_iterations_are_those_of_the_seed() {
    let entries =
        vec![allow("F1", "0xA", 3), allow("F2", "b", 4), allow("F3", "0x0a", 9), allow("F4", "a", 3)];
    let recorded = recorded_iterations(&entries, 10).ok().expect("the seeds are numbers");
    let expected: BTreeMap<u64, String> =
        [(3, "F4".to_string()), (9, "F3".to_string())].into_iter().collect();
    assert_eq!(recorded, expected);
    let broken = vec![allow("F1", "0xA", 3), allow("F2", "x", 4)];
    let bad = recorded_iterations(&broken, 10).err().expect("a seed is no number");
    assert_eq!((bad.seed.as_str(), bad.fault), ("x", HexFault::InvalidDigit));
}

#[test]
fn a_corpus_run_is_accounted_for() {
    let recorded = recorded_cases(&vec![
        AllowCase { finding: "F1".to_string(), case: "b".to_string() },
        AllowCase { finding: "F2".to_string(), case: "a".to_string() },
        AllowCase { finding: "F3".to_string(), case: "gone".to_string() },
        AllowCase { finding: "F4".to_string(), case: "b".to_string() },
    ]);
    assert_eq!(recorded.get("b").map(String::as_str), Some("F4"));
    let mut ledger = CorpusLedger::new();
    assert_eq!(
        ledger.record("b", &Bucket::Dangerous("qvl-rejects"), &recorded),
        "known-dangerous(F4)"
    );
    assert_eq!(ledger.record("a", &Bucket::AgreeReject, &recorded), "agree-reject");
    assert_eq!(
        ledger.record("c", &Bucket::Dangerous("qvl-rejects"), &recorded),
        "DANGEROUS(qvl-rejects)"
    );
    let present = vec!["a".to_string(), "b".to_string(), "c".to_string()];
    assert_eq!(ledger.close(&present, &recorded), [vanished_line("a", "F2")]);
    assert_eq!(ledger.tally.vanished, 1);
    assert_eq!(ledger.tally.dangerous_known, 1);
    assert_eq!(ledger.tally.dangerous, 1);
    assert_eq!(ledger.tally.agree_reject, 1);
}

// A whole run over cases with these names, with the records in these buckets.
fn examined(recorded: &TextMap<String>, cases: &[(&str, Bucket)]) -> i32 {
    let mut ledger = CorpusLedger::new();
    for (name, bucket) in cases {
        ledger.record(name, bucket, recorded);
    }
    let present = cases.iter().map(|(name, _)| name.to_string()).collect();
    ledger.close(&present, recorded);
    ledger.tally.exit_code()
}

#[test]
fn a_run_exits_by_what_it_found() {
    let dangerous = || Bucket::Dangerous("qvl-rejects");
    let recorded =
        recorded_cases(&vec![AllowCase { finding: "F4".to_string(), case: "b".to_string() }]);
    assert_eq!(examined(&recorded, &[("a", Bucket::AgreeAccept)]), EXIT_CLEAN);
    assert_eq!(examined(&recorded, &[("a", Bucket::AgreeReject), ("b", dangerous())]), EXIT_CLEAN);
    assert_eq!(examined(&recorded, &[("a", dangerous()), ("b", dangerous())]), EXIT_REVIEW);
    assert_eq!(examined(&recorded, &[("b", Bucket::AgreeReject)]), EXIT_REVIEW);
    assert_eq!(examined(&recorded, &[("a", Bucket::DcapPanic), ("b", dangerous())]), EXIT_FAIL);
    assert_eq!(examined(&recorded, &[("b", Bucket::StandingMismatch)]), EXIT_FAIL);
}

#[test]
fn case_lines_are_set_in_columns() {
    assert_eq!(
        case_heading(),
        format!("{:<28} {:<50} {:<28} {:<50} meta-expected", "case", "dcap", "qvl", "bucket")
    );
    let record = compare_outcomes(accept(), verdict(0, QvlResult::Passed));
    let line = case_line("prod-1", &record, &record.bucket.label(), "accept");
    assert_eq!(
        line,
        format!(
            "{:<28} {:<50} {:<28} {:<50} accept",
            "prod-1", "accept(up-to-date)", "exp=0 SGX_QL_QV_RESULT_OK", "agree-accept"
        )
    );
}

#[test]
fn expectations_name_the_category_or_the_standing() {
    assert_eq!(expected_label("reject", Some("crl-invalid"), Some("x")), "reject(crl-invalid)");
    assert_eq!(expected_label("accept", None, Some("up-to-date")), "accept(up-to-date)");
    assert_eq!(expected_label("accept", None, None), "accept");
}

// ---- ordered texts ----

#[test]
fn text_maps_keep_their_keys_in_order() {
    let mut map: TextMap<u32> = TextMap::new();
    for (i, key) in ["b", "a", "ab", "", "é", "b", "Z"].iter().enumerate() {
        map.insert(key.to_string(), i as u32);
    }
    let keys: Vec<&str> = map.entries.iter().map(|(key, _)| key.as_str()).collect();
    assert_eq!(keys, ["", "Z", "a", "ab", "b", "é"]);
    let mut sorted = keys.clone();
    sorted.sort();
    assert_eq!(keys, sorted);
    assert_eq!(map.get("b"), Some(&5));
    assert_eq!(map.get("c"), None);
    assert_eq!(map.find("aa"), Err(3));
    assert_eq!(map.find("ab"), Ok(3));
    assert_eq!(place("ab", "b"), Place::Before);
    assert_eq!(place("ab", "ab"), Place::Same);
    assert_eq!(place("ab", "a"), Place::Behind);
}

// An iteration is the same alone as in a whole sweep.
#[test]
fn an_iteration_runs_alone_as_in_a_sweep() {
    let bases = vec![base(600), base(50)];
    let whole = plan_iteration(&opts(100, None, &[]), &bases, 37);
    let alone = plan_iteration(&opts(1, Some(37), &[]), &bases, 37);
    assert_eq!((whole.base, whole.strategy), (alone.base, alone.strategy));
    assert_eq!(whole.case.desc, alone.case.desc);
    assert_eq!(whole.case.quote, alone.case.quote);
    assert_eq!(whole.case.collateral, alone.case.collateral);
}
