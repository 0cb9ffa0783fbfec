use dcap_verify::{ErrorCategory, TcbPolicy, TcbStanding};

fn sw() -> TcbStanding {
    TcbStanding::SWHardeningNeeded {
        advisory_ids: vec!["INTEL-SA-00615".into()],
    }
}

fn config_sw() -> TcbStanding {
    TcbStanding::ConfigurationAndSWHardeningNeeded {
        advisory_ids: vec!["INTEL-SA-00289".into(), "INTEL-SA-00615".into()],
    }
}

const STRICT: TcbPolicy = TcbPolicy {
    min_tcb_evaluation_data_number: 0,
    accept_sw_hardening_needed: false,
    accept_configuration_and_sw_hardening_needed: false,
};

const PERMISSIVE: TcbPolicy = TcbPolicy {
    min_tcb_evaluation_data_number: 0,
    accept_sw_hardening_needed: true,
    accept_configuration_and_sw_hardening_needed: true,
};

#[test]
fn up_to_date_is_always_accepted() {
    assert!(STRICT.check(&TcbStanding::UpToDate).is_ok());
    assert!(PERMISSIVE.check(&TcbStanding::UpToDate).is_ok());
}

#[test]
fn sw_hardening_needed_follows_its_flag_only() {
    assert!(PERMISSIVE.check(&sw()).is_ok());
    let cross = TcbPolicy {
        accept_sw_hardening_needed: false,
        ..PERMISSIVE
    };
    let err = cross.check(&sw()).unwrap_err();
    assert_eq!(err.category, ErrorCategory::TcbStandingRejected);
    assert!(err.detail.contains("sw-hardening-needed"));
    assert!(err.detail.contains("INTEL-SA-00615"));
    // The other flag must not bleed over.
    let other = TcbPolicy {
        accept_configuration_and_sw_hardening_needed: false,
        ..PERMISSIVE
    };
    assert!(other.check(&sw()).is_ok());
}

#[test]
fn configuration_and_sw_hardening_needed_follows_its_flag_only() {
    assert!(PERMISSIVE.check(&config_sw()).is_ok());
    let cross = TcbPolicy {
        accept_configuration_and_sw_hardening_needed: false,
        ..PERMISSIVE
    };
    let err = cross.check(&config_sw()).unwrap_err();
    assert_eq!(err.category, ErrorCategory::TcbStandingRejected);
    assert!(err.detail.contains("configuration-and-sw-hardening-needed"));
    assert!(err.detail.contains("INTEL-SA-00289"));
    let other = TcbPolicy {
        accept_sw_hardening_needed: false,
        ..PERMISSIVE
    };
    assert!(other.check(&config_sw()).is_ok());
}

#[test]
fn a_policy_rejection_names_the_standing_and_its_advisories() {
    let err = STRICT.check(&config_sw()).unwrap_err();
    assert_eq!(
        err.detail,
        "caller policy rejects TCB standing configuration-and-sw-hardening-needed (advisories: [\"INTEL-SA-00289\", \"INTEL-SA-00615\"])"
    );
}
