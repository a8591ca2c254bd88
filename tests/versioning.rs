use rtk::versioning::{
    ck_lua, desired_version_for_script, parse_version, PreflightVersioner, RtkRustcDriverVersion,
    VersionParseError, VersionRequest, VersioningError,
};

fn release(s: &str) -> VersionRequest {
    VersionRequest::Release(s.to_string())
}

fn debug(s: &str) -> VersionRequest {
    VersionRequest::Debug(s.to_string())
}

#[test]
fn test_desired_version_for_script() {
    // rtk.version("1.2.3"); rtk.dbg_version("1.2.4");
    let script = vec![release("1.2.3"), debug("1.2.4")];

    let (release, debug) = desired_version_for_script(&script).unwrap();
    assert_eq!(
        release,
        RtkRustcDriverVersion::CratesIo {
            major: 1,
            minor: 2,
            patch: 3
        }
    );
    assert_eq!(
        debug,
        Some(RtkRustcDriverVersion::CratesIo {
            major: 1,
            minor: 2,
            patch: 4
        })
    );
}

#[test]
fn test_desired_version_for_script_latest() {
    // rtk.version("latest");
    let script = vec![release("latest")];

    let (release, debug) = desired_version_for_script(&script).unwrap();
    assert_eq!(release, RtkRustcDriverVersion::CratesIoLatest);
    assert!(debug.is_none());
}

#[test]
fn test_desired_version_for_script_local() {
    // rtk.version("local:/path/to/driver");
    let script = vec![release("local:/path/to/driver")];

    let (release, _debug) = desired_version_for_script(&script).unwrap();
    assert_eq!(
        release,
        RtkRustcDriverVersion::Local {
            path: "/path/to/driver".to_string()
        }
    )
}

#[test]
fn test_parse_invalid_version() {
    // rtk.version("invalid");
    let script = vec![release("invalid")];

    let result = desired_version_for_script(&script);
    assert!(result.is_err());
}

#[test]
fn version_must_be_specified_once() {
    // rtk.version("1.2.3"); rtk.version("1.2.4");
    let script = vec![release("1.2.3"), release("1.2.4")];

    let result = desired_version_for_script(&script);
    assert!(result.is_err());
    assert_eq!(
        result.unwrap_err().message(),
        "Lua script attempted to set the desired version multiple times, the desired version should be specified first and once"
    );
}

#[test]
fn must_specify_a_version() {
    let script: Vec<VersionRequest> = vec![];

    let result = desired_version_for_script(&script);
    assert!(result.is_err());
    assert_eq!(
        result.unwrap_err().message(),
        "No version was set in the Lua script"
    );
}

#[test]
fn same_version_twice_is_still_a_double_set() {
    let script = vec![release("1.2.3"), release("1.2.3")];
    assert_eq!(
        desired_version_for_script(&script).unwrap_err(),
        VersioningError::DoubleSet
    );
    assert_eq!(ck_lua(&script), Err(VersioningError::DoubleSet));
}

#[test]
fn debug_version_twice_is_a_double_set() {
    let script = vec![release("1.0.0"), debug("1.0.1"), debug("1.0.2")];
    assert_eq!(
        desired_version_for_script(&script).unwrap_err(),
        VersioningError::DoubleSet
    );
}

#[test]
fn only_a_debug_version_is_no_version() {
    let script = vec![debug("1.0.1")];
    assert_eq!(
        desired_version_for_script(&script).unwrap_err(),
        VersioningError::NoVersion
    );
    assert_eq!(ck_lua(&script), Ok(()));
}

#[test]
fn unreadable_request_changes_nothing() {
    let script = vec![release("x.y.z"), release("2.0.0")];
    let (release, debug) = desired_version_for_script(&script).unwrap();
    assert_eq!(
        release,
        RtkRustcDriverVersion::CratesIo {
            major: 2,
            minor: 0,
            patch: 0
        }
    );
    assert!(debug.is_none());
}

#[test]
fn preflight_reports_a_refused_text() {
    let mut p = PreflightVersioner::new();
    let r = p.intake_request(&release("1.2"));
    assert_eq!(
        r,
        Err(VersionParseError::Format {
            text: "1.2".to_string()
        })
    );
    assert!(!p.double_set_attempted());
}

#[test]
fn version_grammar() {
    assert_eq!(
        parse_version("1.2.3"),
        Ok(RtkRustcDriverVersion::CratesIo {
            major: 1,
            minor: 2,
            patch: 3
        })
    );
    assert_eq!(parse_version("latest"), Ok(RtkRustcDriverVersion::CratesIoLatest));
    assert_eq!(
        parse_version("local:/x/y"),
        Ok(RtkRustcDriverVersion::Local {
            path: "/x/y".to_string()
        })
    );
    assert_eq!(
        parse_version("1.2"),
        Err(VersionParseError::Format {
            text: "1.2".to_string()
        })
    );
    assert_eq!(
        parse_version("x.y.z"),
        Err(VersionParseError::Major {
            segment: "x".to_string()
        })
    );
    assert_eq!(
        parse_version("1.y.z"),
        Err(VersionParseError::Minor {
            segment: "y".to_string()
        })
    );
    assert_eq!(
        parse_version("1.2.z"),
        Err(VersionParseError::Patch {
            segment: "z".to_string()
        })
    );
    assert_eq!(
        parse_version("1.2.4294967296"),
        Err(VersionParseError::Patch {
            segment: "4294967296".to_string()
        })
    );
    assert_eq!(
        parse_version("+1.0.4294967295"),
        Ok(RtkRustcDriverVersion::CratesIo {
            major: 1,
            minor: 0,
            patch: 4294967295
        })
    );
    assert_eq!(
        parse_version("local:local:/a"),
        Ok(RtkRustcDriverVersion::Local {
            path: "local:/a".to_string()
        })
    );
}

#[test]
fn version_error_messages() {
    assert_eq!(
        parse_version("1.2").unwrap_err().message(),
        "Invalid version format: 1.2. Expected format: major.minor.patch"
    );
    assert_eq!(
        parse_version("1.x.3").unwrap_err().message(),
        "Invalid minor version: x"
    );
}

#[test]
fn version_text_round_trips() {
    let v = RtkRustcDriverVersion::CratesIo {
        major: 10,
        minor: 0,
        patch: 42,
    };
    assert_eq!(v.to_version_string(), "10.0.42");
    assert_eq!(parse_version(&v.to_version_string()), Ok(v));
    let l = RtkRustcDriverVersion::Local {
        path: "/p".to_string(),
    };
    assert_eq!(l.to_version_string(), "local:/p");
    assert_eq!(RtkRustcDriverVersion::CratesIoLatest.to_version_string(), "latest");
    let nested = RtkRustcDriverVersion::Local {
        path: "local:/a".to_string(),
    };
    assert_eq!(nested.to_version_string(), "local:local:/a");
    assert_eq!(parse_version(&nested.to_version_string()), Ok(nested));
}
