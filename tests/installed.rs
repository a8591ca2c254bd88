use rtk::installed::{
    currently_installed_rtk_rustc_driver_version, install_rtk_rustc_driver_args, needs_install,
    InstalledVersionError,
};
use rtk::versioning::RtkRustcDriverVersion;

#[test]
fn test_parse_cargo_installed_version_local() {
    let version = currently_installed_rtk_rustc_driver_version(
        r#"
rtk-rustc-driver v0.1.0 (/Developer/rtk/crates/rtk-rustc-driver):
"#,
    )
    .unwrap();

    assert!(version.is_some());
    assert_eq!(
        version.unwrap(),
        RtkRustcDriverVersion::Local {
            path: "/Developer/rtk/crates/rtk-rustc-driver".to_string()
        }
    );
}

#[test]
fn test_parse_cargo_installed_version_crates_io() {
    let version = currently_installed_rtk_rustc_driver_version(
        r#"
rtk-rustc-driver v0.1.0
"#,
    )
    .unwrap();

    assert!(version.is_some());
    assert_eq!(
        version.unwrap(),
        RtkRustcDriverVersion::CratesIo {
            major: 0,
            minor: 1,
            patch: 0
        }
    );
}

#[test]
fn test_parse_cargo_installed_version_empty() {
    let version = currently_installed_rtk_rustc_driver_version("").unwrap();
    assert!(version.is_none());
}

#[test]
fn installed_listing_among_other_packages() {
    let listing = "ripgrep v14.1.0:\r\n    rg\r\nrtk-rustc-driver v2.10.3\r\n    rtk-rustc-driver\r\n";
    assert_eq!(
        currently_installed_rtk_rustc_driver_version(listing),
        Ok(Some(RtkRustcDriverVersion::CratesIo {
            major: 2,
            minor: 10,
            patch: 3
        }))
    );
}

#[test]
fn installed_listing_errors() {
    assert_eq!(
        currently_installed_rtk_rustc_driver_version("rtk-rustc-driver\n"),
        Err(InstalledVersionError::MissingVersion)
    );
    assert_eq!(
        currently_installed_rtk_rustc_driver_version("rtk-rustc-driver 0.1.0\n"),
        Err(InstalledVersionError::Major)
    );
    assert_eq!(
        currently_installed_rtk_rustc_driver_version("rtk-rustc-driver v0\n"),
        Err(InstalledVersionError::Minor)
    );
    assert_eq!(
        currently_installed_rtk_rustc_driver_version("rtk-rustc-driver v0.1.x\n"),
        Err(InstalledVersionError::Patch)
    );
    assert_eq!(
        currently_installed_rtk_rustc_driver_version("rtk-rustc-driver v0.1.0 (   ):\n"),
        Ok(None)
    );
    assert_eq!(
        InstalledVersionError::Major.message(),
        "failed to parse major version"
    );
}

#[test]
fn install_arguments() {
    let v = RtkRustcDriverVersion::CratesIo {
        major: 1,
        minor: 2,
        patch: 3,
    };
    assert_eq!(
        install_rtk_rustc_driver_args(&v),
        vec!["install", "rtk-rustc-driver@1.2.3", "--force", "--locked", "--no-track"]
    );
    assert_eq!(
        install_rtk_rustc_driver_args(&RtkRustcDriverVersion::CratesIoLatest),
        vec!["install", "rtk-rustc-driver", "--force", "--locked", "--no-track"]
    );
    assert_eq!(
        install_rtk_rustc_driver_args(&RtkRustcDriverVersion::Local {
            path: "/src/driver".to_string()
        }),
        vec!["install", "--path", "/src/driver", "--force", "--locked", "--no-track"]
    );
    assert!(!needs_install(&Some(v.clone()), &v));
    assert!(needs_install(&None, &v));
    assert!(needs_install(
        &Some(RtkRustcDriverVersion::CratesIoLatest),
        &v
    ));
}
