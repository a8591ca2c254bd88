use rtk::location::{
    clone_query, def_path_to_rtk_location, fmt_rtk_location, DefPath, DefPathSegment, FatalError,
    HirId, HirIdItemIdExt, Location, MethodCallQuery,
};

fn loc(crate_name: &str, path: &[&str], ibn: Option<usize>) -> Location {
    Location {
        crate_name: crate_name.to_string(),
        path: path.iter().map(|s| s.to_string()).collect(),
        impl_block_number: ibn,
    }
}

#[test]
fn formats_locations() {
    assert_eq!(fmt_rtk_location(&loc("alloc", &["vec", "Vec"], None)), "alloc::vec::Vec");
    assert_eq!(
        fmt_rtk_location(&loc("mlua", &["table", "set"], Some(12))),
        "mlua::table::set{impl#12}"
    );
    assert_eq!(fmt_rtk_location(&loc("c", &[], None)), "c::");
}

#[test]
fn def_paths_become_locations() {
    let dp = DefPath {
        crate_name: "mlua".to_string(),
        segments: vec![
            DefPathSegment::Named("table".to_string()),
            DefPathSegment::Impl(3),
            DefPathSegment::Named("set".to_string()),
        ],
    };
    assert_eq!(
        def_path_to_rtk_location(&dp),
        Ok(loc("mlua", &["table", "set"], Some(3)))
    );
    let nested = DefPath {
        crate_name: "c".to_string(),
        segments: vec![DefPathSegment::Impl(0), DefPathSegment::Named("f".to_string()), DefPathSegment::Impl(1)],
    };
    assert_eq!(def_path_to_rtk_location(&nested), Err(FatalError::NestedImplBlocks));
}

#[test]
fn location_equality_is_exact() {
    let a = loc("axum", &["routing", "Router", "route"], None);
    let b = loc("axum", &["routing", "Router", "route"], Some(0));
    assert_ne!(a, b);
    assert_eq!(a, a.clone());
    let q = MethodCallQuery {
        parent: Some(Box::new(MethodCallQuery { parent: None, location: a.clone() })),
        location: b.clone(),
    };
    assert_eq!(clone_query(&q), q);
}

#[test]
fn item_ids() {
    let id = HirId { owner_krate: 0, owner_index: 417 };
    assert_eq!(id.rtk_item_id(), "0/417");
}
