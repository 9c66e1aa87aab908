use snapshot::version_map::{
    generate_foreign_type_fn, generate_type_version_fn, type_version_fn_for, VersionMap,
    VersionMapError, VersionSupport, BASE_VERSION,
};

#[test]
fn test_default_version() {
    let vm = VersionMap::new();
    assert_eq!(vm.latest_version(), 1);
}

#[test]
fn test_new_versions() {
    let mut vm = VersionMap::new();
    vm.new_version().new_version();
    assert_eq!(vm.latest_version(), 3);
}

#[test]
fn test_1_app_version() {
    let mut vm = VersionMap::new();
    vm.set_type_version("MyType", 1);
    vm.set_type_version("MySecondType", 2);
    vm.set_type_version("MyThirdType", 3);

    assert_eq!(vm.get_type_version(1, "MyType"), Ok(1));
    assert_eq!(vm.get_type_version(1, "MySecondType"), Ok(2));
    assert_eq!(vm.get_type_version(1, "MyThirdType"), Ok(3));
}

#[test]
fn test_100_app_version_full() {
    let mut vm = VersionMap::new();

    for i in 1..=100 {
        vm.set_type_version("MyType", i)
            .set_type_version("MySecondType", i + 1)
            .set_type_version("MyThirdType", i + 2)
            .new_version();
    }

    for i in 1..=100 {
        assert_eq!(vm.get_type_version(i, "MyType"), Ok(i));
        assert_eq!(vm.get_type_version(i, "MySecondType"), Ok(i + 1));
        assert_eq!(vm.get_type_version(i, "MyThirdType"), Ok(i + 2));
    }
}

#[test]
fn test_app_versions_with_gap() {
    let my_type_id = "MyType";
    let my_second_type_id = "MySecondType";
    let my_third_type_id = "MyThirdType";

    let mut vm = VersionMap::new();
    vm.set_type_version(my_type_id, 1);
    vm.set_type_version(my_second_type_id, 1);
    vm.set_type_version(my_third_type_id, 1);
    vm.new_version();
    vm.set_type_version(my_type_id, 2);
    vm.new_version();
    vm.set_type_version(my_third_type_id, 2);
    vm.new_version();
    vm.set_type_version(my_second_type_id, 2);

    assert_eq!(vm.get_type_version(1, my_type_id), Ok(1));
    assert_eq!(vm.get_type_version(1, my_second_type_id), Ok(1));
    assert_eq!(vm.get_type_version(1, my_third_type_id), Ok(1));

    assert_eq!(vm.get_type_version(2, my_type_id), Ok(2));
    assert_eq!(vm.get_type_version(2, my_second_type_id), Ok(1));
    assert_eq!(vm.get_type_version(2, my_third_type_id), Ok(1));

    assert_eq!(vm.get_type_version(3, my_type_id), Ok(2));
    assert_eq!(vm.get_type_version(3, my_second_type_id), Ok(1));
    assert_eq!(vm.get_type_version(3, my_third_type_id), Ok(2));

    assert_eq!(vm.get_type_version(4, my_type_id), Ok(2));
    assert_eq!(vm.get_type_version(4, my_second_type_id), Ok(2));
    assert_eq!(vm.get_type_version(4, my_third_type_id), Ok(2));
}

#[test]
fn test_unset_type() {
    let vm = VersionMap::new();
    assert_eq!(vm.get_type_version(1, "MyType"), Ok(BASE_VERSION));
}

#[test]
fn root_version_out_of_range_is_rejected() {
    let mut vm = VersionMap::new();
    vm.new_version().set_type_version("MyType", 4);
    assert_eq!(
        vm.get_type_version(0, "MyType"),
        Err(VersionMapError::UnknownRootVersion(0))
    );
    assert_eq!(
        vm.get_type_version(3, "MyType"),
        Err(VersionMapError::UnknownRootVersion(3))
    );
    assert_eq!(vm.get_type_version(2, "MyType"), Ok(4));
}

#[test]
fn type_history_gives_the_version_at_every_root_version() {
    let mut vm = VersionMap::new();
    vm.set_type_version("A", 2);
    vm.new_version();
    vm.new_version().set_type_version("A", 5).set_type_version("B", 3);
    vm.new_version();

    assert_eq!(vm.type_history("A"), vec![2, 2, 5, 5]);
    assert_eq!(vm.type_history("B"), vec![1, 1, 3, 3]);
    assert_eq!(vm.type_history("Unknown"), vec![1, 1, 1, 1]);
    for name in ["A", "B", "Unknown"] {
        let history = vm.type_history(name);
        assert_eq!(history.len(), vm.latest_version() as usize);
        for r in 1..=vm.latest_version() {
            assert_eq!(vm.get_type_version(r, name), Ok(history[r as usize - 1]));
        }
    }
}

#[test]
fn type_version_does_not_go_down_where_no_record_lowers_it() {
    let mut vm = VersionMap::new();
    vm.set_type_version("A", 1);
    vm.new_version().set_type_version("A", 2);
    vm.new_version();
    vm.new_version().set_type_version("A", 2);
    vm.new_version().set_type_version("A", 7);
    let mut last = 0;
    for r in 1..=vm.latest_version() {
        let version = vm.get_type_version(r, "A").unwrap();
        assert!(version >= last);
        last = version;
    }
    assert_eq!(last, 7);
}

#[test]
fn a_record_may_lower_the_type_version() {
    let mut vm = VersionMap::new();
    vm.set_type_version("A", 5);
    vm.new_version().set_type_version("A", 2);
    assert_eq!(vm.get_type_version(1, "A"), Ok(5));
    assert_eq!(vm.get_type_version(2, "A"), Ok(2));
}

#[test]
fn unset_type_has_the_base_version_at_every_root_version() {
    let mut vm = VersionMap::new();
    vm.set_type_version("A", 3);
    vm.new_version().new_version().set_type_version("B", 4);
    for r in 1..=3 {
        assert_eq!(vm.get_type_version(r, "UnknownType"), Ok(1));
    }
}

#[test]
fn a_later_record_at_the_same_root_version_replaces_the_earlier() {
    let mut vm = VersionMap::new();
    vm.set_type_version("A", 3).set_type_version("A", 9);
    assert_eq!(vm.get_type_version(1, "A"), Ok(9));
    assert_eq!(vm.type_names(), vec!["A"]);
}

#[test]
fn type_names_holds_every_name_once() {
    let mut vm = VersionMap::new();
    assert!(vm.type_names().is_empty());
    vm.set_type_version("A", 1).set_type_version("B", 1);
    vm.new_version().set_type_version("B", 2).set_type_version("C", 1);
    vm.new_version().set_type_version("A", 2);
    let mut names = vm.type_names();
    names.sort();
    assert_eq!(names, vec!["A", "B", "C"]);
}

#[test]
fn default_is_the_ledger_with_the_base_version() {
    let vm = VersionMap::default();
    assert_eq!(vm.latest_version(), 1);
    assert_eq!(vm.get_type_version(1, "A"), Ok(1));
}

#[test]
fn foreign_type_function_text() {
    let text = generate_foreign_type_fn(&["T"], &["A", "T"]);
    let expected = "
        pub(crate) fn is_foreign_type(_tid: std::any::TypeId) -> bool {
    {
                if _tid == std::any::TypeId::of::<A>() {
                    return true;
                }
            }
        #[cfg(test)]{
                if _tid == std::any::TypeId::of::<T>() {
                    return true;
                }
            }
        
            false
        }";
    assert_eq!(text, expected);

    let empty = generate_foreign_type_fn(&[], &[]);
    assert_eq!(
        empty,
        "
        pub(crate) fn is_foreign_type(_tid: std::any::TypeId) -> bool {
    
            false
        }"
    );
}

#[test]
fn type_version_function_text() {
    let mut vm = VersionMap::new();
    vm.new_version()
        .set_type_version("A2", 1)
        .new_version()
        .set_type_version("A2", 12);
    let text = generate_type_version_fn(&[], &vm);
    let expected = "
        pub(crate) fn type_version(_tid: std::any::TypeId, _app_version: u16) -> u16 {
    {
            if _tid == std::any::TypeId::of::<A2>() {
                let mapping = &[1, 1, 12];
                return mapping[(_app_version - 1) as usize];
            }
        }
         return 1; }";
    assert_eq!(text, expected);

    let marked = type_version_fn_for(&["A2"], &vec!["A2"], &vm);
    assert!(marked.contains("#[cfg(test)]{\n            if _tid == std::any::TypeId::of::<A2>()"));

    let none = generate_type_version_fn(&[], &VersionMap::new());
    assert_eq!(
        none,
        "
        pub(crate) fn type_version(_tid: std::any::TypeId, _app_version: u16) -> u16 {
     return 1; }"
    );
}

#[test]
fn type_version_function_text_names_every_type() {
    let mut vm = VersionMap::new();
    vm.set_type_version("tests::A", 2)
        .set_type_version("tests::Test", 2)
        .new_version()
        .set_type_version("tests::A", 3)
        .set_type_version("tests::Test", 65535);
    let text = generate_type_version_fn(&["tests::A", "tests::Test"], &vm);
    assert!(text.contains("let mapping = &[2, 3];"));
    assert!(text.contains("let mapping = &[2, 65535];"));
    assert_eq!(text.matches("#[cfg(test)]").count(), 2);
}

#[test]
fn version_support_agrees_with_the_ledger() {
    let mut vm = VersionMap::new();
    vm.set_type_version("A", 2);
    vm.new_version().set_type_version("B", 3);
    vm.new_version().set_type_version("A", 4);
    let support = VersionSupport::new(vm.clone(), vec!["B"]);
    assert_eq!(support.latest_version(), 3);
    for name in ["A", "B", "C"] {
        for r in 0..=4 {
            assert_eq!(support.type_version(name, r), vm.get_type_version(r, name));
        }
    }
    assert!(support.is_foreign_type("B"));
    assert!(!support.is_foreign_type("A"));
    // A type of the domain is addressed by the root version itself.
    assert_eq!(support.local_version("A", 3), Ok(3));
    assert_eq!(support.local_version("A", 9), Ok(9));
    // A foreign type is addressed by what the ledger gives.
    assert_eq!(support.local_version("B", 1), Ok(1));
    assert_eq!(support.local_version("B", 3), Ok(3));
    assert_eq!(
        support.local_version("B", 4),
        Err(VersionMapError::UnknownRootVersion(4))
    );
}
