use redscript_vm::index_map::IndexMap;
use redscript_vm::pool::{Function, FunctionFlags, Location, Offset, Pool, PoolIndex, Visibility};
use redscript_vm::shell::{
    assertion_failure, equality_failure, inequality_failure, is_test, pretty_test_name, report,
    Command, ReportLine, ShellConfig,
};
use redscript_vm::text::{bool_text, signed_text, unsigned_text};
use redscript_vm::value::VMIndex;

#[test]
fn commands_are_one_or_two_words() {
    assert_eq!(Command::parse("runMain"), Ok(Command::RunMain));
    assert_eq!(Command::parse("help"), Ok(Command::Help));
    assert_eq!(Command::parse("exit"), Ok(Command::Exit));
    assert_eq!(Command::parse("run main;"), Ok(Command::Run("main;")));
    assert_eq!(Command::parse("test MySuite"), Ok(Command::Test("MySuite")));
    assert_eq!(Command::parse("run "), Ok(Command::Run("")));
    assert_eq!(Command::parse("run grüße"), Ok(Command::Run("grüße")));
}

#[test]
fn anything_else_is_no_command() {
    let message = "Invalid command, enter 'help' for more information";
    for input in [
        "",
        " ",
        "run",
        "test",
        "runMain ",
        " help",
        "help me",
        "exit now please",
        "run a b",
        "run  main",
        "Run main",
        "walk main",
        "RUNMAIN",
    ] {
        assert_eq!(Command::parse(input), Err(message), "{:?}", input);
    }
}

#[test]
fn directories_default_to_src_and_test() {
    assert_eq!(ShellConfig::default_source_dir(), "src");
    assert_eq!(ShellConfig::default_test_dir(), "test");
    let config = ShellConfig::new("bundle.redscripts".to_owned(), None, None);
    assert_eq!(config.bundle_path, "bundle.redscripts");
    assert_eq!(config.source_dir, "src");
    assert_eq!(config.test_dir, "test");
    let config =
        ShellConfig::new("b".to_owned(), Some("scripts".to_owned()), Some("checks".to_owned()));
    assert_eq!(config.source_dir, "scripts");
    assert_eq!(config.test_dir, "checks");
}

#[test]
fn test_names_are_shown_in_small_letters_with_spaces() {
    assert_eq!(pretty_test_name("TestFoo"), "test foo");
    assert_eq!(pretty_test_name("TestFoo;"), "test foo");
    assert_eq!(pretty_test_name("TestAddsTwoNumbers;Int32Int32"), "test adds two numbers");
    assert_eq!(pretty_test_name("test"), "test");
    assert_eq!(pretty_test_name("testABC"), "test a b c");
    assert_eq!(pretty_test_name("Z"), "z");
    assert_eq!(pretty_test_name(""), "");
    assert_eq!(pretty_test_name(";Foo"), "");
    assert_eq!(pretty_test_name("Test_1Ünicode"), "test_1Ünicode");
}

#[test]
fn a_test_is_reported_with_its_errors() {
    assert_eq!(
        report("TestBar;", &vec![]),
        vec![ReportLine { passed: true, text: "+ test bar".to_owned() }]
    );
    assert_eq!(
        report("TestFoo;", &vec!["Assertion failed".to_owned(), "1 is not equal to 2".to_owned()]),
        vec![
            ReportLine { passed: false, text: "- test foo: Assertion failed".to_owned() },
            ReportLine { passed: false, text: "- test foo: 1 is not equal to 2".to_owned() },
        ]
    );
}

#[test]
fn a_failed_assertion_is_put_into_words() {
    assert_eq!(equality_failure("1", "2"), "1 is not equal to 2");
    assert_eq!(inequality_failure("a", "a"), "a is equal to a");
    assert_eq!(equality_failure("", ""), " is not equal to ");
    assert_eq!(assertion_failure(), "Assertion failed");
}

#[test]
fn tests_are_public_and_take_nothing() {
    let function = |visibility, parameters| Function {
        visibility,
        parameters,
        locals: vec![],
        code: vec![],
        flags: FunctionFlags { is_native: false, is_final: false, is_static: false },
    };
    assert!(is_test(&function(Visibility::Public, vec![])));
    assert!(!is_test(&function(Visibility::Private, vec![])));
    assert!(!is_test(&function(Visibility::Protected, vec![])));
    assert!(!is_test(&function(Visibility::Public, vec![PoolIndex(1)])));
}

#[test]
fn whole_numbers_are_written_in_decimal() {
    for n in [0u64, 1, 9, 10, 11, 99, 100, 101, 12345678901234567890, u64::MAX] {
        assert_eq!(unsigned_text(n), n.to_string());
    }
    for n in [0i64, 1, -1, 9, -9, 10, -10, 1000, -1000, i64::MAX, i64::MIN, i64::MIN + 1] {
        assert_eq!(signed_text(n), n.to_string());
    }
    assert_eq!(bool_text(true), "true");
    assert_eq!(bool_text(false), "false");
}

#[test]
fn a_map_keeps_the_first_value_of_a_key() {
    let mut map: IndexMap<u32> = IndexMap::new();
    assert_eq!(map.len(), 0);
    assert!(map.get(PoolIndex(1)).is_none());
    assert!(map.put(PoolIndex(1), 10));
    assert!(map.put(PoolIndex(2), 20));
    assert!(!map.put(PoolIndex(1), 11));
    assert_eq!(map.len(), 2);
    assert_eq!(map.get(PoolIndex(1)), Some(&10));
    assert_eq!(map.get(PoolIndex(2)), Some(&20));
    assert_eq!(map.get(PoolIndex(3)), None);
    assert!(map.contains(PoolIndex(2)));
    assert!(!map.contains(PoolIndex(0)));
}

#[test]
fn a_map_replaces_a_value_on_request() {
    let mut map: IndexMap<u32> = IndexMap::with_capacity(100);
    map.put(PoolIndex(5), 1);
    assert!(map.set(PoolIndex(5), 2));
    assert!(!map.set(PoolIndex(6), 3));
    assert_eq!(map.get(PoolIndex(5)), Some(&2));
    assert_eq!(map.get(PoolIndex(6)), None);
    *map.get_mut(PoolIndex(5)).unwrap() += 40;
    assert_eq!(map.get(PoolIndex(5)), Some(&42));
    assert!(map.get_mut(PoolIndex(6)).is_none());
    assert_eq!(map.len(), 1);
}

#[test]
fn a_map_remembers_the_order_of_its_keys() {
    let mut map: IndexMap<u32> = IndexMap::new();
    let keys = [900, 3, 77, 0, u32::MAX, 12];
    for (i, key) in keys.iter().enumerate() {
        map.put(PoolIndex(*key), i as u32);
    }
    for (i, key) in keys.iter().enumerate() {
        assert_eq!(map.key_at(i), PoolIndex(*key));
        assert_eq!(*map.value_at(i), i as u32);
    }
    let copy = map.copied();
    assert_eq!(copy.len(), keys.len());
    for (i, key) in keys.iter().enumerate() {
        assert_eq!(copy.key_at(i), PoolIndex(*key));
        assert_eq!(copy.get(PoolIndex(*key)), Some(&(i as u32)));
    }
}

#[test]
fn a_map_holds_many_keys() {
    let mut map: IndexMap<u64> = IndexMap::new();
    for k in 0..5000u32 {
        assert!(map.put(PoolIndex(k * 7), k as u64 * 3));
    }
    assert_eq!(map.len(), 5000);
    for k in 0..5000u32 {
        assert_eq!(map.get(PoolIndex(k * 7)), Some(&(k as u64 * 3)));
        assert_eq!(map.get(PoolIndex(k * 7 + 1)), None);
    }
}

#[test]
fn names_are_interned() {
    let mut pool = Pool::new();
    assert_eq!(pool.add_name("a"), Some(PoolIndex(0)));
    assert_eq!(pool.add_name("b"), Some(PoolIndex(1)));
    assert_eq!(pool.add_name("a"), Some(PoolIndex(0)));
    assert_eq!(pool.names.len(), 2);
    assert_eq!(pool.name(PoolIndex(1)).map(|s| s.as_str()), Some("b"));
    assert_eq!(pool.name(PoolIndex(2)), None);
    assert_eq!(pool.string(PoolIndex(0)), None);
    assert_eq!(pool.definition_count(), 0);
    assert!(pool.definition(PoolIndex(0)).is_none());
}

#[test]
fn positions_convert_and_offsets_add_up() {
    assert!(PoolIndex::undefined().is_undefined());
    assert!(PoolIndex::new(0).is_undefined());
    assert!(!PoolIndex::new(1).is_undefined());
    assert_eq!(VMIndex(7).to_pool(), PoolIndex(7));
    assert_eq!(VMIndex::from(PoolIndex(9)), VMIndex(9));
    assert_eq!(VMIndex::zero(), VMIndex(0));
    let at = Location::new(100);
    assert_eq!(Offset::new(20).absolute(at), Some(Location::new(120)));
    assert_eq!(Offset::new(-100).absolute(at), Some(Location::new(0)));
    assert_eq!(Offset::new(-101).absolute(at), None);
    assert_eq!(Offset::new(i16::MAX).absolute(Location::new(u16::MAX)), None);
    assert_eq!(Offset::new(5).absolute(Location::new(u16::MAX - 5)), Some(Location::new(u16::MAX)));
}
