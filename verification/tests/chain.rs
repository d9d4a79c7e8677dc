use typemap_core::{Contains, ContainsMut, Ty, TyEnd, TypeMapGet, TypeMapSet};

type Test = Ty<u64, Ty<u32, Ty<u16, Ty<u8, TyEnd>>>>;

fn sample() -> Test {
    Ty::<u64, _>::new(
        4u64.into(),
        Ty::<u32, _>::new(
            3u32.into(),
            Ty::<u16, _>::new(2u16.into(), Ty::<u8, _>::new(1u8.into(), TyEnd)),
        ),
    )
}

#[test]
fn test_get() {
    let mut test: Test = sample();

    assert_eq!(test.get::<u8>(), &1u8);
    assert_eq!(test.get::<u16>(), &2u16);
    assert_eq!(test.get::<u32>(), &3u32);
    assert_eq!(test.get::<u64>(), &4u64);
    assert_eq!(test.try_get::<u128>(), None);

    let test_ref: Ty<u128, Ty<u16, &mut Test>> =
        Ty::<u128, _>::new(5u128.into(), Ty::<u16, _>::new(16u16.into(), &mut test));
    assert_eq!(test_ref.get::<u8>(), &1u8);
    assert_eq!(test_ref.get::<u16>(), &16u16);
    assert_eq!(test_ref.get::<u128>(), &5u128);

    assert_eq!(test.get::<u16>(), &2u16);

    let test_ref: Ty<u128, Ty<u16, &Test>> =
        Ty::<u128, _>::new(5u128.into(), Ty::<u16, _>::new(16u16.into(), &test));
    assert_eq!(test_ref.get::<u8>(), &1u8);
    assert_eq!(test_ref.get::<u16>(), &16u16);
    assert_eq!(test_ref.get::<u128>(), &5u128);

    assert_eq!(test.get::<u16>(), &2u16);

    let test: Ty<u128, Ty<u16, Test>> =
        Ty::<u128, _>::new(5u128.into(), Ty::<u16, _>::new(16u16.into(), test));
    assert_eq!(test.get::<u8>(), &1u8);
    assert_eq!(test.get::<u16>(), &16u16);
    assert_eq!(test.get::<u128>(), &5u128);

    let Ty {
        val: u128_val,
        rest: Ty {
            val: u16_val,
            rest: test,
        },
    } = test;

    assert_eq!(u128_val, 5u128);
    assert_eq!(u16_val, 16u16);
    assert_eq!(test.get::<u16>(), &2u16)
}

#[test]
fn test_set_get() {
    let mut test = Ty::<u32, _>::new(32u32.into(), Ty::<u64, _>::new(64u64.into(), TyEnd));
    assert_eq!(test.get::<u32>(), &32);
    assert_eq!(test.get::<u64>(), &64);

    test.set(1u32);
    test.set(2u64);
    assert_eq!(test.get::<u32>(), &1);
    assert_eq!(test.get::<u64>(), &2);
}

#[test]
fn new_keeps_value_and_rest() {
    let node = Ty::new(7u8, Ty::new("seven", TyEnd));
    assert_eq!(node.val, 7u8);
    assert_eq!(node.rest.val, "seven");
    assert_eq!(node.rest.rest, TyEnd);
}

#[test]
fn end_holds_nothing() {
    let mut end = TyEnd;
    assert_eq!(end.try_get::<u8>(), None);
    assert_eq!(end.try_get::<TyEnd>(), None);
    assert!(!end.try_set(1u8));
    assert_eq!(end, TyEnd);
}

#[test]
fn each_type_finds_its_own_value() {
    let chain = Ty::new(1u8, Ty::new(-2i8, Ty::new("three", Ty::new(4.5f64, Ty::new('5', TyEnd)))));
    assert_eq!(chain.try_get::<u8>(), Some(&1u8));
    assert_eq!(chain.try_get::<i8>(), Some(&-2i8));
    assert_eq!(chain.try_get::<&str>(), Some(&"three"));
    assert_eq!(chain.try_get::<f64>(), Some(&4.5f64));
    assert_eq!(chain.try_get::<char>(), Some(&'5'));
}

#[test]
fn absent_type_is_not_found() {
    let chain = sample();
    assert_eq!(chain.try_get::<u128>(), None);
    assert_eq!(chain.try_get::<i64>(), None);
    assert_eq!(chain.try_get::<usize>(), None);
    assert_eq!(chain.try_get::<String>(), None);
    assert_eq!(chain.try_get::<&u64>(), None);
    assert_eq!(chain.try_get::<Box<u64>>(), None);
    assert_eq!(chain.try_get::<Option<u64>>(), None);
}

#[test]
fn newest_value_of_a_type_wins() {
    let chain = Ty::new(10u16, Ty::new(3u32, Ty::new(20u16, TyEnd)));
    assert_eq!(chain.get::<u16>(), &10u16);
    assert_eq!(chain.rest.get::<u16>(), &20u16);
    assert_eq!(chain.get::<u32>(), &3u32);
}

#[test]
fn shadowed_value_is_kept_underneath() {
    let under = Ty::new(String::from("Hello!"), TyEnd);
    {
        let over = Ty::new(String::from("Go away."), &under);
        assert_eq!(over.get::<String>(), "Go away.");
        assert_eq!(over.rest.get::<String>(), "Hello!");
    }
    assert_eq!(under.get::<String>(), "Hello!");
}

#[test]
fn set_on_absent_type_fails_and_changes_nothing() {
    let mut chain = sample();
    assert!(!chain.try_set(7u128));
    assert!(!chain.try_set(7i32));
    assert_eq!(chain, sample());
}

#[test]
fn set_changes_one_value_only() {
    let mut chain = sample();
    assert!(chain.try_set(99u16));
    assert_eq!(
        chain,
        Ty::new(4u64, Ty::new(3u32, Ty::new(99u16, Ty::new(1u8, TyEnd))))
    );
    assert_eq!(chain.get::<u16>(), &99u16);
    assert_eq!(chain.get::<u8>(), &1u8);
    assert_eq!(chain.get::<u32>(), &3u32);
    assert_eq!(chain.get::<u64>(), &4u64);
}

#[test]
fn set_reaches_the_newest_of_two() {
    let mut chain = Ty::new(10u16, Ty::new(3u32, Ty::new(20u16, TyEnd)));
    chain.set(11u16);
    assert_eq!(chain, Ty::new(11u16, Ty::new(3u32, Ty::new(20u16, TyEnd))));
}

#[test]
fn set_then_get_reads_what_was_written() {
    let mut chain = Ty::new(String::from("a"), Ty::new(vec![1u8], TyEnd));
    chain.set(String::from("b"));
    assert_eq!(chain.get::<String>(), "b");
    chain.set(vec![2u8, 3u8]);
    assert_eq!(chain.get::<Vec<u8>>(), &vec![2u8, 3u8]);
    assert_eq!(chain.get::<String>(), "b");
}

#[test]
fn extension_over_exclusive_borrow() {
    let mut test = sample();
    {
        let ext = Ty::new(5u128, &mut test);
        assert_eq!(ext.get::<u128>(), &5u128);
        assert_eq!(ext.get::<u8>(), &1u8);
    }
    test.set::<u16>(99);
    assert_eq!(test.get::<u16>(), &99u16);
    assert_eq!(test, Ty::new(4u64, Ty::new(3u32, Ty::new(99u16, Ty::new(1u8, TyEnd)))));
}

#[test]
fn set_through_exclusive_borrow_is_seen_afterwards() {
    let mut test = sample();
    {
        let mut ext = Ty::new(5u128, &mut test);
        assert!(ext.try_set(6u128));
        assert!(ext.try_set(30u32));
        ext.set(10u8);
        assert!(!ext.try_set(1i8));
        assert_eq!(ext.get::<u128>(), &6u128);
        assert_eq!(ext.get::<u32>(), &30u32);
    }
    assert_eq!(test, Ty::new(4u64, Ty::new(30u32, Ty::new(2u16, Ty::new(10u8, TyEnd)))));
    assert_eq!(test.try_get::<u128>(), None);
}

#[test]
fn set_through_a_bare_exclusive_borrow() {
    let mut test = sample();
    {
        let mut borrowed = &mut test;
        assert!(TypeMapSet::try_set(&mut borrowed, 40u64));
        assert_eq!(TypeMapGet::try_get::<u64>(&borrowed), Some(&40u64));
    }
    assert_eq!(test.get::<u64>(), &40u64);
}

#[test]
fn shared_borrow_refuses_every_set() {
    let test = sample();
    {
        let mut borrowed = &test;
        assert!(!TypeMapSet::try_set(&mut borrowed, 40u64));
        assert!(!TypeMapSet::try_set(&mut borrowed, 40u128));
        assert_eq!(TypeMapGet::try_get::<u64>(&borrowed), Some(&4u64));
    }
    {
        let mut ext = Ty::new(5u128, Ty::new(16u16, &test));
        assert!(ext.try_set(6u128));
        assert!(ext.try_set(17u16));
        assert!(!ext.try_set(20u32));
        assert!(!ext.try_set(20u8));
        assert_eq!(ext.get::<u128>(), &6u128);
        assert_eq!(ext.get::<u16>(), &17u16);
        assert_eq!(ext.get::<u32>(), &3u32);
    }
    assert_eq!(test, sample());
}

#[test]
fn value_behind_a_shared_borrow_is_out_of_reach_of_set() {
    let under = Ty::new(1u8, TyEnd);
    let mut over = Ty::new(2u16, &under);
    assert!(!over.try_set(3u8));
    assert_eq!(over.get::<u8>(), &1u8);
}

#[test]
fn derived_traits_compare_and_copy() {
    let a = Ty::new(1u8, Ty::new(2u16, TyEnd));
    let b = a;
    assert_eq!(a, b);
    assert_ne!(a, Ty::new(1u8, Ty::new(3u16, TyEnd)));
    let d: Ty<u8, Ty<u16, TyEnd>> = Default::default();
    assert_eq!(d, Ty::new(0u8, Ty::new(0u16, TyEnd)));
    assert_eq!(format!("{:?}", TyEnd), "TyEnd");
}

fn reads_u32<Opts: Contains<u32>>(opts: &Opts) -> u32 {
    *opts.get::<u32>()
}

fn writes_u32<Opts: ContainsMut<u32>>(opts: &mut Opts, value: u32) {
    opts.set::<u32>(value);
}

#[test]
fn bounds_on_contains_let_get_and_set_be_called() {
    let mut map = Ty::new(42u32, TyEnd);
    assert_eq!(reads_u32(&map), 42);
    assert_eq!(reads_u32(&&map), 42);
    writes_u32(&mut map, 1337);
    assert_eq!(reads_u32(&map), 1337);
    {
        let mut borrowed = &mut map;
        writes_u32(&mut borrowed, 7);
        assert_eq!(reads_u32(&borrowed), 7);
    }
    assert_eq!(map.val, 7);
    let chain = Ty::new("Hello, world!", Ty::new(45u32, Ty::new(34u128, TyEnd)));
    assert_eq!(reads_u32(&chain), 45);
    assert_eq!(chain.get::<&str>(), &"Hello, world!");
}

#[test]
fn try_get_and_try_set_on_a_single_node() {
    let mut map = Ty::new(13u32, TyEnd);
    assert_eq!(map.try_get::<u32>(), Some(&13u32));
    assert_eq!(map.try_get::<u128>(), None);
    assert!(map.try_set(42u32));
    assert_eq!(map.get::<u32>(), &42);
    assert!(!map.try_set(1u128));
    assert_eq!(map, Ty::new(42u32, TyEnd));
}

#[test]
fn references_and_boxes_are_types_of_their_own() {
    let mut chain = Ty::new(Box::new(1u8), Ty::new(2u8, Ty::new(Some(3u8), TyEnd)));
    assert_eq!(chain.try_get::<u8>(), Some(&2u8));
    assert_eq!(chain.try_get::<Box<u8>>(), Some(&Box::new(1u8)));
    assert_eq!(chain.try_get::<Option<u8>>(), Some(&Some(3u8)));
    assert!(chain.try_set(Box::new(4u8)));
    assert!(chain.try_set(None::<u8>));
    assert!(!chain.try_set(None::<u16>));
    assert_eq!(chain, Ty::new(Box::new(4u8), Ty::new(2u8, Ty::new(None, TyEnd))));
}
