use state_sync::{
    CmdNewCharacter, CmdNewStage, Command, ObjID, Owner, StateBinder, StateData, StateError,
    StateLifecycle, StateOwner, StatePool, StateRecord, StateRef, TypeID, Vector3,
};

const CONTEXT: u64 = 1;

const TYPE_STAGE: TypeID = TypeID { value: 1 };

#[derive(Debug, Default, PartialEq)]
struct StateDataTest {
    num: u32,
    text: String,
}

impl StateDataTest {
    fn id() -> TypeID {
        TYPE_STAGE
    }
}

fn record(num: u32, text: &str) -> StateDataTest {
    StateDataTest {
        num,
        text: String::from(text),
    }
}

#[test]
fn test_macro_state_data() {
    let mut d = StateDataTest::default();
    d.num = 1000;
    d.text = String::from("...");
    let t = StateRecord::new(d);
    assert_eq!(StateDataTest::id(), TYPE_STAGE);
    assert_eq!(t.type_id(), TypeID::invalid());
    assert_eq!(t.obj_id(), ObjID::invalid());
    assert_eq!(t.lifecycle(), StateLifecycle::Unknown);
}

#[test]
fn test_macro_state_owner() {
    let mut binder: StateBinder<StateDataTest> = StateBinder::new(CONTEXT);
    {
        let owner = Owner::new(TYPE_STAGE, ObjID::default());
        assert!(owner.bind_state(&mut binder).is_err());

        let owner = Owner::new(TYPE_STAGE, ObjID::from(1234));
        let bound = owner.bind_state(&mut binder);
        assert!(bound.is_ok());
        assert_eq!(binder.refers_count(), 1);
        // the binder holds the bound owner; destroying it is this call
        assert!(binder.unregister(bound.unwrap()));
    }
    assert_eq!(binder.refers_count(), 0);
}

#[test]
fn test_state_all() {
    let mut sp = StatePool::new(1024);
    sp.make(TYPE_STAGE, ObjID::from(123), StateLifecycle::Updated, record(1, "one"))
        .unwrap();
    sp.make(TYPE_STAGE, ObjID::from(456), StateLifecycle::Updated, record(2, "two"))
        .unwrap();

    let mut binder = StateBinder::new(CONTEXT);
    let owner1 = Owner::new(TYPE_STAGE, ObjID::from(123)).bind_state(&mut binder).unwrap();
    let owner2 = Owner::new(TYPE_STAGE, ObjID::from(456)).bind_state(&mut binder).unwrap();
    let owner3 = Owner::new(TYPE_STAGE, ObjID::from(456)).bind_state(&mut binder).unwrap();
    let owner4 = Owner::new(TYPE_STAGE, ObjID::from(789)).bind_state(&mut binder).unwrap();

    binder.dispatch(sp);

    assert_eq!(binder.state(&owner1).unwrap().data.num, 1);
    assert_eq!(binder.state(&owner1).unwrap().data.text, String::from("one"));
    assert_eq!(binder.state(&owner2).unwrap().data.num, 2);
    assert_eq!(binder.state(&owner2).unwrap().data.text, String::from("two"));
    assert_eq!(binder.state(&owner3).unwrap().data.num, 2);
    assert_eq!(binder.state(&owner3).unwrap().data.text, String::from("two"));
    assert!(binder.state(&owner4).is_err());
}

#[test]
fn same_target_shares_one_record() {
    let mut sp = StatePool::new(4);
    sp.make(TYPE_STAGE, ObjID::from(456), StateLifecycle::Created, record(2, "two"))
        .unwrap();
    let mut binder = StateBinder::new(CONTEXT);
    let a = Owner::new(TYPE_STAGE, ObjID::from(456)).bind_state(&mut binder).unwrap();
    let b = Owner::new(TYPE_STAGE, ObjID::from(456)).bind_state(&mut binder).unwrap();
    binder.dispatch(sp);
    let ra = binder.state(&a).unwrap();
    let rb = binder.state(&b).unwrap();
    assert!(std::ptr::eq(ra, rb));
    assert_eq!(ra.data, rb.data);
    assert_eq!(ra.lifecycle(), StateLifecycle::Created);
}

#[test]
fn invalid_target_never_registers() {
    let mut binder: StateBinder<StateDataTest> = StateBinder::new(CONTEXT);
    let owner = Owner::new(TYPE_STAGE, ObjID::invalid());
    assert!(matches!(owner.bind_state(&mut binder), Err(StateError::InvalidTarget)));
    assert_eq!(binder.refers_count(), 0);
    assert!(matches!(
        binder.register(TYPE_STAGE, ObjID::from(0)),
        Err(StateError::InvalidTarget)
    ));
    assert_eq!(binder.refers_count(), 0);
}

#[test]
fn fresh_owner_has_no_state() {
    let mut binder: StateBinder<StateDataTest> = StateBinder::new(CONTEXT);
    let key = Owner::new(TYPE_STAGE, ObjID::from(3)).bind_state(&mut binder).unwrap();
    assert_eq!(binder.state(&key).err(), Some(StateError::NotFound));
    assert_eq!(binder.refer(&key).unwrap().target(), ObjID::from(3));
}

#[test]
fn absent_target_is_not_found() {
    let mut sp = StatePool::new(2);
    sp.make(TYPE_STAGE, ObjID::from(1), StateLifecycle::Updated, record(1, "one"))
        .unwrap();
    let mut binder = StateBinder::new(CONTEXT);
    let owner = Owner::new(TYPE_STAGE, ObjID::from(2)).bind_state(&mut binder).unwrap();
    binder.dispatch(sp);
    assert_eq!(binder.state(&owner).err(), Some(StateError::NotFound));
}

#[test]
fn other_kind_is_not_found() {
    let other = TypeID::from(2);
    let mut sp = StatePool::new(2);
    sp.make(other, ObjID::from(7), StateLifecycle::Updated, record(7, "seven"))
        .unwrap();
    let mut binder = StateBinder::new(CONTEXT);
    let stage = Owner::new(TYPE_STAGE, ObjID::from(7)).bind_state(&mut binder).unwrap();
    let kind = Owner::new(other, ObjID::from(7)).bind_state(&mut binder).unwrap();
    binder.dispatch(sp);
    assert_eq!(binder.state(&stage).err(), Some(StateError::NotFound));
    assert_eq!(binder.state(&kind).unwrap().data.num, 7);
}

#[test]
fn registry_count_follows_destruction() {
    let mut binder: StateBinder<StateDataTest> = StateBinder::new(CONTEXT);
    let a = Owner::new(TYPE_STAGE, ObjID::from(1)).bind_state(&mut binder).unwrap();
    let b = Owner::new(TYPE_STAGE, ObjID::from(2)).bind_state(&mut binder).unwrap();
    let c = Owner::new(TYPE_STAGE, ObjID::from(3)).bind_state(&mut binder).unwrap();
    assert_eq!(binder.refers_count(), 3);
    assert!(binder.unregister(b));
    assert_eq!(binder.refers_count(), 2);
    assert!(binder.unregister(a));
    assert!(binder.unregister(c));
    assert_eq!(binder.refers_count(), 0);
}

#[test]
fn key_of_another_binder_names_nothing() {
    let mut sp = StatePool::new(1);
    sp.make(TYPE_STAGE, ObjID::from(1), StateLifecycle::Updated, record(1, "one"))
        .unwrap();
    let mut here = StateBinder::new(CONTEXT);
    let mut there: StateBinder<StateDataTest> = StateBinder::new(CONTEXT + 1);
    let _mine = Owner::new(TYPE_STAGE, ObjID::from(1)).bind_state(&mut here).unwrap();
    let theirs = Owner::new(TYPE_STAGE, ObjID::from(1)).bind_state(&mut there).unwrap();
    assert_eq!(theirs.context(), CONTEXT + 1);
    here.dispatch(sp);
    assert_eq!(here.state(&theirs).err(), Some(StateError::NotFound));
    assert!(here.refer(&theirs).is_none());
    assert!(!here.unregister(theirs));
    assert_eq!(here.refers_count(), 1);
}

#[test]
fn destroyed_slot_is_reused() {
    let mut binder: StateBinder<StateDataTest> = StateBinder::new(CONTEXT);
    let a = binder.register(TYPE_STAGE, ObjID::from(1)).unwrap();
    let b = binder.register(TYPE_STAGE, ObjID::from(2)).unwrap();
    assert_eq!(a.index(), 0);
    assert_eq!(b.index(), 1);
    assert!(binder.unregister(a));
    let c = binder.register(TYPE_STAGE, ObjID::from(3)).unwrap();
    assert_eq!(c.index(), 0);
    assert_eq!(binder.refer(&c).unwrap().target(), ObjID::from(3));
    assert_eq!(binder.refers_count(), 2);
}

#[test]
fn round_trip_through_owner() {
    let mut sp = StatePool::new(1);
    sp.make(TYPE_STAGE, ObjID::from(123), StateLifecycle::Updated, record(1, "one"))
        .unwrap();
    let mut binder = StateBinder::new(CONTEXT);
    let owner = Owner::new(TYPE_STAGE, ObjID::from(123)).bind_state(&mut binder).unwrap();
    binder.dispatch(sp);
    let r = binder.state(&owner).unwrap();
    assert_eq!(r.data, record(1, "one"));
    assert_eq!(r.lifecycle(), StateLifecycle::Updated);
    assert_eq!(r.obj_id(), ObjID::from(123));
    assert_eq!(r.type_id(), TYPE_STAGE);
}

#[test]
fn redispatch_drops_stale_state() {
    let mut first = StatePool::new(2);
    first
        .make(TYPE_STAGE, ObjID::from(123), StateLifecycle::Created, record(1, "one"))
        .unwrap();
    first
        .make(TYPE_STAGE, ObjID::from(456), StateLifecycle::Created, record(2, "two"))
        .unwrap();
    let mut binder = StateBinder::new(CONTEXT);
    let a = Owner::new(TYPE_STAGE, ObjID::from(123)).bind_state(&mut binder).unwrap();
    let b = Owner::new(TYPE_STAGE, ObjID::from(456)).bind_state(&mut binder).unwrap();
    binder.dispatch(first);
    assert_eq!(binder.state(&b).unwrap().data.num, 2);

    let mut second = StatePool::new(2);
    second
        .make(TYPE_STAGE, ObjID::from(123), StateLifecycle::Updated, record(10, "ten"))
        .unwrap();
    binder.dispatch(second);
    assert_eq!(binder.state(&a).unwrap().data.num, 10);
    assert_eq!(binder.state(&a).unwrap().lifecycle(), StateLifecycle::Updated);
    assert_eq!(binder.state(&b).err(), Some(StateError::NotFound));
}

#[test]
fn duplicate_key_is_rejected() {
    let mut sp = StatePool::new(4);
    sp.make(TYPE_STAGE, ObjID::from(9), StateLifecycle::Created, record(1, "one"))
        .unwrap();
    assert_eq!(
        sp.make(TYPE_STAGE, ObjID::from(9), StateLifecycle::Updated, record(2, "two")),
        Err(StateError::DuplicateKey)
    );
    assert_eq!(sp.len(), 1);
    assert_eq!(sp.get(TYPE_STAGE, ObjID::from(9)).unwrap().data.num, 1);
    assert!(sp
        .make(TypeID::from(2), ObjID::from(9), StateLifecycle::Updated, record(3, "three"))
        .is_ok());
}

#[test]
fn capacity_is_a_bound() {
    let mut sp = StatePool::new(1);
    assert_eq!(sp.capacity(), 1);
    sp.make(TYPE_STAGE, ObjID::from(1), StateLifecycle::Created, record(1, "one"))
        .unwrap();
    assert_eq!(
        sp.make(TYPE_STAGE, ObjID::from(2), StateLifecycle::Created, record(2, "two")),
        Err(StateError::CapacityExceeded)
    );
    assert_eq!(
        sp.make(TYPE_STAGE, ObjID::from(1), StateLifecycle::Created, record(1, "one")),
        Err(StateError::DuplicateKey)
    );
    assert_eq!(sp.len(), 1);
    let mut empty: StatePool<StateDataTest> = StatePool::new(0);
    assert_eq!(
        empty.make(TYPE_STAGE, ObjID::from(1), StateLifecycle::Created, record(1, "one")),
        Err(StateError::CapacityExceeded)
    );
}

#[test]
fn pool_lookup() {
    let mut sp = StatePool::new(3);
    sp.make(TYPE_STAGE, ObjID::from(1), StateLifecycle::Created, record(1, "one"))
        .unwrap();
    sp.make(TYPE_STAGE, ObjID::from(2), StateLifecycle::Destroyed, record(2, "two"))
        .unwrap();
    assert_eq!(sp.find(TYPE_STAGE, ObjID::from(2)), Some(1));
    assert_eq!(sp.find(TYPE_STAGE, ObjID::from(3)), None);
    assert_eq!(sp.get(TypeID::from(5), ObjID::from(1)).map(|r| r.data.num), None);
    assert_eq!(
        sp.get(TYPE_STAGE, ObjID::from(2)).unwrap().lifecycle(),
        StateLifecycle::Destroyed
    );
}

#[test]
fn handle_starts_unbound() {
    let h: StateRef<StateDataTest> = StateRef::new(ObjID::from(4));
    assert_eq!(h.target(), ObjID::from(4));
    assert_eq!(h.state().err(), Some(StateError::NotFound));
}

#[test]
fn ids_and_defaults() {
    assert!(!ObjID::default().is_valid());
    assert!(ObjID::from(1).is_valid());
    assert!(!TypeID::default().is_valid());
    assert_eq!(TypeID::from(3).value, 3);
    assert_eq!(StateLifecycle::default(), StateLifecycle::Unknown);
    let o = Owner::new(TYPE_STAGE, ObjID::from(8));
    assert_eq!(o.obj_id(), ObjID::from(8));
    assert_eq!(o.type_id(), TYPE_STAGE);
    let b: StateBinder<StateDataTest> = StateBinder::new(7);
    assert_eq!(b.context(), 7);
}

#[test]
fn commands_carry_their_fields() {
    let c = Command::NewCharacter(CmdNewCharacter {
        position: Vector3::new(1, -2, 3),
    });
    match c {
        Command::NewCharacter(n) => assert_eq!(n.position, Vector3 { x: 1, y: -2, z: 3 }),
        Command::NewStage(_) => panic!("wrong command"),
    }
    assert_eq!(Command::NewStage(CmdNewStage {}), Command::NewStage(CmdNewStage {}));
}

#[test]
fn address_names_context_and_slot() {
    let mut binder: StateBinder<StateDataTest> = StateBinder::new(9);
    let _a = binder.register(TYPE_STAGE, ObjID::from(1)).unwrap();
    let b = binder.register(TYPE_STAGE, ObjID::from(2)).unwrap();
    assert_eq!(state_sync::const_ptr(&b), (9, 1));
}
