use ecs::cell::{Typed, TypedCell};
use ecs::table::TypeKey;
use ecs::world::World;

struct FpsResource(pub u32);

#[derive(Debug, PartialEq)]
struct Location(pub f32, pub f32);

#[derive(Debug, PartialEq)]
struct Size(pub f32);

/// The payload every value of these tests is erased into.
enum Value {
    Fps(FpsResource),
    Location(Location),
    Size(Size),
}

impl Typed<Value> for FpsResource {
    fn spec_key() -> TypeKey {
        1
    }

    fn spec_erase(x: Self) -> Value {
        Value::Fps(x)
    }

    fn spec_recover(v: Value) -> Option<Self> {
        match v {
            Value::Fps(x) => Some(x),
            _ => None,
        }
    }

    fn lemma_recover_erase(_x: Self) {}

    fn key() -> TypeKey {
        1
    }

    fn erase(self) -> Value {
        Value::Fps(self)
    }

    fn recover_ref(v: &Value) -> Option<&Self> {
        match v {
            Value::Fps(x) => Some(x),
            _ => None,
        }
    }

    fn recover_mut(v: &mut Value) -> Option<&mut Self> {
        match v {
            Value::Fps(x) => Some(x),
            _ => None,
        }
    }
}

impl Typed<Value> for Location {
    fn spec_key() -> TypeKey {
        2
    }

    fn spec_erase(x: Self) -> Value {
        Value::Location(x)
    }

    fn spec_recover(v: Value) -> Option<Self> {
        match v {
            Value::Location(x) => Some(x),
            _ => None,
        }
    }

    fn lemma_recover_erase(_x: Self) {}

    fn key() -> TypeKey {
        2
    }

    fn erase(self) -> Value {
        Value::Location(self)
    }

    fn recover_ref(v: &Value) -> Option<&Self> {
        match v {
            Value::Location(x) => Some(x),
            _ => None,
        }
    }

    fn recover_mut(v: &mut Value) -> Option<&mut Self> {
        match v {
            Value::Location(x) => Some(x),
            _ => None,
        }
    }
}

impl Typed<Value> for Size {
    fn spec_key() -> TypeKey {
        3
    }

    fn spec_erase(x: Self) -> Value {
        Value::Size(x)
    }

    fn spec_recover(v: Value) -> Option<Self> {
        match v {
            Value::Size(x) => Some(x),
            _ => None,
        }
    }

    fn lemma_recover_erase(_x: Self) {}

    fn key() -> TypeKey {
        3
    }

    fn erase(self) -> Value {
        Value::Size(self)
    }

    fn recover_ref(v: &Value) -> Option<&Self> {
        match v {
            Value::Size(x) => Some(x),
            _ => None,
        }
    }

    fn recover_mut(v: &mut Value) -> Option<&mut Self> {
        match v {
            Value::Size(x) => Some(x),
            _ => None,
        }
    }
}

#[test]
pub fn add_resource() {
    let mut world: World<Value> = World::default();
    let fps = FpsResource(32);

    world.add_resource(fps);
    assert!(world.has_resource::<FpsResource>());
}

#[test]
pub fn get_resource_immutably() {
    let mut world: World<Value> = World::default();
    let fps = FpsResource(32);

    world.add_resource(fps);

    let resource = world.get_resource::<FpsResource>().unwrap();
    assert_eq!(resource.0, 32);
}

#[test]
pub fn get_resource_mut() {
    let mut world: World<Value> = World::default();
    let fps = FpsResource(32);

    world.add_resource(fps);

    {
        let resource = world.get_resource_mut::<FpsResource>().unwrap();
        resource.0 = 322;
    }

    let changed_resource = world.get_resource::<FpsResource>().unwrap();
    assert_eq!(changed_resource.0, 322);
}

#[test]
pub fn remove_resource() {
    let mut world: World<Value> = World::default();
    let fps = FpsResource(32);

    world.add_resource(fps);
    {
        world.remove_resource::<FpsResource>();
    }

    let resource = world.get_resource::<FpsResource>();
    assert!(resource.is_none());
}

#[test]
pub fn register_component() {
    let mut world: World<Value> = World::default();

    world.register_component::<Location>();
    assert!(world.is_registered::<Location>());
}

#[test]
pub fn create_entity() {
    let mut world: World<Value> = World::default();
    world.register_component::<Location>();
    world.register_component::<Size>();

    world.with_component(Location(12.0, 32.4));
    world.with_component(Size(2.0));

    let location = world.get_component::<Location>(0).unwrap();
    let size = world.get_component::<Size>(0).unwrap();

    assert_eq!(*location, Location(12.0, 32.4));
    assert_eq!(*size, Size(2.0));
}

#[test]
pub fn query() {
    let mut world: World<Value> = World::default();
    world.register_component::<Location>();
    world.register_component::<Size>();

    world.with_component(Location(12.0, 32.4));
    world.with_component(Size(2.0));

    let location = world.get_component::<Location>(0).unwrap();
    let size = world.get_component::<Size>(0).unwrap();

    assert_eq!(*location, Location(12.0, 32.4));
    assert_eq!(*size, Size(2.0));
}

#[test]
fn resource_overwrite_keeps_the_last_value() {
    let mut world: World<Value> = World::new();
    world.add_resource(FpsResource(30));
    world.add_resource(FpsResource(60));
    assert_eq!(world.get_resource::<FpsResource>().unwrap().0, 60);
}

#[test]
fn fresh_world_has_no_resource() {
    let world: World<Value> = World::new();
    assert!(world.get_resource::<FpsResource>().is_none());
    assert!(world.get_resource::<Size>().is_none());
    assert!(!world.has_resource::<FpsResource>());
    assert!(world.get_resource_2::<FpsResource>().is_none());
}

#[test]
fn removal_returns_the_stored_value() {
    let mut world: World<Value> = World::new();
    world.add_resource(FpsResource(32));
    let cell = world.remove_resource::<FpsResource>().unwrap();
    assert_eq!(cell.downcast_ref::<FpsResource>().unwrap().0, 32);
    assert!(world.remove_resource::<FpsResource>().is_none());
    assert!(world.get_resource_mut::<FpsResource>().is_none());
}

#[test]
fn removal_of_absent_type_is_none() {
    let mut world: World<Value> = World::new();
    world.add_resource(Size(1.5));
    assert!(world.remove_resource::<FpsResource>().is_none());
    assert_eq!(*world.get_resource::<Size>().unwrap(), Size(1.5));
}

#[test]
fn upsert_replaces_the_last_component() {
    let mut world: World<Value> = World::new();
    world.register_component::<Size>();
    assert_eq!(world.component_count::<Size>(), 0);
    world.with_component(Size(1.0)).with_component(Size(2.0));
    assert_eq!(world.component_count::<Size>(), 1);
    assert_eq!(*world.get_component::<Size>(0).unwrap(), Size(2.0));
    assert!(world.get_component::<Size>(1).is_none());
}

#[test]
fn register_again_empties_the_column() {
    let mut world: World<Value> = World::new();
    world.register_component::<Size>();
    world.with_component(Size(4.0));
    world.register_component::<Size>();
    assert_eq!(world.component_count::<Size>(), 0);
    assert!(world.get_component::<Size>(0).is_none());
    assert!(!world.is_registered::<Location>());
}

#[test]
fn component_mutation_is_visible() {
    let mut world: World<Value> = World::new();
    world.register_component::<Location>();
    world.with_component(Location(1.0, 2.0));
    world.get_component_mut::<Location>(0).unwrap().1 = 5.0;
    assert_eq!(*world.get_component::<Location>(0).unwrap(), Location(1.0, 5.0));
    assert!(world.get_component_mut::<Location>(3).is_none());
}

#[test]
fn components_and_resources_are_separate() {
    let mut world: World<Value> = World::new();
    world.register_component::<Size>();
    world.with_component(Size(2.0));
    assert!(world.get_resource::<Size>().is_none());
    world.add_resource(Size(9.0));
    assert_eq!(*world.get_component::<Size>(0).unwrap(), Size(2.0));
    assert_eq!(*world.get_resource::<Size>().unwrap(), Size(9.0));
}

#[test]
fn second_registry_is_separate() {
    let mut world: World<Value> = World::new();
    world.add_resource_2(FpsResource(7));
    assert!(world.get_resource::<FpsResource>().is_none());
    assert_eq!(world.get_resource_2::<FpsResource>().unwrap().0, 7);
    world.get_resource_mut_2::<FpsResource>().unwrap().0 = 8;
    assert_eq!(world.get_resource_2::<FpsResource>().unwrap().0, 8);
    assert!(world.get_resource_mut_2::<Size>().is_none());
}

#[test]
fn cell_refuses_another_type() {
    let mut cell: TypedCell<Value> = TypedCell::store(Location(1.0, 2.0));
    assert_eq!(cell.key(), 2);
    assert!(cell.downcast_ref::<Size>().is_none());
    assert!(cell.downcast_ref::<FpsResource>().is_none());
    assert!(cell.downcast_mut::<Size>().is_none());
    assert_eq!(*cell.downcast_ref::<Location>().unwrap(), Location(1.0, 2.0));
}
