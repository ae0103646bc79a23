use xenith_devices::registry::{
    contains, iter_names, lookup, lookup_as, register, Device, DeviceRegistry,
};

#[derive(Debug, PartialEq)]
struct Plain {
    name: &'static str,
    starts: u32,
}

impl Device for Plain {
    fn started(self) -> Self {
        unreachable!()
    }

    fn name(&self) -> &'static str {
        self.name
    }

    fn kind(&self) -> &'static str {
        "plain"
    }

    fn init(&mut self) {
        self.starts += 1;
    }
}

fn plain(name: &'static str) -> Plain {
    Plain { name, starts: 0 }
}

#[test]
fn registered_device_is_found_and_started_once() {
    let mut registry = DeviceRegistry::new();
    assert!(registry.is_empty());
    register(&mut registry, "com1", plain("com1"));
    register(&mut registry, "pcspk", plain("pcspk"));
    assert_eq!(registry.len(), 2);
    let found = lookup(&registry, "pcspk").unwrap();
    assert_eq!(found.device().name(), "pcspk");
    assert_eq!(found.device().kind(), "plain");
    assert_eq!(found.device().starts, 1);
    assert!(lookup(&registry, "PCSPK").is_none());
    assert!(contains(&registry, "com1"));
    assert!(!contains(&registry, ""));
}

#[test]
fn second_device_takes_the_place_of_the_first() {
    let mut registry = DeviceRegistry::default();
    registry.register("a", plain("old"));
    registry.register("b", plain("b"));
    registry.register("a", plain("new"));
    assert_eq!(registry.len(), 2);
    assert_eq!(registry.lookup("a").unwrap().device().name, "new");
    assert_eq!(iter_names(&registry), vec!["a", "b"]);
    assert_eq!(registry.lookup("b").unwrap().device().name, "b");
}

#[test]
fn device_is_recovered_under_its_own_type() {
    let mut registry = DeviceRegistry::new();
    registry.register("a", plain("a"));
    let narrow: Option<&Plain> = lookup_as(&registry, "a");
    assert_eq!(
        narrow,
        Some(&Plain {
            name: "a",
            starts: 1
        })
    );
    let missing: Option<&Plain> = registry.lookup_as("b");
    assert!(missing.is_none());
}
