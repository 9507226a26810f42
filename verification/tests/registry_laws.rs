use mpu6050_async_driver::driver_core::{
    DriverError, DriverInfo, DriverKind, DriverManager, DriverState,
};

fn bus(name: &'static str, kind: DriverKind) -> DriverInfo {
    DriverInfo { name, kind, state: DriverState::Ready, dependency: None }
}

#[test]
fn kinds_primary_or_not() {
    assert!(DriverKind::I2c.is_primary());
    assert!(DriverKind::Spi.is_primary());
    assert!(DriverKind::Uart.is_primary());
    assert!(!DriverKind::Device.is_primary());
}

#[test]
fn new_manager_is_empty() {
    let manager: DriverManager<3> = DriverManager::new();
    assert!(manager.is_empty());
    assert_eq!(manager.len(), 0);
    assert!(manager.list().is_empty());
    assert!(manager.get("i2c0").is_none());
    let default: DriverManager<3> = DriverManager::default();
    assert!(default.is_empty());
}

#[test]
fn register_primary_rejects_device_kind() {
    let mut manager: DriverManager<2> = DriverManager::new();
    assert_eq!(
        manager.register_primary("dev", DriverKind::Device),
        Err(DriverError::InvalidDependency)
    );
    assert!(manager.is_empty());
}

#[test]
fn register_primary_entry_is_ready_without_dependency() {
    let mut manager: DriverManager<2> = DriverManager::new();
    manager.register_primary("uart1", DriverKind::Uart).unwrap();
    assert_eq!(*manager.get("uart1").unwrap(), bus("uart1", DriverKind::Uart));
}

#[test]
fn device_entry_starts_uninitialized() {
    let mut manager: DriverManager<2> = DriverManager::new();
    manager.register_primary("spi0", DriverKind::Spi).unwrap();
    manager.register_device("flash", "spi0").unwrap();
    let d = *manager.get("flash").unwrap();
    assert_eq!(d.kind, DriverKind::Device);
    assert_eq!(d.state, DriverState::Uninitialized);
    assert_eq!(d.dependency, Some("spi0"));
}

#[test]
fn device_cannot_depend_on_device() {
    let mut manager: DriverManager<3> = DriverManager::new();
    manager.register_primary("i2c0", DriverKind::I2c).unwrap();
    manager.register_device("mpu6050", "i2c0").unwrap();
    assert_eq!(
        manager.register_device("child", "mpu6050"),
        Err(DriverError::InvalidDependency)
    );
    assert_eq!(manager.len(), 2);
}

#[test]
fn register_checks_dependency_rules() {
    let mut manager: DriverManager<4> = DriverManager::new();
    let device_without_dependency = DriverInfo {
        name: "dev",
        kind: DriverKind::Device,
        state: DriverState::Ready,
        dependency: None,
    };
    assert_eq!(manager.register(device_without_dependency), Err(DriverError::MissingDependency));
    let device_unknown_dependency = DriverInfo { dependency: Some("nope"), ..device_without_dependency };
    assert_eq!(manager.register(device_unknown_dependency), Err(DriverError::MissingDependency));
    let bus_with_dependency = DriverInfo {
        name: "spi0",
        kind: DriverKind::Spi,
        state: DriverState::Ready,
        dependency: Some("i2c0"),
    };
    assert_eq!(manager.register(bus_with_dependency), Err(DriverError::InvalidDependency));
    manager.register(bus("i2c0", DriverKind::I2c)).unwrap();
    manager.register(DriverInfo { dependency: Some("i2c0"), ..device_without_dependency }).unwrap();
    let on_device = DriverInfo { name: "other", dependency: Some("dev"), ..device_without_dependency };
    assert_eq!(manager.register(on_device), Err(DriverError::InvalidDependency));
    assert_eq!(manager.len(), 2);
}

#[test]
fn duplicate_is_checked_before_full() {
    let mut manager: DriverManager<1> = DriverManager::new();
    manager.register_primary("i2c0", DriverKind::I2c).unwrap();
    assert_eq!(manager.register_primary("i2c0", DriverKind::Spi), Err(DriverError::Duplicate));
    assert_eq!(manager.register_device("dev", "i2c0"), Err(DriverError::Full));
}

#[test]
fn set_state_unknown_name_is_not_found() {
    let mut manager: DriverManager<2> = DriverManager::new();
    manager.register_primary("i2c0", DriverKind::I2c).unwrap();
    assert_eq!(manager.set_state("spi0", DriverState::Fault), Err(DriverError::NotFound));
    assert_eq!(manager.get("i2c0").unwrap().state, DriverState::Ready);
}

#[test]
fn set_state_touches_only_that_entry() {
    let mut manager: DriverManager<3> = DriverManager::new();
    manager.register_primary("i2c0", DriverKind::I2c).unwrap();
    manager.register_device("mpu6050", "i2c0").unwrap();
    manager.set_state("i2c0", DriverState::Fault).unwrap();
    assert_eq!(manager.get("i2c0").unwrap().state, DriverState::Fault);
    assert_eq!(manager.get("i2c0").unwrap().kind, DriverKind::I2c);
    assert_eq!(manager.get("mpu6050").unwrap().state, DriverState::Uninitialized);
    assert_eq!(manager.len(), 2);
}

#[test]
fn list_keeps_slot_order() {
    let mut manager: DriverManager<3> = DriverManager::new();
    manager.register_primary("i2c0", DriverKind::I2c).unwrap();
    manager.register_primary("spi0", DriverKind::Spi).unwrap();
    manager.register_device("mpu6050", "i2c0").unwrap();
    let names: Vec<&str> = manager.list().iter().map(|d| d.name).collect();
    assert_eq!(names, vec!["i2c0", "spi0", "mpu6050"]);
    assert_eq!(manager.len(), manager.list().len());
}

#[test]
fn names_compare_by_content() {
    let mut manager: DriverManager<2> = DriverManager::new();
    manager.register_primary("i2c0", DriverKind::I2c).unwrap();
    let owned = String::from("i2c0");
    assert!(manager.get(owned.as_str()).is_some());
    assert!(manager.get("i2c").is_none());
    assert!(manager.get("i2c00").is_none());
    assert!(manager.get("").is_none());
}

#[test]
fn len_counts_accepted_registrations_in_order() {
    let mut manager: DriverManager<3> = DriverManager::new();
    let mut accepted = Vec::new();
    let requests: Vec<(&'static str, Option<&'static str>)> = vec![
        ("mpu6050", Some("i2c0")),
        ("i2c0", None),
        ("i2c0", None),
        ("mpu6050", Some("i2c0")),
        ("bmp280", Some("mpu6050")),
        ("spi0", None),
        ("uart0", None),
    ];
    for (name, dep) in requests {
        let r = match dep {
            Some(d) => manager.register_device(name, d),
            None => manager.register_primary(name, DriverKind::Spi),
        };
        if r.is_ok() {
            accepted.push(name);
        }
        manager.set_state("i2c0", DriverState::Fault).ok();
    }
    assert_eq!(accepted, vec!["i2c0", "mpu6050", "spi0"]);
    assert_eq!(manager.len(), accepted.len());
    let listed: Vec<&str> = manager.list().iter().map(|d| d.name).collect();
    assert_eq!(listed, accepted);
    assert_eq!(manager.get("i2c0").unwrap().state, DriverState::Fault);
    assert_eq!(
        manager.list(),
        vec![
            DriverInfo { name: "i2c0", kind: DriverKind::Spi, state: DriverState::Fault, dependency: None },
            DriverInfo {
                name: "mpu6050",
                kind: DriverKind::Device,
                state: DriverState::Uninitialized,
                dependency: Some("i2c0"),
            },
            DriverInfo { name: "spi0", kind: DriverKind::Spi, state: DriverState::Ready, dependency: None },
        ]
    );
}
