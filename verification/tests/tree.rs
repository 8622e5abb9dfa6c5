use camera_ctrl::address::Address;
use camera_ctrl::camera::{property, script_listing, Answer, Camera, Handover};
use camera_ctrl::communication_channel::{Bus, CommunicationChannel};
use camera_ctrl::device::{Device, Located, Reached};
use camera_ctrl::error::{Entry, NodeKind, Operation, TreeError};
use camera_ctrl::names::NameMap;
use camera_ctrl::registers::computed_register::{ComputedRegister, ComputedRegisterType};
use camera_ctrl::registers::cooked_register::CookedRegister;
use camera_ctrl::registers::raw_register::RawRegister;
use camera_ctrl::valuemap::{MapEntry, ValueMap};
use camera_ctrl::written::{Numeral, Written};

#[derive(Debug)]
struct Wire {
    writes: Vec<(u64, Vec<u8>)>,
}

impl Bus for Wire {
    fn read(&self, address: &Address) -> Result<Vec<u8>, TreeError> {
        Ok(vec![0x5a; address.bytes().unwrap_or(1)])
    }

    fn write(&mut self, address: &Address, value: Vec<u8>) -> Result<(), TreeError> {
        self.writes.push((address.as_u64(), value));
        Ok(())
    }
}

fn path(segments: &[&str]) -> Vec<String> {
    segments.iter().map(|s| s.to_string()).collect()
}

fn names(entries: &[&str]) -> Entry {
    Entry::Directory(path(entries))
}

fn leaf(text: &str) -> Entry {
    Entry::Leaf(text.to_string())
}

fn not_found(segment: &str) -> TreeError {
    TreeError::NotFound { segment: segment.to_string() }
}

fn unsupported(target: &str) -> TreeError {
    TreeError::UnsupportedOperation { operation: Operation::Write, target: target.to_string() }
}

fn number(value: Vec<u8>) -> Written {
    Written { text: b"0x..".to_vec(), numeral: Some(Numeral { value, mask: None }) }
}

fn text(text: &str) -> Written {
    Written { text: text.as_bytes().to_vec(), numeral: None }
}

fn sensor(mock: bool) -> Device<Wire> {
    let mut raw = NameMap::new();
    raw.insert(
        "chip_id".to_string(),
        RawRegister { address: Address::bounded(0x00, 2), default: Some(vec![0xc0, 0xde]) },
    );
    raw.insert(
        "gain_raw".to_string(),
        RawRegister { address: Address::bounded(0x10, 1), default: None },
    );
    let mut cooked = NameMap::new();
    cooked.insert(
        "gain".to_string(),
        CookedRegister {
            address: Address::bounded(0x10, 1),
            description: None,
            map: None,
            writable: true,
            default: None,
        },
    );
    cooked.insert(
        "power".to_string(),
        CookedRegister {
            address: Address::bounded(0x20, 1),
            description: Some("power state".to_string()),
            map: Some(ValueMap {
                entries: vec![
                    MapEntry { bytes: vec![0], label: "off".to_string() },
                    MapEntry { bytes: vec![1], label: "on".to_string() },
                ],
            }),
            writable: true,
            default: Some(0),
        },
    );
    let mut computed = NameMap::new();
    computed.insert(
        "gain_db".to_string(),
        ComputedRegister::new(
            "gain in dB".to_string(),
            Some("return raw.gain_raw".to_string()),
            None,
            None,
            ComputedRegisterType::Int,
        ),
    );
    let mut device =
        Device { raw, cooked, computed, channel: CommunicationChannel::new(Wire { writes: vec![] }, mock) };
    device.seed_mock_memory();
    device
}

fn to_device(device: &str, rest: &[&str]) -> Handover {
    Handover::Device { device: device.to_string(), rest: path(rest) }
}

fn to_script(script: &str, rest: &[&str]) -> Handover {
    Handover::ScriptTree { script: script.to_string(), rest: path(rest) }
}

fn value_of(script: &str) -> Handover {
    Handover::ScriptValue { script: script.to_string() }
}

fn camera() -> Camera<Device<Wire>> {
    let mut devices = NameMap::new();
    devices.insert("sensor".to_string(), sensor(true));
    devices.insert("lens".to_string(), sensor(true));
    let mut properties = NameMap::new();
    properties.insert("fps".to_string(), "50".to_string());
    Camera::new("beta".to_string(), devices, properties, path(&["foo", "bar"]))
}

#[test]
fn device_directories() {
    let device = sensor(true);
    assert_eq!(device.is_dir(&[]), Ok(true));
    assert_eq!(device.is_dir(&path(&["raw"])), Ok(true));
    assert_eq!(device.is_dir(&path(&["cooked"])), Ok(true));
    assert_eq!(device.is_dir(&path(&["computed"])), Ok(true));
    assert_eq!(device.is_dir(&path(&["raw", "chip_id"])), Ok(false));
    assert_eq!(device.is_dir(&path(&["cooked", "gain"])), Ok(false));
    assert_eq!(device.is_dir(&path(&["computed", "gain_db"])), Ok(false));
}

#[test]
fn device_is_dir_of_what_is_not_there() {
    let device = sensor(true);
    assert_eq!(device.is_dir(&path(&["channel"])), Err(not_found("channel")));
    assert_eq!(device.is_dir(&path(&["raw", "gain"])), Err(not_found("gain")));
    assert_eq!(device.is_dir(&path(&["cooked", "chip_id", "x"])), Err(not_found("chip_id")));
    assert_eq!(
        device.is_dir(&path(&["computed", "gain_db", "value"])),
        Err(TreeError::NotADirectory {
            node: NodeKind::ComputedRegister,
            segment: "value".to_string()
        })
    );
    assert_eq!(
        device.is_dir(&path(&["raw", "chip_id", "a", "b"])),
        Err(TreeError::NotADirectory { node: NodeKind::RawRegister, segment: "a".to_string() })
    );
}

#[test]
fn device_locates_registers() {
    let device = sensor(true);
    assert_eq!(device.locate(&[]), Ok(Located::Root));
    assert_eq!(device.locate(&path(&["cooked"])), Ok(Located::Registers(NodeKind::CookedRegister)));
    assert_eq!(
        device.locate(&path(&["cooked", "power", "x"])),
        Ok(Located::Register { kind: NodeKind::CookedRegister, index: 1 })
    );
    assert_eq!(
        device.locate(&path(&["raw", "chip_id"])),
        Ok(Located::Register { kind: NodeKind::RawRegister, index: 0 })
    );
    assert_eq!(device.locate(&path(&["Raw"])), Err(not_found("Raw")));
}

#[test]
fn device_listings() {
    let device = sensor(true);
    assert_eq!(device.read(&[]), Ok(Reached::Done(names(&["raw", "cooked", "computed"]))));
    assert_eq!(
        device.read(&path(&["raw"])),
        Ok(Reached::Done(names(&["chip_id", "gain_raw"])))
    );
    assert_eq!(device.read(&path(&["cooked"])), Ok(Reached::Done(names(&["gain", "power"]))));
    assert_eq!(device.read(&path(&["computed"])), Ok(Reached::Done(names(&["gain_db"]))));
}

#[test]
fn device_reads_registers_from_seeded_memory() {
    let device = sensor(true);
    assert_eq!(device.read(&path(&["raw", "chip_id"])), Ok(Reached::Done(leaf("0xc0de"))));
    assert_eq!(device.read(&path(&["raw", "gain_raw"])), Ok(Reached::Done(leaf("0x00"))));
    assert_eq!(device.read(&path(&["cooked", "gain"])), Ok(Reached::Done(leaf("0x00"))));
    assert_eq!(device.read(&path(&["cooked", "power"])), Ok(Reached::Done(leaf("off"))));
}

#[test]
fn device_read_ends_at_a_computed_register() {
    let device = sensor(true);
    assert_eq!(
        device.read(&path(&["computed", "gain_db"])),
        Ok(Reached::Computed { register: "gain_db".to_string() })
    );
    assert_eq!(
        device.read(&path(&["computed", "gain_db", "a", "b"])),
        Err(TreeError::NotADirectory {
            node: NodeKind::ComputedRegister,
            segment: "a".to_string()
        })
    );
    assert_eq!(device.read(&path(&["computed", "nothing"])), Err(not_found("nothing")));
}

#[test]
fn device_read_below_a_register_is_refused() {
    let device = sensor(true);
    assert_eq!(
        device.read(&path(&["cooked", "gain", "value"])),
        Err(TreeError::NotADirectory {
            node: NodeKind::CookedRegister,
            segment: "value".to_string()
        })
    );
}

#[test]
fn device_writes_registers() {
    let mut device = sensor(true);
    assert_eq!(device.write(&path(&["cooked", "gain"]), &number(vec![0x2a])), Ok(Reached::Done(())));
    assert_eq!(device.read(&path(&["cooked", "gain"])), Ok(Reached::Done(leaf("0x2a"))));
    assert_eq!(device.read(&path(&["raw", "gain_raw"])), Ok(Reached::Done(leaf("0x2a"))));
    assert_eq!(device.write(&path(&["cooked", "power"]), &text("on")), Ok(Reached::Done(())));
    assert_eq!(device.read(&path(&["cooked", "power"])), Ok(Reached::Done(leaf("on"))));
    assert_eq!(device.write(&path(&["raw", "chip_id"]), &text("AB")), Ok(Reached::Done(())));
    assert_eq!(device.read(&path(&["raw", "chip_id"])), Ok(Reached::Done(leaf("0x4142"))));
}

#[test]
fn device_write_errors() {
    let mut device = sensor(true);
    assert_eq!(device.write(&[], &text("x")), Err(unsupported("device")));
    assert_eq!(device.write(&path(&["cooked"]), &text("x")), Err(unsupported("cooked")));
    assert_eq!(device.write(&path(&["other"]), &text("x")), Err(not_found("other")));
    assert_eq!(device.write(&path(&["cooked", "none"]), &text("x")), Err(not_found("none")));
    assert_eq!(
        device.write(&path(&["cooked", "power"]), &text("dim")),
        Err(TreeError::UnmappedValue)
    );
    assert_eq!(
        device.write(&path(&["cooked", "gain"]), &text("dim")),
        Err(TreeError::InvalidNumeral)
    );
    assert_eq!(
        device.write(&path(&["cooked", "gain"]), &number(vec![1, 2])),
        Err(TreeError::ValueTooLong { length: 2, width: 1 })
    );
    assert_eq!(
        device.write(&path(&["raw", "chip_id", "x"]), &text("x")),
        Err(TreeError::NotADirectory { node: NodeKind::RawRegister, segment: "x".to_string() })
    );
    assert_eq!(device.read(&path(&["raw", "chip_id"])), Ok(Reached::Done(leaf("0xc0de"))));
}

#[test]
fn device_write_ends_at_a_computed_register() {
    let mut device = sensor(true);
    assert_eq!(
        device.write(&path(&["computed", "gain_db"]), &text("3")),
        Ok(Reached::Computed { register: "gain_db".to_string() })
    );
    assert_eq!(
        device.write(&path(&["computed", "gain_db", "x"]), &text("3")),
        Err(TreeError::NotADirectory {
            node: NodeKind::ComputedRegister,
            segment: "x".to_string()
        })
    );
}

#[test]
fn device_out_of_mock_mode_goes_over_the_bus() {
    let mut device = sensor(false);
    assert_eq!(device.read(&path(&["raw", "chip_id"])), Ok(Reached::Done(leaf("0x5a5a"))));
    assert_eq!(device.write(&path(&["cooked", "gain"]), &number(vec![7])), Ok(Reached::Done(())));
    assert_eq!(device.channel.bus.writes, vec![(0x10, vec![7])]);
    assert_eq!(device.channel.memory.read(&Address::bounded(0x10, 1)), Ok(vec![0]));
}

#[test]
fn device_read_and_is_dir_agree() {
    for mock in [true, false] {
        let device = sensor(mock);
        for probe in [
            vec![],
            vec!["raw"],
            vec!["cooked"],
            vec!["computed"],
            vec!["raw", "chip_id"],
            vec!["cooked", "power"],
            vec!["cooked", "power", "x"],
            vec!["computed", "gain_db"],
            vec!["computed", "gain_db", "x"],
            vec!["raw", "none"],
            vec!["other"],
        ] {
            let probe = path(&probe);
            match (device.is_dir(&probe), device.read(&probe)) {
                (Ok(true), Ok(Reached::Done(Entry::Directory(_)))) => {}
                (Ok(false), Ok(Reached::Done(Entry::Leaf(_)))) => {}
                (Ok(false), Ok(Reached::Computed { .. })) => {}
                (Ok(false), Err(_)) => {}
                (Err(left), Err(right)) => assert_eq!(left, right),
                other => panic!("{:?}: {:?}", probe, other),
            }
        }
    }
}

#[test]
fn camera_directories() {
    let camera = camera();
    assert_eq!(camera.is_dir(&[]), Ok(Answer::Done(true)));
    assert_eq!(camera.is_dir(&path(&["devices"])), Ok(Answer::Done(true)));
    assert_eq!(camera.is_dir(&path(&["scripts"])), Ok(Answer::Done(true)));
    assert_eq!(camera.is_dir(&path(&["properties"])), Ok(Answer::Done(true)));
    assert_eq!(camera.is_dir(&path(&["camera_model"])), Ok(Answer::Done(false)));
    assert_eq!(camera.is_dir(&path(&["properties", "fps"])), Ok(Answer::Done(false)));
    assert_eq!(camera.is_dir(&path(&["devices", "sensor"])), Ok(Answer::Done(true)));
    assert_eq!(
        camera.is_dir(&path(&["devices", "sensor", "cooked"])),
        Ok(Answer::Handed(to_device("sensor", &["cooked"])))
    );
    assert_eq!(
        camera.is_dir(&path(&["devices", "lens", "cooked", "gain"])),
        Ok(Answer::Handed(to_device("lens", &["cooked", "gain"])))
    );
}

#[test]
fn camera_is_dir_errors() {
    let camera = camera();
    assert_eq!(camera.is_dir(&path(&["lenses"])), Err(not_found("lenses")));
    assert_eq!(camera.is_dir(&path(&["devices", "flash"])), Err(not_found("flash")));
    assert_eq!(camera.is_dir(&path(&["devices", "flash", "raw"])), Err(not_found("flash")));
    assert_eq!(camera.is_dir(&path(&["properties", "iso"])), Err(not_found("iso")));
    assert_eq!(
        camera.is_dir(&path(&["camera_model", "x"])),
        Err(TreeError::NotADirectory { node: NodeKind::CameraModel, segment: "x".to_string() })
    );
    assert_eq!(
        camera.is_dir(&path(&["properties", "fps", "x"])),
        Err(TreeError::NotADirectory { node: NodeKind::Property, segment: "x".to_string() })
    );
}

#[test]
fn script_directory_is_a_directory_with_a_value_entry() {
    let camera = camera();
    assert_eq!(camera.is_dir(&path(&["scripts", "foo"])), Ok(Answer::Done(true)));
    assert_eq!(
        camera.read(&path(&["scripts", "foo"])),
        Ok(Answer::Handed(Handover::ScriptListing { script: "foo".to_string() }))
    );
    assert_eq!(
        script_listing(path(&["description", "unit"])),
        names(&["description", "unit", "value"])
    );
    assert_eq!(script_listing(vec![]), names(&["value"]));
}

#[test]
fn script_value_is_never_a_directory() {
    let camera = camera();
    assert_eq!(camera.is_dir(&path(&["scripts", "foo", "value"])), Ok(Answer::Done(false)));
    assert_eq!(camera.is_dir(&path(&["scripts", "foo", "value", "x"])), Ok(Answer::Done(false)));
    assert_eq!(
        camera.read(&path(&["scripts", "foo", "value"])),
        Ok(Answer::Handed(value_of("foo")))
    );
    assert_eq!(
        camera.read(&path(&["scripts", "bar", "value", "x"])),
        Ok(Answer::Handed(value_of("bar")))
    );
}

#[test]
fn rest_of_a_script_is_left_to_the_script() {
    let camera = camera();
    let inner = path(&["scripts", "foo", "description", "x"]);
    assert_eq!(
        camera.is_dir(&inner),
        Ok(Answer::Handed(to_script("foo", &["description", "x"])))
    );
    assert_eq!(camera.read(&inner), Ok(Answer::Handed(to_script("foo", &["description", "x"]))));
    assert_eq!(camera.write(&inner), Ok(to_script("foo", &["description", "x"])));
}

#[test]
fn unknown_script_is_not_found() {
    let camera = camera();
    assert_eq!(camera.is_dir(&path(&["scripts", "baz"])), Err(not_found("baz")));
    assert_eq!(camera.is_dir(&path(&["scripts", "baz", "value"])), Err(not_found("baz")));
    assert_eq!(camera.read(&path(&["scripts", "baz", "value"])), Err(not_found("baz")));
    assert_eq!(camera.read(&path(&["scripts", "baz", "x"])), Err(not_found("baz")));
    assert_eq!(camera.write(&path(&["scripts", "baz", "value"])), Err(not_found("baz")));
    assert_eq!(camera.write(&path(&["scripts", "baz"])), Err(not_found("baz")));
}

#[test]
fn camera_listings() {
    let camera = camera();
    assert_eq!(
        camera.read(&[]),
        Ok(Answer::Done(names(&["camera_model", "devices", "scripts", "properties"])))
    );
    assert_eq!(camera.read(&path(&["devices"])), Ok(Answer::Done(names(&["sensor", "lens"]))));
    assert_eq!(camera.read(&path(&["scripts"])), Ok(Answer::Done(names(&["foo", "bar"]))));
    assert_eq!(camera.read(&path(&["properties"])), Ok(Answer::Done(names(&["fps"]))));
}

#[test]
fn camera_leaves() {
    let camera = camera();
    assert_eq!(camera.read(&path(&["camera_model"])), Ok(Answer::Done(leaf("beta"))));
    assert_eq!(camera.read(&path(&["properties", "fps"])), Ok(Answer::Done(leaf("50"))));
    assert_eq!(
        camera.read(&path(&["camera_model", "x"])),
        Err(TreeError::NotADirectory { node: NodeKind::CameraModel, segment: "x".to_string() })
    );
}

#[test]
fn camera_hands_a_device_path_to_the_device() {
    let camera = camera();
    assert_eq!(
        camera.read(&path(&["devices", "lens"])),
        Ok(Answer::Handed(to_device("lens", &[])))
    );
    assert_eq!(
        camera.read(&path(&["devices", "lens", "computed", "gain_db"])),
        Ok(Answer::Handed(to_device("lens", &["computed", "gain_db"])))
    );
    assert_eq!(
        camera.write(&path(&["devices", "sensor", "cooked", "gain"])),
        Ok(to_device("sensor", &["cooked", "gain"]))
    );
    assert_eq!(camera.write(&path(&["devices", "sensor"])), Ok(to_device("sensor", &[])));
    assert_eq!(camera.read(&path(&["devices", "flash", "raw"])), Err(not_found("flash")));
    assert_eq!(camera.write(&path(&["devices", "flash", "raw"])), Err(not_found("flash")));
}

#[test]
fn camera_model_cannot_be_written() {
    let camera = camera();
    assert_eq!(camera.write(&path(&["camera_model"])), Err(unsupported("Camera.camera_model")));
    assert_eq!(
        camera.write(&path(&["camera_model", "x"])),
        Err(unsupported("Camera.camera_model"))
    );
}

#[test]
fn camera_directories_cannot_be_written() {
    let camera = camera();
    assert_eq!(camera.write(&[]), Err(unsupported("camera")));
    assert_eq!(camera.write(&path(&["devices"])), Err(unsupported("camera.devices")));
    assert_eq!(camera.write(&path(&["scripts"])), Err(unsupported("camera.scripts")));
}

#[test]
fn camera_write_of_what_is_not_there() {
    let camera = camera();
    assert_eq!(camera.write(&path(&["lenses"])), Err(not_found("lenses")));
    assert_eq!(camera.write(&path(&["properties"])), Err(not_found("properties")));
    assert_eq!(camera.write(&path(&["properties", "fps"])), Err(not_found("properties")));
}

#[test]
fn camera_write_to_scripts() {
    let camera = camera();
    assert_eq!(camera.write(&path(&["scripts", "foo", "value"])), Ok(value_of("foo")));
    assert_eq!(camera.write(&path(&["scripts", "foo"])), Ok(to_script("foo", &[])));
    assert_eq!(camera.write(&path(&["scripts", "foo", "unit"])), Ok(to_script("foo", &["unit"])));
}

#[test]
fn write_through_the_camera_reaches_the_named_device_only() {
    let mut camera = camera();
    let target = path(&["devices", "lens", "cooked", "gain"]);
    let (device, rest) = match camera.write(&target) {
        Ok(Handover::Device { device, rest }) => (device, rest),
        other => panic!("not handed to a device: {:?}", other),
    };
    let index = camera.devices.find(&device).unwrap();
    assert_eq!(
        camera.devices.item_mut(index).write(&rest, &number(vec![0x11])),
        Ok(Reached::Done(()))
    );
    let lens = camera.devices.get(&"lens".to_string()).unwrap();
    let sensor = camera.devices.get(&"sensor".to_string()).unwrap();
    assert_eq!(lens.read(&rest), Ok(Reached::Done(leaf("0x11"))));
    assert_eq!(sensor.read(&rest), Ok(Reached::Done(leaf("0x00"))));
}

#[test]
fn camera_read_and_is_dir_agree() {
    let camera = camera();
    for probe in [
        vec![],
        vec!["camera_model"],
        vec!["camera_model", "x"],
        vec!["devices"],
        vec!["devices", "flash"],
        vec!["scripts"],
        vec!["scripts", "foo"],
        vec!["scripts", "foo", "value"],
        vec!["scripts", "foo", "unit"],
        vec!["scripts", "baz"],
        vec!["properties"],
        vec!["properties", "fps"],
        vec!["properties", "fps", "x"],
        vec!["properties", "iso"],
        vec!["other"],
    ] {
        let probe = path(&probe);
        match (camera.is_dir(&probe), camera.read(&probe)) {
            (Ok(Answer::Done(true)), Ok(Answer::Done(Entry::Directory(_)))) => {}
            (Ok(Answer::Done(true)), Ok(Answer::Handed(Handover::ScriptListing { .. }))) => {}
            (Ok(Answer::Done(false)), Ok(Answer::Done(Entry::Leaf(_)))) => {}
            (Ok(Answer::Done(false)), Ok(Answer::Handed(Handover::ScriptValue { .. }))) => {}
            (Ok(Answer::Handed(left)), Ok(Answer::Handed(right))) => assert_eq!(left, right),
            (Err(left), Err(right)) => assert_eq!(left, right),
            other => panic!("{:?}: {:?}", probe, other),
        }
    }
}

#[test]
fn mocked_sets_every_device() {
    let mut camera = camera();
    camera.mocked(false);
    assert!(camera.devices.entries.iter().all(|device| !device.item.channel.mock));
    let sensor = camera.devices.get(&"sensor".to_string()).unwrap();
    assert_eq!(sensor.read(&path(&["raw", "chip_id"])), Ok(Reached::Done(leaf("0x5a5a"))));
    camera.mocked(true);
    assert!(camera.devices.entries.iter().all(|device| device.item.channel.mock));
    let sensor = camera.devices.get(&"sensor".to_string()).unwrap();
    assert_eq!(sensor.read(&path(&["raw", "chip_id"])), Ok(Reached::Done(leaf("0xc0de"))));
    assert_eq!(camera.devices.list(), path(&["sensor", "lens"]));
}

#[test]
fn property_by_name() {
    let camera = camera();
    assert_eq!(property(&camera, &"fps".to_string()), Ok("50".to_string()));
    assert_eq!(property(&camera, &"iso".to_string()), Err(not_found("iso")));
}
