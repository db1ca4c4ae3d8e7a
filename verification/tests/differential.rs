//! Cross-checks: the same document read by this library and by a general
//! YAML reader must agree on every field the schema carries.

use fmiop_config::load::parse_config;
use fmiop_config::schema::PressurePair;

fn document() -> String {
    [
        "config_version: 1.5",
        "dynamic_swappiness:",
        "  enable: true",
        "  threshold_type: psi",
        "  swappiness_range: {max: 120, min: 40}",
        "  threshold_psi:",
        "    mode: \"auto\"",
        "    levels: 2",
        "    auto_cpu: {max: 95, min: 5, time_window: \"10s\"}",
        "    auto_memory: {max: 85, min: 15, time_window: \"20s\"}",
        "    auto_io: {max: 75, min: 25, time_window: \"40s\"}",
        "    cpu_pressure: [[12, 34], [56, 78]]",
        "    memory_pressure: [[9, 8]]",
        "    io_pressure: []",
        "  threshold_mem_pressure: [[2, 4]]",
        "virtual_memory:",
        "  enable: false",
        "  pressure_binding: true",
        "  deactivate_in_sleep: false",
        "  wait_timeout: 33",
        "  zram: {activation_threshold: 66, deactivation_threshold: 44}",
        "  swap: {activation_threshold: 88, deactivation_threshold: 22}",
    ]
    .join("\n")
}

fn pair_list(v: &serde_yaml::Value) -> Vec<PressurePair> {
    v.as_sequence()
        .expect("a curve is a sequence")
        .iter()
        .map(|item| {
            let parts = item.as_sequence().expect("a curve item is a pair");
            assert_eq!(parts.len(), 2);
            PressurePair {
                pressure: parts[0].as_u64().expect("pressure is unsigned") as u32,
                value: parts[1].as_u64().expect("value is unsigned") as u32,
            }
        })
        .collect()
}

#[test]
fn agrees_with_general_yaml_reader() {
    let doc = document();
    let ours = parse_config(&doc).expect("document must load");
    let theirs: serde_yaml::Value = serde_yaml::from_str(&doc).expect("document is valid YAML");

    let version = theirs.get("config_version").and_then(|v| v.as_f64()).unwrap();
    assert_eq!(version, 1.5);
    assert_eq!(ours.config_version.whole, 1);
    assert_eq!(ours.config_version.frac, 5);
    assert_eq!(ours.config_version.frac_digits, 1);

    let ds = theirs.get("dynamic_swappiness").unwrap();
    assert_eq!(ds.get("enable").unwrap().as_bool().unwrap(), ours.dynamic_swappiness.enable);
    assert_eq!(
        ds.get("threshold_type").unwrap().as_str().unwrap(),
        ours.dynamic_swappiness.threshold_type
    );
    let range = ds.get("swappiness_range").unwrap();
    assert_eq!(
        range.get("max").unwrap().as_u64().unwrap(),
        ours.dynamic_swappiness.swappiness_range.max as u64
    );
    assert_eq!(
        range.get("min").unwrap().as_u64().unwrap(),
        ours.dynamic_swappiness.swappiness_range.min as u64
    );

    let psi = ds.get("threshold_psi").unwrap();
    assert_eq!(
        psi.get("mode").unwrap().as_str().unwrap(),
        ours.dynamic_swappiness.threshold_psi.mode
    );
    assert_eq!(
        psi.get("levels").unwrap().as_u64().unwrap(),
        ours.dynamic_swappiness.threshold_psi.levels as u64
    );
    let auto_memory = psi.get("auto_memory").unwrap();
    assert_eq!(
        auto_memory.get("time_window").unwrap().as_str().unwrap(),
        ours.dynamic_swappiness.threshold_psi.auto_memory.time_window
    );
    assert_eq!(
        pair_list(psi.get("cpu_pressure").unwrap()),
        ours.dynamic_swappiness.threshold_psi.cpu_pressure
    );
    assert_eq!(
        pair_list(psi.get("memory_pressure").unwrap()),
        ours.dynamic_swappiness.threshold_psi.memory_pressure
    );
    assert_eq!(
        pair_list(psi.get("io_pressure").unwrap()),
        ours.dynamic_swappiness.threshold_psi.io_pressure
    );
    assert_eq!(
        pair_list(ds.get("threshold_mem_pressure").unwrap()),
        ours.dynamic_swappiness.threshold_mem_pressure
    );

    let vm = theirs.get("virtual_memory").unwrap();
    assert_eq!(vm.get("enable").unwrap().as_bool().unwrap(), ours.virtual_memory.enable);
    assert_eq!(
        vm.get("pressure_binding").unwrap().as_bool().unwrap(),
        ours.virtual_memory.pressure_binding
    );
    assert_eq!(
        vm.get("wait_timeout").unwrap().as_u64().unwrap(),
        ours.virtual_memory.wait_timeout as u64
    );
    let zram = vm.get("zram").unwrap();
    assert_eq!(
        zram.get("activation_threshold").unwrap().as_u64().unwrap(),
        ours.virtual_memory.zram.activation_threshold as u64
    );
    let swap = vm.get("swap").unwrap();
    assert_eq!(
        swap.get("deactivation_threshold").unwrap().as_u64().unwrap(),
        ours.virtual_memory.swap.deactivation_threshold as u64
    );
}

#[test]
fn both_reject_malformed_text() {
    let doc = "dynamic_swappiness: [unclosed";
    assert!(parse_config(doc).is_err());
    assert!(serde_yaml::from_str::<serde_yaml::Value>(doc).is_err());
}
