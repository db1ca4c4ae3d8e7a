//! Rendering a configuration back into a document tree.
//!
//! `yaml_of_config` is the canonical tree of a configuration.  The round-trip
//! lemmas state that binding such a tree recovers every field exactly: the
//! schema loses nothing of a well-formed document.

use vstd::prelude::*;
use crate::bind::{
    opt_auto, opt_dynamic_swappiness, opt_pairs, opt_psi, opt_range, opt_thresholds,
    opt_virtual_memory, spec_bind_config, spec_bind_pair, spec_bind_pair_seq,
};
use crate::schema::{
    AutoThreshold, AutoThresholdView, Configuration, ConfigurationView, DynamicSwappiness,
    DynamicSwappinessView, PressurePair, SwappinessRange, ThresholdPsi, ThresholdPsiView,
    VirtualMemory,
};
use crate::yaml::{
    Entry, EntryView, Yaml, YamlView, lemma_list_view, lemma_map_get_found, lemma_mapping_view,
    list_view, mapping_view,
};

verus! {

broadcast use vstd::std_specs::vec::group_vec_axioms, vstd::string::group_string_axioms;

/// The tree of one `[pressure, value]` pair.
pub open spec fn yaml_of_pair(p: PressurePair) -> YamlView {
    YamlView::List(
        seq![
            YamlView::Unsigned(p.pressure as u64),
            YamlView::Unsigned(p.value as u64),
        ],
    )
}

/// The tree of a pressure curve.
pub open spec fn yaml_of_pairs(ps: Seq<PressurePair>) -> YamlView {
    YamlView::List(ps.map_values(|p: PressurePair| yaml_of_pair(p)))
}

/// The tree of a `{max, min}` range.
pub open spec fn yaml_of_range(r: SwappinessRange) -> YamlView {
    YamlView::Mapping(
        seq![
            EntryView { key: "max"@, value: YamlView::Unsigned(r.max as u64) },
            EntryView { key: "min"@, value: YamlView::Unsigned(r.min as u64) },
        ],
    )
}

/// The tree of an auto-threshold block.
pub open spec fn yaml_of_auto(a: AutoThresholdView) -> YamlView {
    YamlView::Mapping(
        seq![
            EntryView { key: "max"@, value: YamlView::Unsigned(a.max as u64) },
            EntryView { key: "min"@, value: YamlView::Unsigned(a.min as u64) },
            EntryView { key: "time_window"@, value: YamlView::Text(a.time_window) },
        ],
    )
}

/// The tree of an activation/deactivation threshold block.
pub open spec fn yaml_of_thresholds(act: u32, deact: u32) -> YamlView {
    YamlView::Mapping(
        seq![
            EntryView { key: "activation_threshold"@, value: YamlView::Unsigned(act as u64) },
            EntryView {
                key: "deactivation_threshold"@,
                value: YamlView::Unsigned(deact as u64),
            },
        ],
    )
}

/// The tree of the `threshold_psi` section.
pub open spec fn yaml_of_psi(p: ThresholdPsiView) -> YamlView {
    YamlView::Mapping(
        seq![
            EntryView { key: "mode"@, value: YamlView::Text(p.mode) },
            EntryView { key: "levels"@, value: YamlView::Unsigned(p.levels as u64) },
            EntryView { key: "auto_cpu"@, value: yaml_of_auto(p.auto_cpu) },
            EntryView { key: "auto_memory"@, value: yaml_of_auto(p.auto_memory) },
            EntryView { key: "auto_io"@, value: yaml_of_auto(p.auto_io) },
            EntryView { key: "cpu_pressure"@, value: yaml_of_pairs(p.cpu_pressure) },
            EntryView { key: "memory_pressure"@, value: yaml_of_pairs(p.memory_pressure) },
            EntryView { key: "io_pressure"@, value: yaml_of_pairs(p.io_pressure) },
        ],
    )
}

/// The tree of the `dynamic_swappiness` section.
pub open spec fn yaml_of_dynamic_swappiness(d: DynamicSwappinessView) -> YamlView {
    YamlView::Mapping(
        seq![
            EntryView { key: "enable"@, value: YamlView::Boolean(d.enable) },
            EntryView { key: "threshold_type"@, value: YamlView::Text(d.threshold_type) },
            EntryView { key: "swappiness_range"@, value: yaml_of_range(d.swappiness_range) },
            EntryView { key: "threshold_psi"@, value: yaml_of_psi(d.threshold_psi) },
            EntryView {
                key: "threshold_mem_pressure"@,
                value: yaml_of_pairs(d.threshold_mem_pressure),
            },
        ],
    )
}

/// The tree of the `virtual_memory` section.
pub open spec fn yaml_of_virtual_memory(v: VirtualMemory) -> YamlView {
    YamlView::Mapping(
        seq![
            EntryView { key: "enable"@, value: YamlView::Boolean(v.enable) },
            EntryView { key: "pressure_binding"@, value: YamlView::Boolean(v.pressure_binding) },
            EntryView {
                key: "deactivate_in_sleep"@,
                value: YamlView::Boolean(v.deactivate_in_sleep),
            },
            EntryView { key: "wait_timeout"@, value: YamlView::Unsigned(v.wait_timeout as u64) },
            EntryView {
                key: "zram"@,
                value: yaml_of_thresholds(
                    v.zram.activation_threshold,
                    v.zram.deactivation_threshold,
                ),
            },
            EntryView {
                key: "swap"@,
                value: yaml_of_thresholds(
                    v.swap.activation_threshold,
                    v.swap.deactivation_threshold,
                ),
            },
        ],
    )
}

/// The canonical tree of a whole configuration.
pub open spec fn yaml_of_config(c: ConfigurationView) -> YamlView {
    YamlView::Mapping(
        seq![
            EntryView { key: "config_version"@, value: YamlView::Decimal(c.config_version) },
            EntryView {
                key: "dynamic_swappiness"@,
                value: yaml_of_dynamic_swappiness(c.dynamic_swappiness),
            },
            EntryView { key: "virtual_memory"@, value: yaml_of_virtual_memory(c.virtual_memory) },
        ],
    )
}

/// One mapping entry under a fixed key.
fn entry(key: &str, value: Yaml) -> (e: Entry)
    ensures
        e@ == (EntryView { key: key@, value: value@ }),
{
    Entry { key: key.to_owned(), value }
}

/// Renders one pair.
fn pair_to_yaml(p: &PressurePair) -> (y: Yaml)
    ensures
        y@ == yaml_of_pair(*p),
{
    let mut items: Vec<Yaml> = Vec::new();
    items.push(Yaml::Unsigned(p.pressure as u64));
    items.push(Yaml::Unsigned(p.value as u64));
    proof {
        lemma_list_view(items@);
        assert(list_view(items@) =~= yaml_of_pair(*p)->List_0);
    }
    Yaml::List(items)
}

/// Renders a pressure curve, order preserved.
fn pairs_to_yaml(ps: &Vec<PressurePair>) -> (y: Yaml)
    ensures
        y@ == yaml_of_pairs(ps@),
{
    let mut items: Vec<Yaml> = Vec::new();
    let n = ps.len();
    for i in 0..n
        invariant
            n == ps.len(),
            items@.len() == i,
            forall|j: int| 0 <= j < i ==> #[trigger] items@[j]@ == yaml_of_pair(ps@[j]),
    {
        items.push(pair_to_yaml(&ps[i]));
    }
    proof {
        lemma_list_view(items@);
        assert(list_view(items@) =~= ps@.map_values(|p: PressurePair| yaml_of_pair(p)));
    }
    Yaml::List(items)
}

/// Renders a `{max, min}` range.
fn range_to_yaml(r: &SwappinessRange) -> (y: Yaml)
    ensures
        y@ == yaml_of_range(*r),
{
    let mut es: Vec<Entry> = Vec::new();
    es.push(entry("max", Yaml::Unsigned(r.max as u64)));
    es.push(entry("min", Yaml::Unsigned(r.min as u64)));
    proof {
        lemma_mapping_view(es@);
        assert(mapping_view(es@) =~= yaml_of_range(*r)->Mapping_0);
    }
    Yaml::Mapping(es)
}

/// Renders an auto-threshold block.
fn auto_to_yaml(a: &AutoThreshold) -> (y: Yaml)
    ensures
        y@ == yaml_of_auto(a@),
{
    let mut es: Vec<Entry> = Vec::new();
    es.push(entry("max", Yaml::Unsigned(a.max as u64)));
    es.push(entry("min", Yaml::Unsigned(a.min as u64)));
    es.push(entry("time_window", Yaml::Text(a.time_window.clone())));
    proof {
        lemma_mapping_view(es@);
        assert(mapping_view(es@) =~= yaml_of_auto(a@)->Mapping_0);
    }
    Yaml::Mapping(es)
}

/// Renders an activation/deactivation threshold block.
fn thresholds_to_yaml(act: u32, deact: u32) -> (y: Yaml)
    ensures
        y@ == yaml_of_thresholds(act, deact),
{
    let mut es: Vec<Entry> = Vec::new();
    es.push(entry("activation_threshold", Yaml::Unsigned(act as u64)));
    es.push(entry("deactivation_threshold", Yaml::Unsigned(deact as u64)));
    proof {
        lemma_mapping_view(es@);
        assert(mapping_view(es@) =~= yaml_of_thresholds(act, deact)->Mapping_0);
    }
    Yaml::Mapping(es)
}

/// Renders the `threshold_psi` section.
fn psi_to_yaml(p: &ThresholdPsi) -> (y: Yaml)
    ensures
        y@ == yaml_of_psi(p@),
{
    let mut es: Vec<Entry> = Vec::new();
    es.push(entry("mode", Yaml::Text(p.mode.clone())));
    es.push(entry("levels", Yaml::Unsigned(p.levels as u64)));
    es.push(entry("auto_cpu", auto_to_yaml(&p.auto_cpu)));
    es.push(entry("auto_memory", auto_to_yaml(&p.auto_memory)));
    es.push(entry("auto_io", auto_to_yaml(&p.auto_io)));
    es.push(entry("cpu_pressure", pairs_to_yaml(&p.cpu_pressure)));
    es.push(entry("memory_pressure", pairs_to_yaml(&p.memory_pressure)));
    es.push(entry("io_pressure", pairs_to_yaml(&p.io_pressure)));
    proof {
        lemma_mapping_view(es@);
        assert(mapping_view(es@) =~= yaml_of_psi(p@)->Mapping_0);
    }
    Yaml::Mapping(es)
}

/// Renders the `dynamic_swappiness` section.
fn dynamic_swappiness_to_yaml(d: &DynamicSwappiness) -> (y: Yaml)
    ensures
        y@ == yaml_of_dynamic_swappiness(d@),
{
    let mut es: Vec<Entry> = Vec::new();
    es.push(entry("enable", Yaml::Boolean(d.enable)));
    es.push(entry("threshold_type", Yaml::Text(d.threshold_type.clone())));
    es.push(entry("swappiness_range", range_to_yaml(&d.swappiness_range)));
    es.push(entry("threshold_psi", psi_to_yaml(&d.threshold_psi)));
    es.push(entry("threshold_mem_pressure", pairs_to_yaml(&d.threshold_mem_pressure)));
    proof {
        lemma_mapping_view(es@);
        assert(mapping_view(es@) =~= yaml_of_dynamic_swappiness(d@)->Mapping_0);
    }
    Yaml::Mapping(es)
}

/// Renders the `virtual_memory` section.
fn virtual_memory_to_yaml(v: &VirtualMemory) -> (y: Yaml)
    ensures
        y@ == yaml_of_virtual_memory(*v),
{
    let mut es: Vec<Entry> = Vec::new();
    es.push(entry("enable", Yaml::Boolean(v.enable)));
    es.push(entry("pressure_binding", Yaml::Boolean(v.pressure_binding)));
    es.push(entry("deactivate_in_sleep", Yaml::Boolean(v.deactivate_in_sleep)));
    es.push(entry("wait_timeout", Yaml::Unsigned(v.wait_timeout as u64)));
    es.push(
        entry(
            "zram",
            thresholds_to_yaml(v.zram.activation_threshold, v.zram.deactivation_threshold),
        ),
    );
    es.push(
        entry(
            "swap",
            thresholds_to_yaml(v.swap.activation_threshold, v.swap.deactivation_threshold),
        ),
    );
    proof {
        lemma_mapping_view(es@);
        assert(mapping_view(es@) =~= yaml_of_virtual_memory(*v)->Mapping_0);
    }
    Yaml::Mapping(es)
}

/// Renders a configuration into its canonical tree, the one the round-trip
/// law speaks of.
pub fn config_to_yaml(c: &Configuration) -> (y: Yaml)
    ensures
        y@ == yaml_of_config(c@),
{
    let mut es: Vec<Entry> = Vec::new();
    es.push(entry("config_version", Yaml::Decimal(c.config_version)));
    es.push(entry("dynamic_swappiness", dynamic_swappiness_to_yaml(&c.dynamic_swappiness)));
    es.push(entry("virtual_memory", virtual_memory_to_yaml(&c.virtual_memory)));
    proof {
        lemma_mapping_view(es@);
        assert(mapping_view(es@) =~= yaml_of_config(c@)->Mapping_0);
    }
    Yaml::Mapping(es)
}

/// Binding a rendered pair gives the pair back.
proof fn lemma_pair_round_trip(p: PressurePair)
    ensures
        spec_bind_pair(yaml_of_pair(p)) == Some(p),
{
}

/// Binding a rendered curve gives the curve back, order preserved.
proof fn lemma_pairs_round_trip(ps: Seq<PressurePair>)
    ensures
        opt_pairs(Some(yaml_of_pairs(ps))) == Some(ps),
        spec_bind_pair_seq(ps.map_values(|p: PressurePair| yaml_of_pair(p))) == Some(ps),
    decreases ps.len(),
{
    let m = ps.map_values(|p: PressurePair| yaml_of_pair(p));
    if ps.len() == 0 {
        assert(m.len() == 0);
    } else {
        lemma_pairs_round_trip(ps.drop_last());
        lemma_pair_round_trip(ps.last());
        assert(m.drop_last() =~= ps.drop_last().map_values(|p: PressurePair| yaml_of_pair(p)));
        assert(m.last() == yaml_of_pair(ps.last()));
        assert(ps.drop_last().push(ps.last()) =~= ps);
    }
}

/// Binding a rendered range gives the range back.
proof fn lemma_range_round_trip(r: SwappinessRange)
    ensures
        opt_range(Some(yaml_of_range(r))) == Some(r),
{
    let m = yaml_of_range(r)->Mapping_0;
    reveal_strlit("max");
    reveal_strlit("min");
    assert("max"@[1] != "min"@[1]);
    lemma_map_get_found(m, "max"@, 0);
    lemma_map_get_found(m, "min"@, 1);
}

/// Binding a rendered auto-threshold block gives it back.
proof fn lemma_auto_round_trip(a: AutoThresholdView)
    ensures
        opt_auto(Some(yaml_of_auto(a))) == Some(a),
{
    let m = yaml_of_auto(a)->Mapping_0;
    reveal_strlit("max");
    reveal_strlit("min");
    reveal_strlit("time_window");
    assert("max"@.len() == 3);
    assert("min"@.len() == 3);
    assert("time_window"@.len() == 11);
    assert("max"@[1] != "min"@[1]);
    lemma_map_get_found(m, "max"@, 0);
    lemma_map_get_found(m, "min"@, 1);
    lemma_map_get_found(m, "time_window"@, 2);
}

/// Binding a rendered threshold block gives it back.
proof fn lemma_thresholds_round_trip(act: u32, deact: u32)
    ensures
        opt_thresholds(Some(yaml_of_thresholds(act, deact))) == Some((act, deact)),
{
    let m = yaml_of_thresholds(act, deact)->Mapping_0;
    reveal_strlit("activation_threshold");
    reveal_strlit("deactivation_threshold");
    assert("activation_threshold"@.len() == 20);
    assert("deactivation_threshold"@.len() == 22);
    lemma_map_get_found(m, "activation_threshold"@, 0);
    lemma_map_get_found(m, "deactivation_threshold"@, 1);
}

/// Binding a rendered `threshold_psi` section gives it back.
proof fn lemma_psi_round_trip(p: ThresholdPsiView)
    ensures
        opt_psi(Some(yaml_of_psi(p))) == Some(p),
{
    let m = yaml_of_psi(p)->Mapping_0;
    reveal_strlit("mode");
    reveal_strlit("levels");
    reveal_strlit("auto_cpu");
    reveal_strlit("auto_memory");
    reveal_strlit("auto_io");
    reveal_strlit("cpu_pressure");
    reveal_strlit("memory_pressure");
    reveal_strlit("io_pressure");
    assert("mode"@.len() == 4);
    assert("levels"@.len() == 6);
    assert("auto_cpu"@.len() == 8);
    assert("auto_memory"@.len() == 11);
    assert("auto_io"@.len() == 7);
    assert("cpu_pressure"@.len() == 12);
    assert("memory_pressure"@.len() == 15);
    assert("io_pressure"@.len() == 11);
    assert("auto_memory"@[0] != "io_pressure"@[0]);
    lemma_map_get_found(m, "mode"@, 0);
    lemma_map_get_found(m, "levels"@, 1);
    lemma_map_get_found(m, "auto_cpu"@, 2);
    lemma_map_get_found(m, "auto_memory"@, 3);
    lemma_map_get_found(m, "auto_io"@, 4);
    lemma_map_get_found(m, "cpu_pressure"@, 5);
    lemma_map_get_found(m, "memory_pressure"@, 6);
    lemma_map_get_found(m, "io_pressure"@, 7);
    lemma_auto_round_trip(p.auto_cpu);
    lemma_auto_round_trip(p.auto_memory);
    lemma_auto_round_trip(p.auto_io);
    lemma_pairs_round_trip(p.cpu_pressure);
    lemma_pairs_round_trip(p.memory_pressure);
    lemma_pairs_round_trip(p.io_pressure);
}

/// Binding a rendered `dynamic_swappiness` section gives it back.
proof fn lemma_dynamic_swappiness_round_trip(d: DynamicSwappinessView)
    ensures
        opt_dynamic_swappiness(Some(yaml_of_dynamic_swappiness(d))) == Some(d),
{
    let m = yaml_of_dynamic_swappiness(d)->Mapping_0;
    reveal_strlit("enable");
    reveal_strlit("threshold_type");
    reveal_strlit("swappiness_range");
    reveal_strlit("threshold_psi");
    reveal_strlit("threshold_mem_pressure");
    assert("enable"@.len() == 6);
    assert("threshold_type"@.len() == 14);
    assert("swappiness_range"@.len() == 16);
    assert("threshold_psi"@.len() == 13);
    assert("threshold_mem_pressure"@.len() == 22);
    lemma_map_get_found(m, "enable"@, 0);
    lemma_map_get_found(m, "threshold_type"@, 1);
    lemma_map_get_found(m, "swappiness_range"@, 2);
    lemma_map_get_found(m, "threshold_psi"@, 3);
    lemma_map_get_found(m, "threshold_mem_pressure"@, 4);
    lemma_range_round_trip(d.swappiness_range);
    lemma_psi_round_trip(d.threshold_psi);
    lemma_pairs_round_trip(d.threshold_mem_pressure);
}

/// Binding a rendered `virtual_memory` section gives it back.
proof fn lemma_virtual_memory_round_trip(v: VirtualMemory)
    ensures
        opt_virtual_memory(Some(yaml_of_virtual_memory(v))) == Some(v),
{
    let m = yaml_of_virtual_memory(v)->Mapping_0;
    reveal_strlit("enable");
    reveal_strlit("pressure_binding");
    reveal_strlit("deactivate_in_sleep");
    reveal_strlit("wait_timeout");
    reveal_strlit("zram");
    reveal_strlit("swap");
    assert("enable"@.len() == 6);
    assert("pressure_binding"@.len() == 16);
    assert("deactivate_in_sleep"@.len() == 19);
    assert("wait_timeout"@.len() == 12);
    assert("zram"@.len() == 4);
    assert("swap"@.len() == 4);
    assert("zram"@[0] != "swap"@[0]);
    lemma_map_get_found(m, "enable"@, 0);
    lemma_map_get_found(m, "pressure_binding"@, 1);
    lemma_map_get_found(m, "deactivate_in_sleep"@, 2);
    lemma_map_get_found(m, "wait_timeout"@, 3);
    lemma_map_get_found(m, "zram"@, 4);
    lemma_map_get_found(m, "swap"@, 5);
    lemma_thresholds_round_trip(v.zram.activation_threshold, v.zram.deactivation_threshold);
    lemma_thresholds_round_trip(v.swap.activation_threshold, v.swap.deactivation_threshold);
}

/// Round-trip fidelity of the schema: binding the rendered tree of any
/// configuration returns that configuration, every field and every pair of
/// every curve equal, order preserved.
pub proof fn lemma_config_round_trip(c: ConfigurationView)
    ensures
        spec_bind_config(yaml_of_config(c)) == Some(c),
{
    let m = yaml_of_config(c)->Mapping_0;
    reveal_strlit("config_version");
    reveal_strlit("dynamic_swappiness");
    reveal_strlit("virtual_memory");
    assert("config_version"@.len() == 14);
    assert("dynamic_swappiness"@.len() == 18);
    assert("virtual_memory"@.len() == 14);
    assert("config_version"@[0] != "virtual_memory"@[0]);
    lemma_map_get_found(m, "config_version"@, 0);
    lemma_map_get_found(m, "dynamic_swappiness"@, 1);
    lemma_map_get_found(m, "virtual_memory"@, 2);
    lemma_dynamic_swappiness_round_trip(c.dynamic_swappiness);
    lemma_virtual_memory_round_trip(c.virtual_memory);
}

} // verus!
