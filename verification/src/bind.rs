//! Binding a parsed document tree to the fixed schema.
//!
//! Every binder is total on the tree: it returns the schema value exactly
//! when the node has the required shape (all mandatory fields present and of
//! the right type, unknown keys ignored) and nothing otherwise.  The spec
//! functions here are the authoritative statement of that shape.

use vstd::prelude::*;
use crate::schema::{
    AutoThreshold, AutoThresholdView, Configuration, ConfigurationView, DynamicSwappiness,
    DynamicSwappinessView, PressurePair, Swap, SwappinessRange, ThresholdPsi, ThresholdPsiView,
    VirtualMemory, Zram,
};
use crate::yaml::{DecimalLit, Yaml, YamlView, lemma_list_view, list_view, lookup, map_get};

verus! {

broadcast use vstd::std_specs::vec::group_vec_axioms;

/// A boolean scalar.
pub open spec fn opt_bool(o: Option<YamlView>) -> Option<bool> {
    match o {
        Some(YamlView::Boolean(b)) => Some(b),
        _ => None,
    }
}

/// An unsigned scalar that fits in 32 bits.
pub open spec fn opt_u32(o: Option<YamlView>) -> Option<u32> {
    match o {
        Some(YamlView::Unsigned(u)) => if u <= u32::MAX {
            Some(u as u32)
        } else {
            None
        },
        _ => None,
    }
}

/// A text scalar.
pub open spec fn opt_text(o: Option<YamlView>) -> Option<Seq<char>> {
    match o {
        Some(YamlView::Text(s)) => Some(s),
        _ => None,
    }
}

/// The version number: a decimal literal, or an unsigned integer read as a
/// whole number of versions.
pub open spec fn opt_version(o: Option<YamlView>) -> Option<DecimalLit> {
    match o {
        Some(YamlView::Decimal(d)) => Some(d),
        Some(YamlView::Unsigned(u)) => Some(DecimalLit { whole: u, frac: 0, frac_digits: 0 }),
        _ => None,
    }
}

/// A two-element `[pressure, value]` list of 32-bit unsigned scalars.
pub open spec fn spec_bind_pair(y: YamlView) -> Option<PressurePair> {
    match y {
        YamlView::List(items) => if items.len() == 2 && opt_u32(Some(items[0])) is Some
            && opt_u32(Some(items[1])) is Some {
            Some(
                PressurePair {
                    pressure: opt_u32(Some(items[0]))->0,
                    value: opt_u32(Some(items[1]))->0,
                },
            )
        } else {
            None
        },
        _ => None,
    }
}

/// Every item of the sequence bound as a pair, order preserved.
pub open spec fn spec_bind_pair_seq(items: Seq<YamlView>) -> Option<Seq<PressurePair>>
    decreases items.len(),
{
    if items.len() == 0 {
        Some(Seq::empty())
    } else {
        match (spec_bind_pair_seq(items.drop_last()), spec_bind_pair(items.last())) {
            (Some(ps), Some(p)) => Some(ps.push(p)),
            _ => None,
        }
    }
}

/// A pressure curve: a list of `[pressure, value]` pairs.
pub open spec fn opt_pairs(o: Option<YamlView>) -> Option<Seq<PressurePair>> {
    match o {
        Some(YamlView::List(items)) => spec_bind_pair_seq(items),
        _ => None,
    }
}

/// A `{max, min}` mapping.
pub open spec fn opt_range(o: Option<YamlView>) -> Option<SwappinessRange> {
    match o {
        Some(YamlView::Mapping(m)) => {
            let max = opt_u32(map_get(m, "max"@));
            let min = opt_u32(map_get(m, "min"@));
            if max is Some && min is Some {
                Some(SwappinessRange { max: max->0, min: min->0 })
            } else {
                None
            }
        },
        _ => None,
    }
}

/// A `{max, min, time_window}` mapping.
pub open spec fn opt_auto(o: Option<YamlView>) -> Option<AutoThresholdView> {
    match o {
        Some(YamlView::Mapping(m)) => {
            let max = opt_u32(map_get(m, "max"@));
            let min = opt_u32(map_get(m, "min"@));
            let tw = opt_text(map_get(m, "time_window"@));
            if max is Some && min is Some && tw is Some {
                Some(AutoThresholdView { max: max->0, min: min->0, time_window: tw->0 })
            } else {
                None
            }
        },
        _ => None,
    }
}

/// An `{activation_threshold, deactivation_threshold}` mapping.
pub open spec fn opt_thresholds(o: Option<YamlView>) -> Option<(u32, u32)> {
    match o {
        Some(YamlView::Mapping(m)) => {
            let act = opt_u32(map_get(m, "activation_threshold"@));
            let deact = opt_u32(map_get(m, "deactivation_threshold"@));
            if act is Some && deact is Some {
                Some((act->0, deact->0))
            } else {
                None
            }
        },
        _ => None,
    }
}

/// The `threshold_psi` section.
pub open spec fn opt_psi(o: Option<YamlView>) -> Option<ThresholdPsiView> {
    match o {
        Some(YamlView::Mapping(m)) => {
            let mode = opt_text(map_get(m, "mode"@));
            let levels = opt_u32(map_get(m, "levels"@));
            let auto_cpu = opt_auto(map_get(m, "auto_cpu"@));
            let auto_memory = opt_auto(map_get(m, "auto_memory"@));
            let auto_io = opt_auto(map_get(m, "auto_io"@));
            let cpu_pressure = opt_pairs(map_get(m, "cpu_pressure"@));
            let memory_pressure = opt_pairs(map_get(m, "memory_pressure"@));
            let io_pressure = opt_pairs(map_get(m, "io_pressure"@));
            if mode is Some && levels is Some && auto_cpu is Some && auto_memory is Some
                && auto_io is Some && cpu_pressure is Some && memory_pressure is Some
                && io_pressure is Some {
                Some(
                    ThresholdPsiView {
                        mode: mode->0,
                        levels: levels->0,
                        auto_cpu: auto_cpu->0,
                        auto_memory: auto_memory->0,
                        auto_io: auto_io->0,
                        cpu_pressure: cpu_pressure->0,
                        memory_pressure: memory_pressure->0,
                        io_pressure: io_pressure->0,
                    },
                )
            } else {
                None
            }
        },
        _ => None,
    }
}

/// The `dynamic_swappiness` section.
pub open spec fn opt_dynamic_swappiness(o: Option<YamlView>) -> Option<DynamicSwappinessView> {
    match o {
        Some(YamlView::Mapping(m)) => {
            let enable = opt_bool(map_get(m, "enable"@));
            let threshold_type = opt_text(map_get(m, "threshold_type"@));
            let swappiness_range = opt_range(map_get(m, "swappiness_range"@));
            let threshold_psi = opt_psi(map_get(m, "threshold_psi"@));
            let threshold_mem_pressure = opt_pairs(map_get(m, "threshold_mem_pressure"@));
            if enable is Some && threshold_type is Some && swappiness_range is Some
                && threshold_psi is Some && threshold_mem_pressure is Some {
                Some(
                    DynamicSwappinessView {
                        enable: enable->0,
                        threshold_type: threshold_type->0,
                        swappiness_range: swappiness_range->0,
                        threshold_psi: threshold_psi->0,
                        threshold_mem_pressure: threshold_mem_pressure->0,
                    },
                )
            } else {
                None
            }
        },
        _ => None,
    }
}

/// The `virtual_memory` section.
pub open spec fn opt_virtual_memory(o: Option<YamlView>) -> Option<VirtualMemory> {
    match o {
        Some(YamlView::Mapping(m)) => {
            let enable = opt_bool(map_get(m, "enable"@));
            let pressure_binding = opt_bool(map_get(m, "pressure_binding"@));
            let deactivate_in_sleep = opt_bool(map_get(m, "deactivate_in_sleep"@));
            let wait_timeout = opt_u32(map_get(m, "wait_timeout"@));
            let zram = opt_thresholds(map_get(m, "zram"@));
            let swap = opt_thresholds(map_get(m, "swap"@));
            if enable is Some && pressure_binding is Some && deactivate_in_sleep is Some
                && wait_timeout is Some && zram is Some && swap is Some {
                let z = zram->0;
                let s = swap->0;
                Some(
                    VirtualMemory {
                        enable: enable->0,
                        pressure_binding: pressure_binding->0,
                        deactivate_in_sleep: deactivate_in_sleep->0,
                        wait_timeout: wait_timeout->0,
                        zram: Zram { activation_threshold: z.0, deactivation_threshold: z.1 },
                        swap: Swap { activation_threshold: s.0, deactivation_threshold: s.1 },
                    },
                )
            } else {
                None
            }
        },
        _ => None,
    }
}

/// The whole document: exactly when this returns a value does the document
/// match the schema.
pub open spec fn spec_bind_config(y: YamlView) -> Option<ConfigurationView> {
    match y {
        YamlView::Mapping(m) => {
            let config_version = opt_version(map_get(m, "config_version"@));
            let dynamic_swappiness = opt_dynamic_swappiness(map_get(m, "dynamic_swappiness"@));
            let virtual_memory = opt_virtual_memory(map_get(m, "virtual_memory"@));
            if config_version is Some && dynamic_swappiness is Some && virtual_memory is Some {
                Some(
                    ConfigurationView {
                        config_version: config_version->0,
                        dynamic_swappiness: dynamic_swappiness->0,
                        virtual_memory: virtual_memory->0,
                    },
                )
            } else {
                None
            }
        },
        _ => None,
    }
}

fn bind_bool(y: &Yaml) -> (r: Option<bool>)
    ensures
        r == opt_bool(Some(y@)),
{
    match y {
        Yaml::Boolean(b) => Some(*b),
        _ => None,
    }
}

fn bind_u32(y: &Yaml) -> (r: Option<u32>)
    ensures
        r == opt_u32(Some(y@)),
{
    match y {
        Yaml::Unsigned(u) => if *u <= u32::MAX as u64 {
            Some(*u as u32)
        } else {
            None
        },
        _ => None,
    }
}

fn bind_text(y: &Yaml) -> (r: Option<String>)
    ensures
        match r {
            Some(s) => opt_text(Some(y@)) == Some(s@),
            None => opt_text(Some(y@)) is None,
        },
{
    match y {
        Yaml::Text(s) => Some(s.clone()),
        _ => None,
    }
}

fn bind_version(y: &Yaml) -> (r: Option<DecimalLit>)
    ensures
        r == opt_version(Some(y@)),
{
    match y {
        Yaml::Decimal(d) => Some(*d),
        Yaml::Unsigned(u) => Some(DecimalLit { whole: *u, frac: 0, frac_digits: 0 }),
        _ => None,
    }
}

fn bind_pair(y: &Yaml) -> (r: Option<PressurePair>)
    ensures
        r == spec_bind_pair(y@),
{
    match y {
        Yaml::List(items) => {
            proof {
                lemma_list_view(items@);
            }
            if items.len() == 2 {
                let p = bind_u32(&items[0]);
                let v = bind_u32(&items[1]);
                match (p, v) {
                    (Some(pressure), Some(value)) => Some(PressurePair { pressure, value }),
                    _ => None,
                }
            } else {
                None
            }
        },
        _ => None,
    }
}

fn bind_pairs(y: &Yaml) -> (r: Option<Vec<PressurePair>>)
    ensures
        match r {
            Some(ps) => opt_pairs(Some(y@)) == Some(ps@),
            None => opt_pairs(Some(y@)) is None,
        },
{
    match y {
        Yaml::List(items) => {
            let ghost iv = list_view(items@);
            proof {
                lemma_list_view(items@);
                assert(iv.take(0) =~= Seq::<YamlView>::empty());
            }
            let mut out: Vec<PressurePair> = Vec::new();
            let n = items.len();
            for i in 0..n
                invariant
                    n == items.len(),
                    iv == list_view(items@),
                    iv.len() == n,
                    forall|j: int| 0 <= j < n ==> #[trigger] iv[j] == items@[j]@,
                    opt_pairs(Some(y@)) == spec_bind_pair_seq(iv),
                    spec_bind_pair_seq(iv.take(i as int)) == Some(out@),
            {
                let p = bind_pair(&items[i]);
                proof {
                    assert(iv.take(i + 1).drop_last() =~= iv.take(i as int));
                    assert(iv.take(i + 1).last() == iv[i as int]);
                }
                match p {
                    Some(pair) => {
                        out.push(pair);
                    },
                    None => {
                        proof {
                            lemma_bind_pair_seq_bad(iv, i as int);
                        }
                        return None;
                    },
                }
            }
            proof {
                assert(iv.take(n as int) =~= iv);
            }
            Some(out)
        },
        _ => None,
    }
}

/// A sequence with an unbindable item binds to nothing.
proof fn lemma_bind_pair_seq_bad(items: Seq<YamlView>, i: int)
    requires
        0 <= i < items.len(),
        spec_bind_pair(items[i]) is None,
    ensures
        spec_bind_pair_seq(items) is None,
    decreases items.len(),
{
    if items.len() > 0 {
        if i < items.len() - 1 {
            lemma_bind_pair_seq_bad(items.drop_last(), i);
        }
    }
}

fn bind_range(y: &Yaml) -> (r: Option<SwappinessRange>)
    ensures
        r == opt_range(Some(y@)),
{
    match y {
        Yaml::Mapping(entries) => {
            let max = match lookup(entries, "max") {
                Some(v) => bind_u32(v),
                None => None,
            };
            let min = match lookup(entries, "min") {
                Some(v) => bind_u32(v),
                None => None,
            };
            match (max, min) {
                (Some(max), Some(min)) => Some(SwappinessRange { max, min }),
                _ => None,
            }
        },
        _ => None,
    }
}

fn bind_auto(y: &Yaml) -> (r: Option<AutoThreshold>)
    ensures
        match r {
            Some(a) => opt_auto(Some(y@)) == Some(a@),
            None => opt_auto(Some(y@)) is None,
        },
{
    match y {
        Yaml::Mapping(entries) => {
            let max = match lookup(entries, "max") {
                Some(v) => bind_u32(v),
                None => None,
            };
            let min = match lookup(entries, "min") {
                Some(v) => bind_u32(v),
                None => None,
            };
            let tw = match lookup(entries, "time_window") {
                Some(v) => bind_text(v),
                None => None,
            };
            match (max, min, tw) {
                (Some(max), Some(min), Some(time_window)) => Some(
                    AutoThreshold { max, min, time_window },
                ),
                _ => None,
            }
        },
        _ => None,
    }
}

fn bind_thresholds(y: &Yaml) -> (r: Option<(u32, u32)>)
    ensures
        r == opt_thresholds(Some(y@)),
{
    match y {
        Yaml::Mapping(entries) => {
            let act = match lookup(entries, "activation_threshold") {
                Some(v) => bind_u32(v),
                None => None,
            };
            let deact = match lookup(entries, "deactivation_threshold") {
                Some(v) => bind_u32(v),
                None => None,
            };
            match (act, deact) {
                (Some(act), Some(deact)) => Some((act, deact)),
                _ => None,
            }
        },
        _ => None,
    }
}

fn bind_psi(y: &Yaml) -> (r: Option<ThresholdPsi>)
    ensures
        match r {
            Some(p) => opt_psi(Some(y@)) == Some(p@),
            None => opt_psi(Some(y@)) is None,
        },
{
    match y {
        Yaml::Mapping(entries) => {
            let mode = match lookup(entries, "mode") {
                Some(v) => bind_text(v),
                None => None,
            };
            let levels = match lookup(entries, "levels") {
                Some(v) => bind_u32(v),
                None => None,
            };
            let auto_cpu = match lookup(entries, "auto_cpu") {
                Some(v) => bind_auto(v),
                None => None,
            };
            let auto_memory = match lookup(entries, "auto_memory") {
                Some(v) => bind_auto(v),
                None => None,
            };
            let auto_io = match lookup(entries, "auto_io") {
                Some(v) => bind_auto(v),
                None => None,
            };
            let cpu_pressure = match lookup(entries, "cpu_pressure") {
                Some(v) => bind_pairs(v),
                None => None,
            };
            let memory_pressure = match lookup(entries, "memory_pressure") {
                Some(v) => bind_pairs(v),
                None => None,
            };
            let io_pressure = match lookup(entries, "io_pressure") {
                Some(v) => bind_pairs(v),
                None => None,
            };
            match (mode, levels, auto_cpu, auto_memory, auto_io) {
                (Some(mode), Some(levels), Some(auto_cpu), Some(auto_memory), Some(auto_io)) => {
                    match (cpu_pressure, memory_pressure, io_pressure) {
                        (Some(cpu_pressure), Some(memory_pressure), Some(io_pressure)) => Some(
                            ThresholdPsi {
                                mode,
                                levels,
                                auto_cpu,
                                auto_memory,
                                auto_io,
                                cpu_pressure,
                                memory_pressure,
                                io_pressure,
                            },
                        ),
                        _ => None,
                    }
                },
                _ => None,
            }
        },
        _ => None,
    }
}

fn bind_dynamic_swappiness(y: &Yaml) -> (r: Option<DynamicSwappiness>)
    ensures
        match r {
            Some(d) => opt_dynamic_swappiness(Some(y@)) == Some(d@),
            None => opt_dynamic_swappiness(Some(y@)) is None,
        },
{
    match y {
        Yaml::Mapping(entries) => {
            let enable = match lookup(entries, "enable") {
                Some(v) => bind_bool(v),
                None => None,
            };
            let threshold_type = match lookup(entries, "threshold_type") {
                Some(v) => bind_text(v),
                None => None,
            };
            let swappiness_range = match lookup(entries, "swappiness_range") {
                Some(v) => bind_range(v),
                None => None,
            };
            let threshold_psi = match lookup(entries, "threshold_psi") {
                Some(v) => bind_psi(v),
                None => None,
            };
            let threshold_mem_pressure = match lookup(entries, "threshold_mem_pressure") {
                Some(v) => bind_pairs(v),
                None => None,
            };
            match (enable, threshold_type, swappiness_range, threshold_psi, threshold_mem_pressure) {
                (
                    Some(enable),
                    Some(threshold_type),
                    Some(swappiness_range),
                    Some(threshold_psi),
                    Some(threshold_mem_pressure),
                ) => Some(
                    DynamicSwappiness {
                        enable,
                        threshold_type,
                        swappiness_range,
                        threshold_psi,
                        threshold_mem_pressure,
                    },
                ),
                _ => None,
            }
        },
        _ => None,
    }
}

fn bind_virtual_memory(y: &Yaml) -> (r: Option<VirtualMemory>)
    ensures
        r == opt_virtual_memory(Some(y@)),
{
    match y {
        Yaml::Mapping(entries) => {
            let enable = match lookup(entries, "enable") {
                Some(v) => bind_bool(v),
                None => None,
            };
            let pressure_binding = match lookup(entries, "pressure_binding") {
                Some(v) => bind_bool(v),
                None => None,
            };
            let deactivate_in_sleep = match lookup(entries, "deactivate_in_sleep") {
                Some(v) => bind_bool(v),
                None => None,
            };
            let wait_timeout = match lookup(entries, "wait_timeout") {
                Some(v) => bind_u32(v),
                None => None,
            };
            let zram = match lookup(entries, "zram") {
                Some(v) => bind_thresholds(v),
                None => None,
            };
            let swap = match lookup(entries, "swap") {
                Some(v) => bind_thresholds(v),
                None => None,
            };
            match (enable, pressure_binding, deactivate_in_sleep, wait_timeout, zram, swap) {
                (
                    Some(enable),
                    Some(pressure_binding),
                    Some(deactivate_in_sleep),
                    Some(wait_timeout),
                    Some(z),
                    Some(s),
                ) => Some(
                    VirtualMemory {
                        enable,
                        pressure_binding,
                        deactivate_in_sleep,
                        wait_timeout,
                        zram: Zram { activation_threshold: z.0, deactivation_threshold: z.1 },
                        swap: Swap { activation_threshold: s.0, deactivation_threshold: s.1 },
                    },
                ),
                _ => None,
            }
        },
        _ => None,
    }
}

/// Bind a whole document to the schema: returns the configuration exactly
/// when `spec_bind_config` accepts the document's model.
pub fn bind_configuration(y: &Yaml) -> (r: Option<Configuration>)
    ensures
        match r {
            Some(c) => spec_bind_config(y@) == Some(c@),
            None => spec_bind_config(y@) is None,
        },
{
    match y {
        Yaml::Mapping(entries) => {
            let config_version = match lookup(entries, "config_version") {
                Some(v) => bind_version(v),
                None => None,
            };
            let dynamic_swappiness = match lookup(entries, "dynamic_swappiness") {
                Some(v) => bind_dynamic_swappiness(v),
                None => None,
            };
            let virtual_memory = match lookup(entries, "virtual_memory") {
                Some(v) => bind_virtual_memory(v),
                None => None,
            };
            match (config_version, dynamic_swappiness, virtual_memory) {
                (Some(config_version), Some(dynamic_swappiness), Some(virtual_memory)) => Some(
                    Configuration { config_version, dynamic_swappiness, virtual_memory },
                ),
                _ => None,
            }
        },
        _ => None,
    }
}

} // verus!
