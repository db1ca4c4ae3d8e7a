//! The configuration schema: a fixed tree of records.
//!
//! Every field is mandatory; the loader fails when one is missing or of the
//! wrong type.  No numeric relationship (such as `min <= max`) is enforced:
//! the schema is deliberately permissive beyond types and presence.

use vstd::prelude::*;
use crate::yaml::DecimalLit;

verus! {

/// One `[pressure, value]` pair of a pressure curve.
#[derive(Clone, Copy, Debug, PartialEq, Eq, Structural)]
pub struct PressurePair {
    pub pressure: u32,
    pub value: u32,
}

/// The allowed swappiness range.
#[derive(Clone, Copy, Debug, PartialEq, Eq, Structural)]
pub struct SwappinessRange {
    pub max: u32,
    pub min: u32,
}

/// An automatic pressure-stall threshold block.
#[derive(Clone, Debug, PartialEq)]
pub struct AutoThreshold {
    pub max: u32,
    pub min: u32,
    pub time_window: String,
}

/// Pressure-stall-information thresholds.
#[derive(Clone, Debug, PartialEq)]
pub struct ThresholdPsi {
    pub mode: String,
    pub levels: u32,
    pub auto_cpu: AutoThreshold,
    pub auto_memory: AutoThreshold,
    pub auto_io: AutoThreshold,
    pub cpu_pressure: Vec<PressurePair>,
    pub memory_pressure: Vec<PressurePair>,
    pub io_pressure: Vec<PressurePair>,
}

/// Dynamic swappiness tuning.
#[derive(Clone, Debug, PartialEq)]
pub struct DynamicSwappiness {
    pub enable: bool,
    pub threshold_type: String,
    pub swappiness_range: SwappinessRange,
    pub threshold_psi: ThresholdPsi,
    pub threshold_mem_pressure: Vec<PressurePair>,
}

/// Zram activation thresholds.
#[derive(Clone, Copy, Debug, PartialEq, Eq, Structural)]
pub struct Zram {
    pub activation_threshold: u32,
    pub deactivation_threshold: u32,
}

/// Swap activation thresholds.
#[derive(Clone, Copy, Debug, PartialEq, Eq, Structural)]
pub struct Swap {
    pub activation_threshold: u32,
    pub deactivation_threshold: u32,
}

/// Virtual memory switches.
#[derive(Clone, Copy, Debug, PartialEq, Eq, Structural)]
pub struct VirtualMemory {
    pub enable: bool,
    pub pressure_binding: bool,
    pub deactivate_in_sleep: bool,
    pub wait_timeout: u32,
    pub zram: Zram,
    pub swap: Swap,
}

/// The loaded configuration tree.
#[derive(Clone, Debug, PartialEq)]
pub struct Configuration {
    pub config_version: DecimalLit,
    pub dynamic_swappiness: DynamicSwappiness,
    pub virtual_memory: VirtualMemory,
}

/// Mathematical model of an `AutoThreshold`.
pub struct AutoThresholdView {
    pub max: u32,
    pub min: u32,
    pub time_window: Seq<char>,
}

/// Mathematical model of a `ThresholdPsi`.
pub struct ThresholdPsiView {
    pub mode: Seq<char>,
    pub levels: u32,
    pub auto_cpu: AutoThresholdView,
    pub auto_memory: AutoThresholdView,
    pub auto_io: AutoThresholdView,
    pub cpu_pressure: Seq<PressurePair>,
    pub memory_pressure: Seq<PressurePair>,
    pub io_pressure: Seq<PressurePair>,
}

/// Mathematical model of a `DynamicSwappiness`.
pub struct DynamicSwappinessView {
    pub enable: bool,
    pub threshold_type: Seq<char>,
    pub swappiness_range: SwappinessRange,
    pub threshold_psi: ThresholdPsiView,
    pub threshold_mem_pressure: Seq<PressurePair>,
}

/// Mathematical model of a `Configuration`.
pub struct ConfigurationView {
    pub config_version: DecimalLit,
    pub dynamic_swappiness: DynamicSwappinessView,
    pub virtual_memory: VirtualMemory,
}

impl View for AutoThreshold {
    type V = AutoThresholdView;

    open spec fn view(&self) -> AutoThresholdView {
        AutoThresholdView { max: self.max, min: self.min, time_window: self.time_window@ }
    }
}

impl View for ThresholdPsi {
    type V = ThresholdPsiView;

    open spec fn view(&self) -> ThresholdPsiView {
        ThresholdPsiView {
            mode: self.mode@,
            levels: self.levels,
            auto_cpu: self.auto_cpu@,
            auto_memory: self.auto_memory@,
            auto_io: self.auto_io@,
            cpu_pressure: self.cpu_pressure@,
            memory_pressure: self.memory_pressure@,
            io_pressure: self.io_pressure@,
        }
    }
}

impl View for DynamicSwappiness {
    type V = DynamicSwappinessView;

    open spec fn view(&self) -> DynamicSwappinessView {
        DynamicSwappinessView {
            enable: self.enable,
            threshold_type: self.threshold_type@,
            swappiness_range: self.swappiness_range,
            threshold_psi: self.threshold_psi@,
            threshold_mem_pressure: self.threshold_mem_pressure@,
        }
    }
}

impl View for Configuration {
    type V = ConfigurationView;

    open spec fn view(&self) -> ConfigurationView {
        ConfigurationView {
            config_version: self.config_version,
            dynamic_swappiness: self.dynamic_swappiness@,
            virtual_memory: self.virtual_memory,
        }
    }
}

} // verus!
