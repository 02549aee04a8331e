//! The contexts that the daemon registers, as one type.

use vstd::prelude::*;

use crate::battery_context::{BatteryContext, BatteryModel};
use crate::brightness_context::{BrightnessContext, BrightnessModel};
use crate::context::{
    Action, ActionModel, ContextError, Emission, Outcome, Probe, ProbeModel, Reading,
    RsbarContextContent,
};
use crate::hyprland_context::{HyprlandContext, HyprlandModel};
use crate::time_context::{TimeContext, TimeModel};
use crate::volume_context::{VolumeContext, VolumeModel};

verus! {

/// One of the contexts of the daemon. It behaves as the context it holds.
pub enum RsbarContext {
    Volume(VolumeContext),
    Brightness(BrightnessContext),
    Hyprland(HyprlandContext),
    Time(TimeContext),
    Battery(BatteryContext),
}

/// What one of the contexts of the daemon holds.
pub enum RsbarModel {
    Volume(VolumeModel),
    Brightness(BrightnessModel),
    Hyprland(HyprlandModel),
    Time(TimeModel),
    Battery(BatteryModel),
}

impl RsbarContextContent for RsbarContext {
    type Model = RsbarModel;

    open spec fn model(&self) -> RsbarModel {
        match self {
            RsbarContext::Volume(context) => RsbarModel::Volume(context.model()),
            RsbarContext::Brightness(context) => RsbarModel::Brightness(context.model()),
            RsbarContext::Hyprland(context) => RsbarModel::Hyprland(context.model()),
            RsbarContext::Time(context) => RsbarModel::Time(context.model()),
            RsbarContext::Battery(context) => RsbarModel::Battery(context.model()),
        }
    }

    open spec fn wf(m: RsbarModel) -> bool {
        match m {
            RsbarModel::Volume(inner) => VolumeContext::wf(inner),
            RsbarModel::Brightness(inner) => BrightnessContext::wf(inner),
            RsbarModel::Hyprland(inner) => HyprlandContext::wf(inner),
            RsbarModel::Time(inner) => TimeContext::wf(inner),
            RsbarModel::Battery(inner) => BatteryContext::wf(inner),
        }
    }

    open spec fn attached(m: RsbarModel) -> bool {
        match m {
            RsbarModel::Volume(inner) => VolumeContext::attached(inner),
            RsbarModel::Brightness(inner) => BrightnessContext::attached(inner),
            RsbarModel::Hyprland(inner) => HyprlandContext::attached(inner),
            RsbarModel::Time(inner) => TimeContext::attached(inner),
            RsbarModel::Battery(inner) => BatteryContext::attached(inner),
        }
    }

    open spec fn snapshot(m: RsbarModel) -> Seq<(Seq<char>, Seq<char>)> {
        match m {
            RsbarModel::Volume(inner) => VolumeContext::snapshot(inner),
            RsbarModel::Brightness(inner) => BrightnessContext::snapshot(inner),
            RsbarModel::Hyprland(inner) => HyprlandContext::snapshot(inner),
            RsbarModel::Time(inner) => TimeContext::snapshot(inner),
            RsbarModel::Battery(inner) => BatteryContext::snapshot(inner),
        }
    }

    open spec fn init_wanted(m: RsbarModel) -> ProbeModel {
        match m {
            RsbarModel::Volume(inner) => VolumeContext::init_wanted(inner),
            RsbarModel::Brightness(inner) => BrightnessContext::init_wanted(inner),
            RsbarModel::Hyprland(inner) => HyprlandContext::init_wanted(inner),
            RsbarModel::Time(inner) => TimeContext::init_wanted(inner),
            RsbarModel::Battery(inner) => BatteryContext::init_wanted(inner),
        }
    }

    open spec fn wanted(m: RsbarModel) -> ProbeModel {
        match m {
            RsbarModel::Volume(inner) => VolumeContext::wanted(inner),
            RsbarModel::Brightness(inner) => BrightnessContext::wanted(inner),
            RsbarModel::Hyprland(inner) => HyprlandContext::wanted(inner),
            RsbarModel::Time(inner) => TimeContext::wanted(inner),
            RsbarModel::Battery(inner) => BatteryContext::wanted(inner),
        }
    }

    open spec fn on_init(m: RsbarModel, reading: Reading) -> Outcome<(), RsbarModel> {
        match m {
            RsbarModel::Volume(inner) => {
                let outcome = VolumeContext::on_init(inner, reading);
                Outcome { result: outcome.result, state: RsbarModel::Volume(outcome.state) }
            },
            RsbarModel::Brightness(inner) => {
                let outcome = BrightnessContext::on_init(inner, reading);
                Outcome { result: outcome.result, state: RsbarModel::Brightness(outcome.state) }
            },
            RsbarModel::Hyprland(inner) => {
                let outcome = HyprlandContext::on_init(inner, reading);
                Outcome { result: outcome.result, state: RsbarModel::Hyprland(outcome.state) }
            },
            RsbarModel::Time(inner) => {
                let outcome = TimeContext::on_init(inner, reading);
                Outcome { result: outcome.result, state: RsbarModel::Time(outcome.state) }
            },
            RsbarModel::Battery(inner) => {
                let outcome = BatteryContext::on_init(inner, reading);
                Outcome { result: outcome.result, state: RsbarModel::Battery(outcome.state) }
            },
        }
    }

    open spec fn on_update(m: RsbarModel, reading: Reading) -> Outcome<bool, RsbarModel> {
        match m {
            RsbarModel::Volume(inner) => {
                let outcome = VolumeContext::on_update(inner, reading);
                Outcome { result: outcome.result, state: RsbarModel::Volume(outcome.state) }
            },
            RsbarModel::Brightness(inner) => {
                let outcome = BrightnessContext::on_update(inner, reading);
                Outcome { result: outcome.result, state: RsbarModel::Brightness(outcome.state) }
            },
            RsbarModel::Hyprland(inner) => {
                let outcome = HyprlandContext::on_update(inner, reading);
                Outcome { result: outcome.result, state: RsbarModel::Hyprland(outcome.state) }
            },
            RsbarModel::Time(inner) => {
                let outcome = TimeContext::on_update(inner, reading);
                Outcome { result: outcome.result, state: RsbarModel::Time(outcome.state) }
            },
            RsbarModel::Battery(inner) => {
                let outcome = BatteryContext::on_update(inner, reading);
                Outcome { result: outcome.result, state: RsbarModel::Battery(outcome.state) }
            },
        }
    }

    open spec fn on_call(m: RsbarModel, procedure: Seq<char>, args: Seq<char>) -> Outcome<
        ActionModel,
        RsbarModel,
    > {
        match m {
            RsbarModel::Volume(inner) => {
                let outcome = VolumeContext::on_call(inner, procedure, args);
                Outcome { result: outcome.result, state: RsbarModel::Volume(outcome.state) }
            },
            RsbarModel::Brightness(inner) => {
                let outcome = BrightnessContext::on_call(inner, procedure, args);
                Outcome { result: outcome.result, state: RsbarModel::Brightness(outcome.state) }
            },
            RsbarModel::Hyprland(inner) => {
                let outcome = HyprlandContext::on_call(inner, procedure, args);
                Outcome { result: outcome.result, state: RsbarModel::Hyprland(outcome.state) }
            },
            RsbarModel::Time(inner) => {
                let outcome = TimeContext::on_call(inner, procedure, args);
                Outcome { result: outcome.result, state: RsbarModel::Time(outcome.state) }
            },
            RsbarModel::Battery(inner) => {
                let outcome = BatteryContext::on_call(inner, procedure, args);
                Outcome { result: outcome.result, state: RsbarModel::Battery(outcome.state) }
            },
        }
    }

    fn init_probe(&self) -> (probe: Probe) {
        match self {
            RsbarContext::Volume(context) => context.init_probe(),
            RsbarContext::Brightness(context) => context.init_probe(),
            RsbarContext::Hyprland(context) => context.init_probe(),
            RsbarContext::Time(context) => context.init_probe(),
            RsbarContext::Battery(context) => context.init_probe(),
        }
    }

    fn init(&mut self, reading: &Reading) -> (r: Result<(), ContextError>) {
        match self {
            RsbarContext::Volume(context) => context.init(reading),
            RsbarContext::Brightness(context) => context.init(reading),
            RsbarContext::Hyprland(context) => context.init(reading),
            RsbarContext::Time(context) => context.init(reading),
            RsbarContext::Battery(context) => context.init(reading),
        }
    }

    fn probe(&self) -> (probe: Probe) {
        match self {
            RsbarContext::Volume(context) => context.probe(),
            RsbarContext::Brightness(context) => context.probe(),
            RsbarContext::Hyprland(context) => context.probe(),
            RsbarContext::Time(context) => context.probe(),
            RsbarContext::Battery(context) => context.probe(),
        }
    }

    fn update(&mut self, reading: &Reading) -> (r: Result<Vec<Emission>, ContextError>) {
        match self {
            RsbarContext::Volume(context) => context.update(reading),
            RsbarContext::Brightness(context) => context.update(reading),
            RsbarContext::Hyprland(context) => context.update(reading),
            RsbarContext::Time(context) => context.update(reading),
            RsbarContext::Battery(context) => context.update(reading),
        }
    }

    fn call(&mut self, procedure: &str, args: &str) -> (r: Result<Action, ContextError>) {
        match self {
            RsbarContext::Volume(context) => context.call(procedure, args),
            RsbarContext::Brightness(context) => context.call(procedure, args),
            RsbarContext::Hyprland(context) => context.call(procedure, args),
            RsbarContext::Time(context) => context.call(procedure, args),
            RsbarContext::Battery(context) => context.call(procedure, args),
        }
    }

    fn force_events(&self) -> (r: Result<Vec<Emission>, ContextError>) {
        match self {
            RsbarContext::Volume(context) => context.force_events(),
            RsbarContext::Brightness(context) => context.force_events(),
            RsbarContext::Hyprland(context) => context.force_events(),
            RsbarContext::Time(context) => context.force_events(),
            RsbarContext::Battery(context) => context.force_events(),
        }
    }
}

} // verus!
